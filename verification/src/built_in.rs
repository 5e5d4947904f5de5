//! The built-in special forms: `quote`, `define`, `car`, `cdr`, `lambda`.

use vstd::prelude::*;

use crate::env::Env;
use crate::env::SYMBOL_DEPTH_LIMIT;
use crate::semantics::car_of;
use crate::semantics::cdr_of;
use crate::semantics::eval;
use crate::semantics::lambda_of;
use crate::semantics::lambda_params_of;
use crate::semantics::res_matches;
use crate::semantics::symbol_name_of;
use crate::syntax::clone_exprs;
use crate::syntax::expr_view;
use crate::syntax::exprs_view;
use crate::syntax::lemma_exprs_view;
use crate::syntax::Atom;
use crate::syntax::AtomV;
use crate::syntax::EvalError;
use crate::syntax::Expr;
use crate::syntax::ExprV;
use crate::syntax::LambdaDef;
use crate::syntax::LambdaDefV;

verus! {

/// The built-in special forms over raw (unevaluated) argument
/// expressions.
pub trait EnvPrimitives {
    /// Binds a symbol to its (unevaluated) definition and returns the
    /// symbol.
    fn define(&mut self, expr: &Vec<Expr>) -> Result<Expr, EvalError>;

    /// Returns its single argument verbatim, unevaluated.
    fn quote(&mut self, expr: &Vec<Expr>) -> Result<Expr, EvalError>;

    /// Evaluates its single argument and returns the first element of the
    /// resulting list.
    fn car(&mut self, expr: &Vec<Expr>) -> Result<Expr, EvalError>;

    /// Evaluates its single argument and returns everything after the
    /// first element of the resulting list.
    fn cdr(&mut self, expr: &Vec<Expr>) -> Result<Expr, EvalError>;

    /// Constructs a lambda value from a parameter specification and a
    /// body, both unevaluated.
    fn lambda(&mut self, expr: &Vec<Expr>) -> Result<Expr, EvalError>;
}

impl EnvPrimitives for Env {
    /// The first argument must literally be a symbol atom; the second is
    /// stored unevaluated, overwriting any earlier binding of the name.
    fn define(&mut self, expr: &Vec<Expr>) -> (r: Result<Expr, EvalError>)
        ensures
            ({
                let av = exprs_view(expr@);
                if av.len() != 2 {
                    r == Err::<Expr, EvalError>(EvalError::ArityMismatch) && final(self)@ == old(
                        self,
                    )@
                } else {
                    match symbol_name_of(av[0]) {
                        Ok(name) => final(self)@ == old(self)@.insert(name, av[1])
                            && res_matches(r, Ok(ExprV::Atom(AtomV::Symbol(name)))),
                        Err(er) => r == Err::<Expr, EvalError>(er) && final(self)@ == old(self)@,
                    }
                }
            }),
    {
        proof {
            lemma_exprs_view(expr@);
        }
        if expr.len() != 2 {
            Err(EvalError::ArityMismatch)
        } else {
            match try_get_symbol_string(&expr[0]) {
                Err(er) => Err(er),
                Ok(name) => {
                    self.add_var(name.clone(), expr[1].clone());
                    Ok(Expr::Atom(Atom::Symbol(name)))
                },
            }
        }
    }

    /// The single argument comes back as it stands, whether or not it
    /// could be evaluated.
    fn quote(&mut self, expr: &Vec<Expr>) -> (r: Result<Expr, EvalError>)
        ensures
            final(self)@ == old(self)@,
            ({
                let av = exprs_view(expr@);
                if av.len() != 1 {
                    r == Err::<Expr, EvalError>(EvalError::ArityMismatch)
                } else {
                    res_matches(r, Ok(av[0]))
                }
            }),
    {
        proof {
            lemma_exprs_view(expr@);
        }
        if expr.len() != 1 {
            Err(EvalError::ArityMismatch)
        } else {
            Ok(expr[0].clone())
        }
    }

    /// The single argument is evaluated first; the result must be a
    /// non-empty list, whose first element comes back.
    fn car(&mut self, expr: &Vec<Expr>) -> (r: Result<Expr, EvalError>)
        ensures
            ({
                let av = exprs_view(expr@);
                if av.len() != 1 {
                    r == Err::<Expr, EvalError>(EvalError::ArityMismatch) && final(self)@ == old(
                        self,
                    )@
                } else {
                    match eval(SYMBOL_DEPTH_LIMIT as nat, old(self)@, av[0]) {
                        None => r == Err::<Expr, EvalError>(EvalError::RecursionLimit),
                        Some((Ok(v), env1)) => final(self)@ == env1 && res_matches(r, car_of(v)),
                        Some((Err(er), env1)) => final(self)@ == env1 && r == Err::<
                            Expr,
                            EvalError,
                        >(er),
                    }
                }
            }),
    {
        proof {
            lemma_exprs_view(expr@);
        }
        if expr.len() != 1 {
            Err(EvalError::ArityMismatch)
        } else {
            match self.simplify(&expr[0]) {
                Err(er) => Err(er),
                Ok(v) => car_exp(&v),
            }
        }
    }

    /// The single argument is evaluated first; the result must be a list,
    /// and everything after its first element comes back (the empty list
    /// when there is at most one element).
    fn cdr(&mut self, expr: &Vec<Expr>) -> (r: Result<Expr, EvalError>)
        ensures
            ({
                let av = exprs_view(expr@);
                if av.len() != 1 {
                    r == Err::<Expr, EvalError>(EvalError::ArityMismatch) && final(self)@ == old(
                        self,
                    )@
                } else {
                    match eval(SYMBOL_DEPTH_LIMIT as nat, old(self)@, av[0]) {
                        None => r == Err::<Expr, EvalError>(EvalError::RecursionLimit),
                        Some((Ok(v), env1)) => final(self)@ == env1 && res_matches(r, cdr_of(v)),
                        Some((Err(er), env1)) => final(self)@ == env1 && r == Err::<
                            Expr,
                            EvalError,
                        >(er),
                    }
                }
            }),
    {
        proof {
            lemma_exprs_view(expr@);
        }
        if expr.len() != 1 {
            Err(EvalError::ArityMismatch)
        } else {
            match self.simplify(&expr[0]) {
                Err(er) => Err(er),
                Ok(v) => cdr_exp(&v),
            }
        }
    }

    /// A single atom as first argument stands for the one-element
    /// parameter list; a list is taken as it is. Nothing is evaluated and
    /// the environment is untouched.
    fn lambda(&mut self, expr: &Vec<Expr>) -> (r: Result<Expr, EvalError>)
        ensures
            final(self)@ == old(self)@,
            ({
                let av = exprs_view(expr@);
                if av.len() != 2 {
                    r == Err::<Expr, EvalError>(EvalError::ArityMismatch)
                } else {
                    res_matches(r, Ok(lambda_of(av[0], av[1])))
                }
            }),
    {
        proof {
            lemma_exprs_view(expr@);
        }
        if expr.len() != 2 {
            Err(EvalError::ArityMismatch)
        } else {
            let params: Vec<Expr> = match &expr[0] {
                Expr::Atom(a) => {
                    let mut p: Vec<Expr> = Vec::new();
                    p.push(Expr::Atom(a.clone()));
                    p
                },
                Expr::List(pl) => clone_exprs(pl),
            };
            let body = Box::new(expr[1].clone());
            let def = LambdaDef { params, body };
            proof {
                lemma_exprs_view(def.params@);
                assert(crate::syntax::lambda_view(def) =~= (LambdaDefV {
                    params: lambda_params_of(expr_view(expr@[0])),
                    body: Box::new(expr_view(expr@[1])),
                }));
            }
            Ok(Expr::Atom(Atom::Lambda(def)))
        }
    }
}

/// The first element of a fully reduced list; an atom or the empty list
/// is rejected.
pub fn car_exp(expr: &Expr) -> (r: Result<Expr, EvalError>)
    ensures
        res_matches(r, car_of(expr@)),
{
    match expr {
        Expr::Atom(_) => Err(EvalError::TypeMismatch),
        Expr::List(list) => {
            proof {
                lemma_exprs_view(list@);
            }
            if list.len() == 0 {
                Err(EvalError::EmptyListAccess)
            } else {
                Ok(list[0].clone())
            }
        },
    }
}

/// Everything after the first element of a fully reduced list, as a new
/// list; a list with at most one element gives the empty list, an atom is
/// rejected.
pub fn cdr_exp(expr: &Expr) -> (r: Result<Expr, EvalError>)
    ensures
        res_matches(r, cdr_of(expr@)),
{
    match expr {
        Expr::Atom(_) => Err(EvalError::TypeMismatch),
        Expr::List(list) => {
            proof {
                lemma_exprs_view(list@);
            }
            let mut rest: Vec<Expr> = Vec::new();
            let n = list.len();
            let mut i: usize = 1;
            while i < n
                invariant
                    1 <= i <= n || (n == 0 && i == 1),
                    n == list@.len(),
                    rest@.len() == i - 1 || (n == 0 && rest@.len() == 0),
                    forall|j: int|
                        0 <= j < rest@.len() ==> crate::syntax::expr_view(rest@[j])
                            == crate::syntax::expr_view(list@[j + 1]),
                decreases n - i,
            {
                rest.push(list[i].clone());
                i = i + 1;
            }
            proof {
                lemma_exprs_view(rest@);
                if list@.len() == 0 {
                    assert(exprs_view(rest@) =~= Seq::<crate::syntax::ExprV>::empty());
                } else {
                    assert(exprs_view(rest@) =~= exprs_view(list@).subrange(
                        1,
                        exprs_view(list@).len() as int,
                    ));
                }
            }
            Ok(Expr::List(rest))
        },
    }
}

/// The name of a bare symbol atom; anything else is an invalid name.
pub fn try_get_symbol_string(expr: &Expr) -> (r: Result<String, EvalError>)
    ensures
        match r {
            Ok(s) => symbol_name_of(expr@) == Ok::<Seq<char>, EvalError>(s@),
            Err(er) => symbol_name_of(expr@) == Err::<Seq<char>, EvalError>(er),
        },
{
    match expr {
        Expr::Atom(atom) => match atom {
            Atom::Symbol(s) => Ok(s.clone()),
            _ => Err(EvalError::TypeMismatch),
        },
        Expr::List(_) => Err(EvalError::TypeMismatch),
    }
}

} // verus!
