//! The environment: a flat mutable mapping from symbol names to bound
//! (unevaluated) expressions, and the evaluator entry point `simplify`.

use vstd::prelude::*;

use crate::boolean::try_get_bool;
use crate::built_in::car_exp;
use crate::built_in::cdr_exp;
use crate::built_in::try_get_symbol_string;
use crate::semantics::eval;
use crate::semantics::eval_logic;
use crate::semantics::lambda_of;
use crate::semantics::lambda_params_of;
use crate::semantics::res_matches;
use crate::semantics::BindingsV;
use crate::syntax::clone_exprs;
use crate::syntax::expr_view;
use crate::syntax::exprs_view;
use crate::syntax::lemma_exprs_view;
use crate::syntax::Atom;
use crate::syntax::EvalError;
use crate::syntax::Expr;
use crate::syntax::LambdaDef;
use crate::syntax::LambdaDefV;

verus! {

/// Whether a symbol equals the given operator name.
fn is_op(op: &String, lit: &str) -> (b: bool)
    ensures
        b == (op@ == lit@),
{
    let s: String = lit.to_owned();
    *op == s
}

/// How many times one evaluation may transparently force a symbol binding
/// before it gives up with [`EvalError::RecursionLimit`].
pub const SYMBOL_DEPTH_LIMIT: u64 = 4096;

/// The global environment: symbol names bound to unevaluated expressions.
/// Binding is insert-or-overwrite; there is no parent scope chain.
pub struct Env {
    table: Vec<(String, Expr)>,
}

impl Env {
    /// The mapping a prefix of the table stands for: later entries
    /// overwrite earlier ones.
    spec fn table_model(t: Seq<(String, Expr)>) -> BindingsV
        decreases t.len(),
    {
        if t.len() == 0 {
            Map::empty()
        } else {
            Self::table_model(t.subrange(0, t.len() - 1)).insert(
                t[t.len() - 1].0@,
                expr_view(t[t.len() - 1].1),
            )
        }
    }

    /// An environment with no bindings at all.
    pub fn new() -> (r: Env)
        ensures
            r@ == Map::<Seq<char>, crate::syntax::ExprV>::empty(),
    {
        Env { table: Vec::new() }
    }

    /// Inserts or overwrites the binding for `name`; the expression is
    /// stored unevaluated.
    pub fn add_var(&mut self, name: String, value: Expr)
        ensures
            final(self)@ == old(self)@.insert(name@, value@),
    {
        let ghost t0 = self.table@;
        self.table.push((name, value));
        proof {
            assert(self.table@.subrange(0, self.table@.len() - 1) =~= t0);
        }
    }

    /// Resolves `name` to the expression bound to it (a structural copy);
    /// fails with `UnboundSymbol` exactly when the environment does not
    /// bind `name`.
    pub fn lookup(&self, name: &String) -> (r: Result<Expr, EvalError>)
        ensures
            match r {
                Ok(e) => self@.dom().contains(name@) && e@ == self@[name@],
                Err(er) => er == EvalError::UnboundSymbol && !self@.dom().contains(name@),
            },
    {
        let t = &self.table;
        let mut j = t.len();
        proof {
            assert(t@.subrange(0, t@.len() as int) =~= t@);
        }
        while j > 0
            invariant
                j <= t@.len(),
                t == &self.table,
                self@.dom().contains(name@) == Self::table_model(
                    t@.subrange(0, j as int),
                ).dom().contains(name@),
                self@.dom().contains(name@) ==> Self::table_model(t@.subrange(0, j as int))[name@]
                    == self@[name@],
            decreases j,
        {
            j = j - 1;
            let ghost pre1 = t@.subrange(0, j + 1);
            proof {
                assert(pre1.subrange(0, pre1.len() - 1) =~= t@.subrange(0, j as int));
                assert(pre1[pre1.len() - 1] == t@[j as int]);
            }
            if t[j].0 == *name {
                return Ok(t[j].1.clone());
            }
        }
        Err(EvalError::UnboundSymbol)
    }
}

impl View for Env {
    type V = BindingsV;

    closed spec fn view(&self) -> BindingsV {
        Env::table_model(self.table@)
    }
}

impl Env {
    /// Reduces `expr` to normal form, forcing at most
    /// [`SYMBOL_DEPTH_LIMIT`] chained symbol bindings.
    ///
    /// The result and the bindings left behind agree exactly with
    /// [`eval`] at that depth; when `eval` runs out of depth the call
    /// returns `RecursionLimit`.
    pub fn simplify(&mut self, expr: &Expr) -> (r: Result<Expr, EvalError>)
        ensures
            ({
                let o = eval(SYMBOL_DEPTH_LIMIT as nat, old(self)@, expr@);
                match o {
                    Some(p) => final(self)@ == p.1 && res_matches(r, p.0),
                    None => r == Err::<Expr, EvalError>(EvalError::RecursionLimit),
                }
            }),
    {
        self.simplify_bounded(expr, SYMBOL_DEPTH_LIMIT)
    }

    /// The recursive reduction behind [`Env::simplify`], with the
    /// remaining symbol-forcing allowance made explicit.
    fn simplify_bounded(&mut self, expr: &Expr, fuel: u64) -> (r: Result<Expr, EvalError>)
        ensures
            ({
                let o = eval(fuel as nat, old(self)@, expr@);
                match o {
                    Some(p) => final(self)@ == p.1 && res_matches(r, p.0),
                    None => r == Err::<Expr, EvalError>(EvalError::RecursionLimit),
                }
            }),
        decreases fuel, expr, 1int,
    {
        match expr {
            Expr::Atom(Atom::Symbol(s)) => match self.lookup(s) {
                Err(er) => Err(er),
                Ok(bound) => {
                    if fuel == 0 {
                        Err(EvalError::RecursionLimit)
                    } else {
                        self.simplify_bounded(&bound, fuel - 1)
                    }
                },
            },
            Expr::Atom(_) => Ok(expr.clone()),
            Expr::List(l) => {
                proof {
                    lemma_exprs_view(l@);
                }
                if l.len() == 0 {
                    Ok(expr.clone())
                } else {
                    match &l[0] {
                        Expr::Atom(Atom::Symbol(op)) => {
                            if is_op(op, "quote") {
                                if l.len() != 2 {
                                    Err(EvalError::ArityMismatch)
                                } else {
                                    Ok(l[1].clone())
                                }
                            } else if is_op(op, "define") {
                                if l.len() != 3 {
                                    Err(EvalError::ArityMismatch)
                                } else {
                                    match try_get_symbol_string(&l[1]) {
                                        Err(er) => Err(er),
                                        Ok(name) => {
                                            self.add_var(name.clone(), l[2].clone());
                                            Ok(Expr::Atom(Atom::Symbol(name)))
                                        },
                                    }
                                }
                            } else if is_op(op, "car") {
                                if l.len() != 2 {
                                    Err(EvalError::ArityMismatch)
                                } else {
                                    match self.simplify_bounded(&l[1], fuel) {
                                        Err(er) => Err(er),
                                        Ok(v) => car_exp(&v),
                                    }
                                }
                            } else if is_op(op, "cdr") {
                                if l.len() != 2 {
                                    Err(EvalError::ArityMismatch)
                                } else {
                                    match self.simplify_bounded(&l[1], fuel) {
                                        Err(er) => Err(er),
                                        Ok(v) => cdr_exp(&v),
                                    }
                                }
                            } else if is_op(op, "lambda") {
                                if l.len() != 3 {
                                    Err(EvalError::ArityMismatch)
                                } else {
                                    let params: Vec<Expr> = match &l[1] {
                                        Expr::Atom(a) => {
                                            let mut p: Vec<Expr> = Vec::new();
                                            p.push(Expr::Atom(a.clone()));
                                            p
                                        },
                                        Expr::List(pl) => clone_exprs(pl),
                                    };
                                    let body = Box::new(l[2].clone());
                                    let def = LambdaDef { params, body };
                                    proof {
                                        lemma_exprs_view(def.params@);
                                        assert(crate::syntax::lambda_view(def) =~= (LambdaDefV {
                                            params: lambda_params_of(expr_view(l@[1])),
                                            body: Box::new(expr_view(l@[2])),
                                        }));
                                    }
                                    Ok(Expr::Atom(Atom::Lambda(def)))
                                }
                            } else if is_op(op, "and") || is_op(op, "or") {
                                let conj = is_op(op, "and");
                                self.eval_logic_args(l, fuel, conj, conj, 1)
                            } else if is_op(op, "not") {
                                if l.len() != 2 {
                                    Err(EvalError::ArityMismatch)
                                } else {
                                    match self.simplify_bounded(&l[1], fuel) {
                                        Err(er) => Err(er),
                                        Ok(v) => match try_get_bool(&v) {
                                            Err(er) => Err(er),
                                            Ok(b) => Ok(Expr::Atom(Atom::Boolean(!b))),
                                        },
                                    }
                                }
                            } else {
                                Err(EvalError::UnknownOperator)
                            }
                        },
                        _ => Err(EvalError::UnknownOperator),
                    }
                }
            },
        }
    }

    /// Evaluates the elements of `l` from position `i` on in turn and
    /// folds the booleans they reduce to onto `acc`, with conjunction
    /// when `conj` is set and disjunction otherwise.
    pub(crate) fn eval_logic_args(&mut self, l: &Vec<Expr>, fuel: u64, conj: bool, acc: bool, i: usize) -> (r:
        Result<Expr, EvalError>)
        requires
            i <= l@.len(),
        ensures
            ({
                let lv = exprs_view(l@);
                let o = eval_logic(
                    fuel as nat,
                    old(self)@,
                    lv.subrange(i as int, lv.len() as int),
                    acc,
                    conj,
                );
                match o {
                    Some(p) => final(self)@ == p.1 && res_matches(r, p.0),
                    None => r == Err::<Expr, EvalError>(EvalError::RecursionLimit),
                }
            }),
        decreases fuel, l@, l@.len() - i,
    {
        proof {
            lemma_exprs_view(l@);
        }
        let ghost lv = exprs_view(l@);
        let n = l.len();
        if i >= n {
            proof {
                assert(lv.subrange(i as int, n as int) =~= Seq::<crate::syntax::ExprV>::empty());
            }
            Ok(Expr::Atom(Atom::Boolean(acc)))
        } else {
            proof {
                let args = lv.subrange(i as int, n as int);
                assert(args[0] == lv[i as int]);
                assert(args.subrange(1, args.len() as int) =~= lv.subrange(
                    i as int + 1,
                    n as int,
                ));
            }
            match self.simplify_bounded(&l[i], fuel) {
                Err(er) => Err(er),
                Ok(v) => match try_get_bool(&v) {
                    Err(er) => Err(er),
                    Ok(b) => {
                        let acc2 = if conj {
                            acc && b
                        } else {
                            acc || b
                        };
                        self.eval_logic_args(l, fuel, conj, acc2, i + 1)
                    },
                },
            }
        }
    }
}

} // verus!
