//! The boolean operators `and`, `or` and `not`.
//!
//! All three fully evaluate every argument (no short-circuiting) and
//! require each to reduce to a boolean atom.

use vstd::prelude::*;

use crate::env::Env;
use crate::env::SYMBOL_DEPTH_LIMIT;
use crate::semantics::as_bool;
use crate::semantics::eval;
use crate::semantics::eval_logic;
use crate::semantics::not_of;
use crate::semantics::res_matches;
use crate::syntax::exprs_view;
use crate::syntax::lemma_exprs_view;
use crate::syntax::Atom;
use crate::syntax::EvalError;
use crate::syntax::Expr;

verus! {

/// The boolean operators over raw argument expressions.
pub trait LogicOps {
    /// Conjunction of the booleans the arguments reduce to; `true` for no
    /// arguments.
    fn and(&mut self, args: &Vec<Expr>) -> Result<Expr, EvalError>;

    /// Disjunction of the booleans the arguments reduce to; `false` for
    /// no arguments.
    fn or(&mut self, args: &Vec<Expr>) -> Result<Expr, EvalError>;

    /// Negation of the boolean its single argument reduces to.
    fn not(&mut self, args: &Vec<Expr>) -> Result<Expr, EvalError>;
}

impl LogicOps for Env {
    /// Every argument is evaluated in turn (no short-circuiting); each
    /// must reduce to a boolean atom, and the conjunction starts from the
    /// identity `true`.
    fn and(&mut self, args: &Vec<Expr>) -> (r: Result<Expr, EvalError>)
        ensures
            ({
                let o = eval_logic(
                    SYMBOL_DEPTH_LIMIT as nat,
                    old(self)@,
                    exprs_view(args@),
                    true,
                    true,
                );
                match o {
                    Some(p) => final(self)@ == p.1 && res_matches(r, p.0),
                    None => r == Err::<Expr, EvalError>(EvalError::RecursionLimit),
                }
            }),
    {
        proof {
            assert(exprs_view(args@).subrange(0, exprs_view(args@).len() as int) =~= exprs_view(
                args@,
            ));
        }
        self.eval_logic_args(args, SYMBOL_DEPTH_LIMIT, true, true, 0)
    }

    /// Every argument is evaluated in turn (no short-circuiting); each
    /// must reduce to a boolean atom, and the disjunction starts from the
    /// identity `false`.
    fn or(&mut self, args: &Vec<Expr>) -> (r: Result<Expr, EvalError>)
        ensures
            ({
                let o = eval_logic(
                    SYMBOL_DEPTH_LIMIT as nat,
                    old(self)@,
                    exprs_view(args@),
                    false,
                    false,
                );
                match o {
                    Some(p) => final(self)@ == p.1 && res_matches(r, p.0),
                    None => r == Err::<Expr, EvalError>(EvalError::RecursionLimit),
                }
            }),
    {
        proof {
            assert(exprs_view(args@).subrange(0, exprs_view(args@).len() as int) =~= exprs_view(
                args@,
            ));
        }
        self.eval_logic_args(args, SYMBOL_DEPTH_LIMIT, false, false, 0)
    }

    /// Exactly one argument; it is evaluated, must reduce to a boolean
    /// atom, and the result is its negation.
    fn not(&mut self, args: &Vec<Expr>) -> (r: Result<Expr, EvalError>)
        ensures
            ({
                let av = exprs_view(args@);
                if av.len() != 1 {
                    r == Err::<Expr, EvalError>(EvalError::ArityMismatch) && final(self)@ == old(
                        self,
                    )@
                } else {
                    match eval(SYMBOL_DEPTH_LIMIT as nat, old(self)@, av[0]) {
                        None => r == Err::<Expr, EvalError>(EvalError::RecursionLimit),
                        Some((Ok(v), env1)) => final(self)@ == env1 && res_matches(r, not_of(v)),
                        Some((Err(er), env1)) => final(self)@ == env1 && r == Err::<
                            Expr,
                            EvalError,
                        >(er),
                    }
                }
            }),
    {
        proof {
            lemma_exprs_view(args@);
        }
        if args.len() != 1 {
            Err(EvalError::ArityMismatch)
        } else {
            match self.simplify(&args[0]) {
                Err(er) => Err(er),
                Ok(v) => match try_get_bool(&v) {
                    Err(er) => Err(er),
                    Ok(b) => Ok(Expr::Atom(Atom::Boolean(!b))),
                },
            }
        }
    }
}

/// The boolean a fully reduced expression stands for; anything that is
/// not a boolean atom is a type mismatch.
pub fn try_get_bool(expr: &Expr) -> (r: Result<bool, EvalError>)
    ensures
        r == as_bool(expr@),
{
    match expr {
        Expr::Atom(atom) => match atom {
            Atom::Boolean(b) => Ok(*b),
            _ => Err(EvalError::TypeMismatch),
        },
        Expr::List(_) => Err(EvalError::TypeMismatch),
    }
}

} // verus!
