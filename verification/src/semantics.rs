//! The mathematical semantics of evaluation.
//!
//! [`eval`] is a fuel-indexed reduction function over expression models:
//! `fuel` bounds how many times a symbol binding may be transparently
//! forced, so that evaluation is well defined even for self-referential
//! bindings. `eval` returns `None` exactly when that bound is exhausted;
//! otherwise it returns the reduced expression (or the error) together
//! with the environment as left behind by any `define` along the way.

use vstd::prelude::*;

use crate::syntax::AtomV;
use crate::syntax::EvalError;
use crate::syntax::Expr;
use crate::syntax::ExprV;
use crate::syntax::LambdaDefV;

verus! {

/// An executable result agrees with a result of the semantics when the
/// variants coincide and the value's model (or the error) is the same.
pub open spec fn res_matches(r: Result<Expr, EvalError>, s: Result<ExprV, EvalError>) -> bool {
    match (r, s) {
        (Ok(v), Ok(sv)) => v@ == sv,
        (Err(a), Err(b)) => a == b,
        _ => false,
    }
}

/// The model of an environment: symbol names mapped to the (unevaluated)
/// expressions bound to them.
pub type BindingsV = Map<Seq<char>, ExprV>;

/// What one evaluation step chain produces: `None` when the fuel bound was
/// exhausted, otherwise the result and the environment after evaluation.
pub type EvalOutcome = Option<(Result<ExprV, EvalError>, BindingsV)>;

/// The boolean an expression reduces to, if it is a boolean atom.
pub open spec fn as_bool(v: ExprV) -> Result<bool, EvalError> {
    match v {
        ExprV::Atom(AtomV::Boolean(b)) => Ok(b),
        _ => Err(EvalError::TypeMismatch),
    }
}

/// The boolean negation of a fully reduced expression; anything that is
/// not a boolean atom is a type mismatch.
pub open spec fn not_of(v: ExprV) -> Result<ExprV, EvalError> {
    match as_bool(v) {
        Ok(b) => Ok(ExprV::Atom(AtomV::Boolean(!b))),
        Err(er) => Err(er),
    }
}

/// The first element of a list value; an atom is rejected and so is the
/// empty list.
pub open spec fn car_of(v: ExprV) -> Result<ExprV, EvalError> {
    match v {
        ExprV::List(l) => if l.len() == 0 {
            Err(EvalError::EmptyListAccess)
        } else {
            Ok(l[0])
        },
        ExprV::Atom(_) => Err(EvalError::TypeMismatch),
    }
}

/// Everything after the first element of a list value; the empty list and
/// a single-element list both give the empty list, an atom is rejected.
pub open spec fn cdr_of(v: ExprV) -> Result<ExprV, EvalError> {
    match v {
        ExprV::List(l) => if l.len() == 0 {
            Ok(ExprV::List(Seq::empty()))
        } else {
            Ok(ExprV::List(l.subrange(1, l.len() as int)))
        },
        ExprV::Atom(_) => Err(EvalError::TypeMismatch),
    }
}

/// The name of a bare symbol atom; anything else is rejected.
pub open spec fn symbol_name_of(v: ExprV) -> Result<Seq<char>, EvalError> {
    match v {
        ExprV::Atom(AtomV::Symbol(s)) => Ok(s),
        _ => Err(EvalError::TypeMismatch),
    }
}

/// A `lambda` parameter specification: a single atom stands for the
/// one-element parameter list, a list is taken as it is.
pub open spec fn lambda_params_of(p: ExprV) -> Seq<ExprV> {
    match p {
        ExprV::Atom(a) => seq![ExprV::Atom(a)],
        ExprV::List(l) => l,
    }
}

/// The lambda value the `lambda` form constructs from its two raw
/// arguments.
pub open spec fn lambda_of(params_expr: ExprV, body: ExprV) -> ExprV {
    ExprV::Atom(
        AtomV::Lambda(LambdaDefV { params: lambda_params_of(params_expr), body: Box::new(body) }),
    )
}

/// Reduction of an expression to normal form, with `fuel` bounding chained
/// symbol forcing.
///
/// Atoms other than symbols and the empty list are self-evaluating. A
/// symbol resolves through the environment and the binding is forced
/// (recursively evaluated) on use. A non-empty list dispatches on its head
/// symbol: `quote`, `define`, `car`, `cdr`, `lambda`, `and`, `or`, `not`;
/// any other head fails with `UnknownOperator`. Each form decides which of
/// its raw arguments are evaluated, and environment mutation by `define`
/// carries into whatever is evaluated afterwards.
pub open spec fn eval(fuel: nat, env: BindingsV, e: ExprV) -> EvalOutcome
    decreases fuel, e, 1int,
{
    match e {
        ExprV::Atom(AtomV::Symbol(s)) => {
            if !env.dom().contains(s) {
                Some((Err(EvalError::UnboundSymbol), env))
            } else if fuel == 0 {
                None
            } else {
                eval((fuel - 1) as nat, env, env[s])
            }
        },
        ExprV::Atom(_) => Some((Ok(e), env)),
        ExprV::List(l) => {
            if l.len() == 0 {
                Some((Ok(e), env))
            } else {
                match l[0] {
                    ExprV::Atom(AtomV::Symbol(op)) => {
                        if op == "quote"@ {
                            if l.len() != 2 {
                                Some((Err(EvalError::ArityMismatch), env))
                            } else {
                                Some((Ok(l[1]), env))
                            }
                        } else if op == "define"@ {
                            if l.len() != 3 {
                                Some((Err(EvalError::ArityMismatch), env))
                            } else {
                                match symbol_name_of(l[1]) {
                                    Ok(name) => Some(
                                        (
                                            Ok(ExprV::Atom(AtomV::Symbol(name))),
                                            env.insert(name, l[2]),
                                        ),
                                    ),
                                    Err(er) => Some((Err(er), env)),
                                }
                            }
                        } else if op == "car"@ {
                            if l.len() != 2 {
                                Some((Err(EvalError::ArityMismatch), env))
                            } else {
                                match eval(fuel, env, l[1]) {
                                    None => None,
                                    Some((Ok(v), env1)) => Some((car_of(v), env1)),
                                    Some((Err(er), env1)) => Some((Err(er), env1)),
                                }
                            }
                        } else if op == "cdr"@ {
                            if l.len() != 2 {
                                Some((Err(EvalError::ArityMismatch), env))
                            } else {
                                match eval(fuel, env, l[1]) {
                                    None => None,
                                    Some((Ok(v), env1)) => Some((cdr_of(v), env1)),
                                    Some((Err(er), env1)) => Some((Err(er), env1)),
                                }
                            }
                        } else if op == "lambda"@ {
                            if l.len() != 3 {
                                Some((Err(EvalError::ArityMismatch), env))
                            } else {
                                Some((Ok(lambda_of(l[1], l[2])), env))
                            }
                        } else if op == "and"@ {
                            eval_logic(fuel, env, l.subrange(1, l.len() as int), true, true)
                        } else if op == "or"@ {
                            eval_logic(fuel, env, l.subrange(1, l.len() as int), false, false)
                        } else if op == "not"@ {
                            if l.len() != 2 {
                                Some((Err(EvalError::ArityMismatch), env))
                            } else {
                                match eval(fuel, env, l[1]) {
                                    None => None,
                                    Some((Ok(v), env1)) => Some((not_of(v), env1)),
                                    Some((Err(er), env1)) => Some((Err(er), env1)),
                                }
                            }
                        } else {
                            Some((Err(EvalError::UnknownOperator), env))
                        }
                    },
                    _ => Some((Err(EvalError::UnknownOperator), env)),
                }
            }
        },
    }
}

/// The shared fold of `and` and `or`: every argument is evaluated in turn
/// (no short-circuiting), each must reduce to a boolean atom, and the
/// booleans are combined with conjunction (`is_and`) or disjunction onto
/// the accumulator `acc`.
pub open spec fn eval_logic(
    fuel: nat,
    env: BindingsV,
    args: Seq<ExprV>,
    acc: bool,
    is_and: bool,
) -> EvalOutcome
    decreases fuel, args, 0int,
{
    if args.len() == 0 {
        Some((Ok(ExprV::Atom(AtomV::Boolean(acc))), env))
    } else {
        match eval(fuel, env, args[0]) {
            None => None,
            Some((Ok(v), env1)) => match as_bool(v) {
                Ok(b) => eval_logic(
                    fuel,
                    env1,
                    args.subrange(1, args.len() as int),
                    if is_and {
                        acc && b
                    } else {
                        acc || b
                    },
                    is_and,
                ),
                Err(er) => Some((Err(er), env1)),
            },
            Some((Err(er), env1)) => Some((Err(er), env1)),
        }
    }
}

/// Whether an expression is fully reduced (in normal form): every atom
/// other than a symbol, and the empty list.
pub open spec fn is_reduced(e: ExprV) -> bool {
    match e {
        ExprV::Atom(AtomV::Symbol(_)) => false,
        ExprV::Atom(_) => true,
        ExprV::List(l) => l.len() == 0,
    }
}

/// Law: boolean atoms are self-evaluating, whatever the environment and
/// the depth allowance.
pub proof fn lemma_boolean_self_evaluation(fuel: nat, env: BindingsV, b: bool)
    ensures
        eval(fuel, env, ExprV::Atom(AtomV::Boolean(b))) == Some(
            (Ok::<ExprV, EvalError>(ExprV::Atom(AtomV::Boolean(b))), env),
        ),
{
}

/// Law: a fully reduced expression evaluates to itself and leaves the
/// environment unchanged.
pub proof fn lemma_reduced_self_evaluation(fuel: nat, env: BindingsV, e: ExprV)
    requires
        is_reduced(e),
    ensures
        eval(fuel, env, e) == Some((Ok::<ExprV, EvalError>(e), env)),
{
}

/// Law: `quote` returns its argument verbatim, however ill-formed the
/// argument may be, and never touches the environment.
pub proof fn lemma_quote_suppresses_evaluation(fuel: nat, env: BindingsV, x: ExprV)
    ensures
        eval(fuel, env, ExprV::List(seq![ExprV::Atom(AtomV::Symbol("quote"@)), x])) == Some(
            (Ok::<ExprV, EvalError>(x), env),
        ),
{
}

/// Law: looking up a symbol the environment does not bind always fails
/// with `UnboundSymbol`; no default is ever produced.
pub proof fn lemma_unbound_symbol(fuel: nat, env: BindingsV, name: Seq<char>)
    requires
        !env.dom().contains(name),
    ensures
        eval(fuel, env, ExprV::Atom(AtomV::Symbol(name))) == Some(
            (Err::<ExprV, EvalError>(EvalError::UnboundSymbol), env),
        ),
{
}

/// Law: a bare atom as the parameter specification of `lambda` stands
/// for the one-element parameter list, so the two spellings construct
/// the same lambda value.
pub proof fn lemma_lambda_scalar_list_equivalence(fuel: nat, env: BindingsV, p: AtomV, body: ExprV)
    ensures
        eval(fuel, env, ExprV::List(seq![ExprV::Atom(AtomV::Symbol("lambda"@)), ExprV::Atom(p), body]))
            == eval(
            fuel,
            env,
            ExprV::List(
                seq![
                    ExprV::Atom(AtomV::Symbol("lambda"@)),
                    ExprV::List(seq![ExprV::Atom(p)]),
                    body,
                ],
            ),
        ),
{
    reveal_strlit("quote");
    reveal_strlit("define");
    reveal_strlit("car");
    reveal_strlit("cdr");
    reveal_strlit("lambda");
    let scalar = seq![ExprV::Atom(AtomV::Symbol("lambda"@)), ExprV::Atom(p), body];
    let listed = seq![
        ExprV::Atom(AtomV::Symbol("lambda"@)),
        ExprV::List(seq![ExprV::Atom(p)]),
        body,
    ];
    assert(scalar.len() == 3 && listed.len() == 3);
    assert("quote"@.len() == 5 && "define"@.len() == 6 && "car"@.len() == 3 && "cdr"@.len() == 3
        && "lambda"@.len() == 6);
    assert("lambda"@[0] == 'l' && "define"@[0] == 'd');
    assert(lambda_params_of(scalar[1]) =~= lambda_params_of(listed[1]));
    assert(lambda_of(scalar[1], scalar[2]) == lambda_of(listed[1], listed[2]));
}

} // verus!
