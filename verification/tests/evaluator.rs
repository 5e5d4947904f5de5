use sexpr_eval::boolean::try_get_bool;
use sexpr_eval::boolean::LogicOps;
use sexpr_eval::built_in::car_exp;
use sexpr_eval::built_in::cdr_exp;
use sexpr_eval::built_in::try_get_symbol_string;
use sexpr_eval::built_in::EnvPrimitives;
use sexpr_eval::env::Env;
use sexpr_eval::syntax::Atom;
use sexpr_eval::syntax::EvalError;
use sexpr_eval::syntax::Expr;

fn sym(name: &str) -> Expr {
    Expr::Atom(Atom::Symbol(name.to_string()))
}

fn boolean(b: bool) -> Expr {
    Expr::Atom(Atom::Boolean(b))
}

fn list(items: Vec<Expr>) -> Expr {
    Expr::List(items)
}

fn quoted(e: Expr) -> Expr {
    list(vec![sym("quote"), e])
}

#[test]
fn boolean_atoms_self_evaluate() {
    let mut env = Env::new();
    assert_eq!(env.simplify(&boolean(true)), Ok(boolean(true)));
    assert_eq!(env.simplify(&boolean(false)), Ok(boolean(false)));
}

#[test]
fn empty_list_self_evaluates() {
    let mut env = Env::new();
    assert_eq!(env.simplify(&list(vec![])), Ok(list(vec![])));
}

#[test]
fn quote_returns_argument_unevaluated() {
    let mut env = Env::new();
    let inner = list(vec![sym("foo"), sym("bar")]);
    assert_eq!(env.simplify(&quoted(inner.clone())), Ok(inner));
}

#[test]
fn quote_wrong_arity_fails() {
    let mut env = Env::new();
    let e = list(vec![sym("quote"), sym("a"), sym("b")]);
    assert_eq!(env.simplify(&e), Err(EvalError::ArityMismatch));
    let none = list(vec![sym("quote")]);
    assert_eq!(env.simplify(&none), Err(EvalError::ArityMismatch));
}

#[test]
fn define_then_lookup_symbol() {
    let mut env = Env::new();
    let def = list(vec![sym("define"), sym("x"), quoted(boolean(true))]);
    assert_eq!(env.simplify(&def), Ok(sym("x")));
    assert_eq!(env.simplify(&sym("x")), Ok(boolean(true)));
}

#[test]
fn define_requires_bare_symbol_name() {
    let mut env = Env::new();
    let def = list(vec![sym("define"), boolean(true), boolean(false)]);
    assert_eq!(env.simplify(&def), Err(EvalError::TypeMismatch));
    let def2 = list(vec![sym("define"), list(vec![sym("x")]), boolean(false)]);
    assert_eq!(env.simplify(&def2), Err(EvalError::TypeMismatch));
}

#[test]
fn define_permits_redefinition() {
    let mut env = Env::new();
    env.simplify(&list(vec![sym("define"), sym("x"), boolean(true)])).unwrap();
    env.simplify(&list(vec![sym("define"), sym("x"), boolean(false)])).unwrap();
    assert_eq!(env.simplify(&sym("x")), Ok(boolean(false)));
}

#[test]
fn define_stores_unevaluated_and_forces_on_use() {
    let mut env = Env::new();
    // `y` is bound to the expression `(car (quote (true)))`, not to its value.
    let body = list(vec![sym("car"), quoted(list(vec![boolean(true)]))]);
    env.simplify(&list(vec![sym("define"), sym("y"), body])).unwrap();
    assert_eq!(env.simplify(&sym("y")), Ok(boolean(true)));
}

#[test]
fn car_of_quoted_list() {
    let mut env = Env::new();
    let e = list(vec![sym("car"), quoted(list(vec![sym("1"), sym("2"), sym("3")]))]);
    assert_eq!(env.simplify(&e), Ok(sym("1")));
}

#[test]
fn car_of_empty_list_fails() {
    let mut env = Env::new();
    let e = list(vec![sym("car"), quoted(list(vec![]))]);
    assert_eq!(env.simplify(&e), Err(EvalError::EmptyListAccess));
}

#[test]
fn car_of_atom_fails() {
    let mut env = Env::new();
    let e = list(vec![sym("car"), boolean(true)]);
    assert_eq!(env.simplify(&e), Err(EvalError::TypeMismatch));
}

#[test]
fn cdr_of_quoted_list() {
    let mut env = Env::new();
    let e = list(vec![sym("cdr"), quoted(list(vec![sym("1"), sym("2"), sym("3")]))]);
    assert_eq!(env.simplify(&e), Ok(list(vec![sym("2"), sym("3")])));
}

#[test]
fn cdr_of_single_element_list_is_empty() {
    let mut env = Env::new();
    let e = list(vec![sym("cdr"), quoted(list(vec![sym("1")]))]);
    assert_eq!(env.simplify(&e), Ok(list(vec![])));
}

#[test]
fn cdr_of_atom_fails() {
    let mut env = Env::new();
    let e = list(vec![sym("cdr"), quoted(sym("a"))]);
    assert_eq!(env.simplify(&e), Err(EvalError::TypeMismatch));
}

#[test]
fn car_cdr_compose() {
    let mut env = Env::new();
    let inner = list(vec![sym("cdr"), quoted(list(vec![sym("1"), sym("2"), sym("3")]))]);
    let e = list(vec![sym("car"), inner]);
    assert_eq!(env.simplify(&e), Ok(sym("2")));
}

#[test]
fn and_of_no_arguments_is_true() {
    let mut env = Env::new();
    assert_eq!(env.simplify(&list(vec![sym("and")])), Ok(boolean(true)));
}

#[test]
fn or_of_no_arguments_is_false() {
    let mut env = Env::new();
    assert_eq!(env.simplify(&list(vec![sym("or")])), Ok(boolean(false)));
}

#[test]
fn and_folds_all_arguments() {
    let mut env = Env::new();
    let t = list(vec![sym("and"), boolean(true), boolean(true)]);
    assert_eq!(env.simplify(&t), Ok(boolean(true)));
    let f = list(vec![sym("and"), boolean(true), boolean(false)]);
    assert_eq!(env.simplify(&f), Ok(boolean(false)));
}

#[test]
fn or_folds_all_arguments() {
    let mut env = Env::new();
    let t = list(vec![sym("or"), boolean(false), boolean(true)]);
    assert_eq!(env.simplify(&t), Ok(boolean(true)));
    let f = list(vec![sym("or"), boolean(false), boolean(false)]);
    assert_eq!(env.simplify(&f), Ok(boolean(false)));
}

#[test]
fn and_does_not_short_circuit() {
    let mut env = Env::new();
    // Even though `false` already decides the result, the unbound symbol
    // after it is still evaluated and its failure wins.
    let e = list(vec![sym("and"), boolean(false), sym("nosuch")]);
    assert_eq!(env.simplify(&e), Err(EvalError::UnboundSymbol));
}

#[test]
fn not_negates() {
    let mut env = Env::new();
    assert_eq!(env.simplify(&list(vec![sym("not"), boolean(true)])), Ok(boolean(false)));
    assert_eq!(env.simplify(&list(vec![sym("not"), boolean(false)])), Ok(boolean(true)));
}

#[test]
fn not_of_list_value_fails() {
    let mut env = Env::new();
    let e = list(vec![sym("not"), quoted(list(vec![sym("1"), sym("2")]))]);
    assert_eq!(env.simplify(&e), Err(EvalError::TypeMismatch));
}

#[test]
fn not_wrong_arity_fails() {
    let mut env = Env::new();
    let e = list(vec![sym("not"), boolean(true), boolean(false)]);
    assert_eq!(env.simplify(&e), Err(EvalError::ArityMismatch));
}

#[test]
fn boolean_operator_rejects_non_boolean() {
    let mut env = Env::new();
    let e = list(vec![sym("and"), quoted(list(vec![sym("1")]))]);
    assert_eq!(env.simplify(&e), Err(EvalError::TypeMismatch));
}

#[test]
fn lambda_scalar_and_list_parameters_agree() {
    let mut env = Env::new();
    let scalar = list(vec![sym("lambda"), sym("x"), sym("x")]);
    let listed = list(vec![sym("lambda"), list(vec![sym("x")]), sym("x")]);
    let a = env.simplify(&scalar).unwrap();
    let b = env.simplify(&listed).unwrap();
    assert_eq!(a, b);
    match a {
        Expr::Atom(Atom::Lambda(def)) => {
            assert_eq!(def.params, vec![sym("x")]);
            assert_eq!(*def.body, sym("x"));
        },
        other => panic!("expected a lambda value, got {:?}", other),
    }
}

#[test]
fn lambda_wrong_arity_fails() {
    let mut env = Env::new();
    let e = list(vec![sym("lambda"), sym("x")]);
    assert_eq!(env.simplify(&e), Err(EvalError::ArityMismatch));
}

#[test]
fn resimplifying_reduced_expressions_is_identity() {
    let mut env = Env::new();
    let once = env.simplify(&list(vec![sym("lambda"), sym("x"), sym("x")])).unwrap();
    let twice = env.simplify(&once).unwrap();
    assert_eq!(once, twice);
    let b = env.simplify(&boolean(true)).unwrap();
    assert_eq!(env.simplify(&b), Ok(boolean(true)));
    let empty = env.simplify(&list(vec![])).unwrap();
    assert_eq!(env.simplify(&empty), Ok(list(vec![])));
}

#[test]
fn unbound_symbol_fails() {
    let mut env = Env::new();
    assert_eq!(env.simplify(&sym("nosuch")), Err(EvalError::UnboundSymbol));
}

#[test]
fn unknown_operator_fails() {
    let mut env = Env::new();
    let e = list(vec![sym("frobnicate"), boolean(true)]);
    assert_eq!(env.simplify(&e), Err(EvalError::UnknownOperator));
    let headless = list(vec![boolean(true), boolean(false)]);
    assert_eq!(env.simplify(&headless), Err(EvalError::UnknownOperator));
}

#[test]
fn self_referential_binding_hits_recursion_limit() {
    let mut env = Env::new();
    env.simplify(&list(vec![sym("define"), sym("x"), sym("x")])).unwrap();
    assert_eq!(env.simplify(&sym("x")), Err(EvalError::RecursionLimit));
}

#[test]
fn chained_bindings_are_forced_transparently() {
    let mut env = Env::new();
    env.simplify(&list(vec![sym("define"), sym("a"), boolean(true)])).unwrap();
    env.simplify(&list(vec![sym("define"), sym("b"), sym("a")])).unwrap();
    env.simplify(&list(vec![sym("define"), sym("c"), sym("b")])).unwrap();
    assert_eq!(env.simplify(&sym("c")), Ok(boolean(true)));
}

#[test]
fn define_inside_operator_argument_mutates_environment() {
    let mut env = Env::new();
    // The define runs (and sticks) even though its result then fails the
    // boolean check of `and`.
    let e = list(vec![sym("and"), list(vec![sym("define"), sym("t"), boolean(true)])]);
    assert_eq!(env.simplify(&e), Err(EvalError::TypeMismatch));
    assert_eq!(env.simplify(&sym("t")), Ok(boolean(true)));
}

#[test]
fn primitives_called_directly() {
    let mut env = Env::new();
    assert_eq!(env.quote(&vec![sym("a")]), Ok(sym("a")));
    assert_eq!(env.quote(&vec![]), Err(EvalError::ArityMismatch));
    assert_eq!(env.define(&vec![sym("x"), boolean(true)]), Ok(sym("x")));
    assert_eq!(env.car(&vec![quoted(list(vec![sym("1"), sym("2")]))]), Ok(sym("1")));
    assert_eq!(env.cdr(&vec![quoted(list(vec![sym("1"), sym("2")]))]), Ok(list(vec![sym("2")])));
    assert_eq!(env.car(&vec![]), Err(EvalError::ArityMismatch));
    assert_eq!(env.cdr(&vec![sym("x"), sym("y")]), Err(EvalError::ArityMismatch));
    let lam = env.lambda(&vec![sym("p"), sym("p")]).unwrap();
    match lam {
        Expr::Atom(Atom::Lambda(def)) => assert_eq!(def.params, vec![sym("p")]),
        other => panic!("expected a lambda value, got {:?}", other),
    }
}

#[test]
fn logic_ops_called_directly() {
    let mut env = Env::new();
    assert_eq!(env.and(&vec![]), Ok(boolean(true)));
    assert_eq!(env.or(&vec![]), Ok(boolean(false)));
    assert_eq!(env.and(&vec![boolean(true), boolean(false)]), Ok(boolean(false)));
    assert_eq!(env.or(&vec![boolean(true), boolean(false)]), Ok(boolean(true)));
    assert_eq!(env.not(&vec![boolean(true)]), Ok(boolean(false)));
    assert_eq!(env.not(&vec![]), Err(EvalError::ArityMismatch));
}

#[test]
fn lookup_and_add_var_roundtrip() {
    let mut env = Env::new();
    assert_eq!(env.lookup(&"k".to_string()), Err(EvalError::UnboundSymbol));
    env.add_var("k".to_string(), boolean(false));
    assert_eq!(env.lookup(&"k".to_string()), Ok(boolean(false)));
    env.add_var("k".to_string(), boolean(true));
    assert_eq!(env.lookup(&"k".to_string()), Ok(boolean(true)));
}

#[test]
fn helper_accessors() {
    assert_eq!(try_get_bool(&boolean(true)), Ok(true));
    assert_eq!(try_get_bool(&sym("x")), Err(EvalError::TypeMismatch));
    assert_eq!(try_get_bool(&list(vec![])), Err(EvalError::TypeMismatch));
    assert_eq!(car_exp(&list(vec![sym("a"), sym("b")])), Ok(sym("a")));
    assert_eq!(car_exp(&list(vec![])), Err(EvalError::EmptyListAccess));
    assert_eq!(car_exp(&boolean(true)), Err(EvalError::TypeMismatch));
    assert_eq!(cdr_exp(&list(vec![sym("a"), sym("b")])), Ok(list(vec![sym("b")])));
    assert_eq!(cdr_exp(&list(vec![])), Ok(list(vec![])));
    assert_eq!(cdr_exp(&sym("a")), Err(EvalError::TypeMismatch));
    assert_eq!(try_get_symbol_string(&sym("name")), Ok("name".to_string()));
    assert_eq!(try_get_symbol_string(&boolean(true)), Err(EvalError::TypeMismatch));
    assert_eq!(try_get_symbol_string(&list(vec![])), Err(EvalError::TypeMismatch));
}
