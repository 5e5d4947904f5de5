//! The expression tree: atoms, lists and lambda values, together with the
//! mathematical model (`ExprV` and friends) that every contract is stated
//! over.

use vstd::prelude::*;

verus! {

/// The kinds of failure an evaluation can produce.
#[derive(Clone, Copy, PartialEq, Eq, Debug)]
pub enum EvalError {
    /// A special form or operator was given the wrong number of arguments.
    ArityMismatch,
    /// A symbol was looked up that the environment does not bind.
    UnboundSymbol,
    /// An operand had the wrong variant (non-boolean to a logic operator,
    /// an atom to `car`/`cdr`, a non-symbol where a bare name is required).
    TypeMismatch,
    /// `car` was applied to the empty list.
    EmptyListAccess,
    /// A list head that is not a recognized special form or operator.
    UnknownOperator,
    /// The evaluator's bound on chained symbol forcing was exhausted; this
    /// rules out divergence on self-referential bindings.
    RecursionLimit,
}

/// A function value: parameter expressions (each expected to reduce to a
/// symbol when the lambda is applied) and one body expression.
#[derive(Debug, PartialEq, Eq)]
pub struct LambdaDef {
    pub params: Vec<Expr>,
    pub body: Box<Expr>,
}

/// An indivisible value: a symbol, a boolean, or a lambda.
#[derive(Debug, PartialEq, Eq)]
pub enum Atom {
    Symbol(String),
    Boolean(bool),
    Lambda(LambdaDef),
}

/// The unit the evaluator operates on: an atom or an ordered list of
/// sub-expressions.
#[derive(Debug, PartialEq, Eq)]
pub enum Expr {
    Atom(Atom),
    List(Vec<Expr>),
}

/// Model of a [`LambdaDef`].
#[verifier::ext_equal]
pub struct LambdaDefV {
    pub params: Seq<ExprV>,
    pub body: Box<ExprV>,
}

/// Model of an [`Atom`].
#[verifier::ext_equal]
pub enum AtomV {
    Symbol(Seq<char>),
    Boolean(bool),
    Lambda(LambdaDefV),
}

/// Model of an [`Expr`]: the same tree with sequences for lists and
/// character sequences for symbol names.
#[verifier::ext_equal]
pub enum ExprV {
    Atom(AtomV),
    List(Seq<ExprV>),
}

/// The model of an expression tree.
pub open spec fn expr_view(e: Expr) -> ExprV
    decreases e,
{
    match e {
        Expr::Atom(a) => ExprV::Atom(atom_view(a)),
        Expr::List(l) => ExprV::List(exprs_view(l@)),
    }
}

/// The model of an atom.
pub open spec fn atom_view(a: Atom) -> AtomV
    decreases a,
{
    match a {
        Atom::Symbol(s) => AtomV::Symbol(s@),
        Atom::Boolean(b) => AtomV::Boolean(b),
        Atom::Lambda(d) => AtomV::Lambda(lambda_view(d)),
    }
}

/// The model of a lambda value.
pub open spec fn lambda_view(d: LambdaDef) -> LambdaDefV
    decreases d,
{
    LambdaDefV { params: exprs_view(d.params@), body: Box::new(expr_view(*d.body)) }
}

/// The elementwise model of a sequence of expressions.
pub open spec fn exprs_view(s: Seq<Expr>) -> Seq<ExprV>
    decreases s,
{
    if s.len() == 0 {
        Seq::empty()
    } else {
        exprs_view(s.subrange(0, s.len() - 1)).push(expr_view(s[s.len() - 1]))
    }
}

/// `exprs_view` maps a sequence elementwise.
pub proof fn lemma_exprs_view(s: Seq<Expr>)
    ensures
        exprs_view(s).len() == s.len(),
        forall|i: int| 0 <= i < s.len() ==> exprs_view(s)[i] == expr_view(s[i]),
    decreases s.len(),
{
    if s.len() > 0 {
        lemma_exprs_view(s.subrange(0, s.len() - 1));
        assert forall|i: int| 0 <= i < s.len() implies exprs_view(s)[i] == expr_view(s[i]) by {
            if i < s.len() - 1 {
                assert(s.subrange(0, s.len() - 1)[i] == s[i]);
            }
        }
    }
}

impl View for Expr {
    type V = ExprV;

    open spec fn view(&self) -> ExprV {
        expr_view(*self)
    }
}

impl View for Atom {
    type V = AtomV;

    open spec fn view(&self) -> AtomV {
        atom_view(*self)
    }
}

impl View for LambdaDef {
    type V = LambdaDefV;

    open spec fn view(&self) -> LambdaDefV {
        lambda_view(*self)
    }
}

fn clone_expr(e: &Expr) -> (r: Expr)
    ensures
        r@ == e@,
    decreases e,
{
    match e {
        Expr::Atom(a) => Expr::Atom(clone_atom(a)),
        Expr::List(l) => Expr::List(clone_exprs(l)),
    }
}

fn clone_atom(a: &Atom) -> (r: Atom)
    ensures
        r@ == a@,
    decreases a,
{
    match a {
        Atom::Symbol(s) => Atom::Symbol(s.clone()),
        Atom::Boolean(b) => Atom::Boolean(*b),
        Atom::Lambda(d) => Atom::Lambda(clone_lambda(d)),
    }
}

fn clone_lambda(d: &LambdaDef) -> (r: LambdaDef)
    ensures
        r@ == d@,
    decreases d,
{
    LambdaDef { params: clone_exprs(&d.params), body: Box::new(clone_expr(&d.body)) }
}

pub(crate) fn clone_exprs(v: &Vec<Expr>) -> (r: Vec<Expr>)
    ensures
        r@.len() == v@.len(),
        forall|i: int| 0 <= i < v@.len() ==> expr_view(r@[i]) == expr_view(v@[i]),
        exprs_view(r@) == exprs_view(v@),
    decreases v@,
{
    let mut r: Vec<Expr> = Vec::new();
    let n = v.len();
    for i in 0..n
        invariant
            n == v@.len(),
            r@.len() == i,
            forall|j: int| 0 <= j < i ==> expr_view(r@[j]) == expr_view(v@[j]),
        decreases n - i,
    {
        r.push(clone_expr(&v[i]));
    }
    proof {
        lemma_exprs_view(r@);
        lemma_exprs_view(v@);
        assert(exprs_view(r@) =~= exprs_view(v@));
    }
    r
}

impl Clone for Expr {
    /// A structural deep copy: the clone has the same model as the original.
    fn clone(&self) -> (r: Self)
        ensures
            r@ == self@,
    {
        clone_expr(self)
    }
}

impl Clone for Atom {
    /// A structural deep copy: the clone has the same model as the original.
    fn clone(&self) -> (r: Self)
        ensures
            r@ == self@,
    {
        clone_atom(self)
    }
}

impl Clone for LambdaDef {
    /// A structural deep copy: the clone has the same model as the original.
    fn clone(&self) -> (r: Self)
        ensures
            r@ == self@,
    {
        clone_lambda(self)
    }
}

} // verus!
