//! A minimal S-expression evaluator.
//!
//! Expressions are trees of atoms (symbols, booleans, lambdas) and lists.
//! An [`env::Env`] maps symbol names to unevaluated expressions; its
//! `simplify` method reduces an expression to normal form, dispatching on
//! the head symbol of a list to a built-in special form
//! ([`built_in::EnvPrimitives`]) or a boolean operator
//! ([`boolean::LogicOps`]).

pub mod boolean;
pub mod built_in;
pub mod env;
pub mod semantics;
pub mod syntax;
