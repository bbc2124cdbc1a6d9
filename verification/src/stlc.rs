//! The simply-typed fragment of the calculus: the same terms and types with
//! no quantifiers, so no type variables, type abstraction or type
//! application. It is pure data; inference for the full calculus subsumes
//! this fragment.

use vstd::prelude::*;

verus! {

/// A type of the simply-typed fragment.
#[derive(Debug, PartialEq)]
pub enum Type {
    /// The base type of integers.
    Int,
    /// A function type: parameter type and result type.
    Arrow(Box<Type>, Box<Type>),
}

/// A term of the simply-typed fragment.
#[derive(Debug)]
pub enum Term {
    /// An integer literal.
    Int(i32),
    /// A variable reference, identified by name.
    Var(String),
    /// Application of the first term to the second.
    App(Box<Term>, Box<Term>),
    /// Term abstraction: a lambda binding `param_name` at `param_type`.
    Abs { param_name: String, param_type: Type, body: Box<Term> },
}

} // verus!
