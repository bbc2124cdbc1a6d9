//! The abstract syntax of the polymorphic calculus: kinds, types and terms,
//! together with their mathematical models. A model mirrors the tree shape of
//! the executable value but represents every name as a sequence of characters,
//! so that contracts can speak of structural equality directly.

use vstd::prelude::*;

verus! {

/// The kind of proper types. The calculus has the single kind star, so a kind
/// annotation carries no information beyond its presence.
#[derive(Debug, Clone, Copy, PartialEq, Eq, Structural)]
pub enum Kind {
    Star,
}

/// A type expression. Two types are compatible exactly when their trees are
/// syntactically identical, bound-variable names included; there is no
/// alpha-equivalence, unification or subtyping anywhere in the calculus.
#[derive(Debug, PartialEq)]
pub enum Type {
    /// The base type of integers.
    Int,
    /// A function type: parameter type and result type.
    Arrow(Box<Type>, Box<Type>),
    /// A reference to a type variable, identified by name.
    TypeVar(String),
    /// Universal quantification: binds `type_var` at `kind` over
    /// `return_type`. The `param_type` field is a parsing artifact and always
    /// holds `TypeVar(type_var)`.
    Forall { type_var: String, kind: Kind, param_type: Box<Type>, return_type: Box<Type> },
}

/// A term of the calculus. Every node exclusively owns its children.
#[derive(Debug, PartialEq)]
pub enum Term {
    /// An integer literal.
    Int(i32),
    /// A variable reference, identified by name.
    Var(String),
    /// Application of the first term to the second.
    App(Box<Term>, Box<Term>),
    /// Term abstraction: a lambda binding `param_name` at `param_type`.
    Abs { param_name: String, param_type: Type, body: Box<Term> },
    /// Type abstraction: binds the type variable `type_var` at `kind`.
    UniversalAbs { type_var: String, kind: Kind, body: Box<Term> },
    /// Type application: instantiates the first operand at the given type.
    UniversalApp(Box<Term>, Type),
}

/// The model of a type: the same tree with names as character sequences.
pub enum SpecType {
    Int,
    Arrow(Box<SpecType>, Box<SpecType>),
    TypeVar(Seq<char>),
    Forall { type_var: Seq<char>, kind: Kind, param_type: Box<SpecType>, return_type: Box<SpecType> },
}

/// The model of a term: the same tree with names as character sequences.
pub enum SpecTerm {
    Int(i32),
    Var(Seq<char>),
    App(Box<SpecTerm>, Box<SpecTerm>),
    Abs { param_name: Seq<char>, param_type: SpecType, body: Box<SpecTerm> },
    UniversalAbs { type_var: Seq<char>, kind: Kind, body: Box<SpecTerm> },
    UniversalApp(Box<SpecTerm>, SpecType),
}

pub open spec fn view_type(t: Type) -> SpecType
    decreases t,
{
    match t {
        Type::Int => SpecType::Int,
        Type::Arrow(p, r) => SpecType::Arrow(
            Box::new(view_type(*p)),
            Box::new(view_type(*r)),
        ),
        Type::TypeVar(x) => SpecType::TypeVar(x@),
        Type::Forall { type_var, kind, param_type, return_type } => (SpecType::Forall {
            type_var: type_var@,
            kind,
            param_type: Box::new(view_type(*param_type)),
            return_type: Box::new(view_type(*return_type)),
        }),
    }
}

pub open spec fn view_term(t: Term) -> SpecTerm
    decreases t,
{
    match t {
        Term::Int(i) => SpecTerm::Int(i),
        Term::Var(x) => SpecTerm::Var(x@),
        Term::App(f, arg) => SpecTerm::App(
            Box::new(view_term(*f)),
            Box::new(view_term(*arg)),
        ),
        Term::Abs { param_name, param_type, body } => (SpecTerm::Abs {
            param_name: param_name@,
            param_type: view_type(param_type),
            body: Box::new(view_term(*body)),
        }),
        Term::UniversalAbs { type_var, kind, body } => (SpecTerm::UniversalAbs {
            type_var: type_var@,
            kind,
            body: Box::new(view_term(*body)),
        }),
        Term::UniversalApp(f, ty) => SpecTerm::UniversalApp(
            Box::new(view_term(*f)),
            view_type(ty),
        ),
    }
}

impl View for Type {
    type V = SpecType;

    open spec fn view(&self) -> SpecType {
        view_type(*self)
    }
}

impl View for Term {
    type V = SpecTerm;

    open spec fn view(&self) -> SpecTerm {
        view_term(*self)
    }
}

/// Structural deep copy of a type; the copy is equal to the original.
pub fn clone_type(t: &Type) -> (r: Type)
    ensures
        r == *t,
    decreases *t,
{
    match t {
        Type::Int => Type::Int,
        Type::Arrow(p, res) => Type::Arrow(
            Box::new(clone_type(&**p)),
            Box::new(clone_type(&**res)),
        ),
        Type::TypeVar(x) => Type::TypeVar(x.clone()),
        Type::Forall { type_var, kind, param_type, return_type } => Type::Forall {
            type_var: type_var.clone(),
            kind: *kind,
            param_type: Box::new(clone_type(&**param_type)),
            return_type: Box::new(clone_type(&**return_type)),
        },
    }
}

/// Structural deep copy of a term; the copy is equal to the original.
pub fn clone_term(t: &Term) -> (r: Term)
    ensures
        r == *t,
    decreases *t,
{
    match t {
        Term::Int(i) => Term::Int(*i),
        Term::Var(x) => Term::Var(x.clone()),
        Term::App(f, arg) => Term::App(
            Box::new(clone_term(&**f)),
            Box::new(clone_term(&**arg)),
        ),
        Term::Abs { param_name, param_type, body } => Term::Abs {
            param_name: param_name.clone(),
            param_type: clone_type(param_type),
            body: Box::new(clone_term(&**body)),
        },
        Term::UniversalAbs { type_var, kind, body } => Term::UniversalAbs {
            type_var: type_var.clone(),
            kind: *kind,
            body: Box::new(clone_term(&**body)),
        },
        Term::UniversalApp(f, ty) => Term::UniversalApp(
            Box::new(clone_term(&**f)),
            clone_type(ty),
        ),
    }
}

/// Structural equality of types, decided executably: true exactly when the
/// models of the two trees coincide.
pub fn type_eq(a: &Type, b: &Type) -> (r: bool)
    ensures
        r == (a@ == b@),
    decreases *a,
{
    match (a, b) {
        (Type::Int, Type::Int) => true,
        (Type::Arrow(p1, r1), Type::Arrow(p2, r2)) => {
            type_eq(&**p1, &**p2) && type_eq(&**r1, &**r2)
        },
        (Type::TypeVar(x), Type::TypeVar(y)) => *x == *y,
        (
            Type::Forall { type_var: v1, kind: k1, param_type: p1, return_type: r1 },
            Type::Forall { type_var: v2, kind: k2, param_type: p2, return_type: r2 },
        ) => {
            *v1 == *v2 && *k1 == *k2 && type_eq(&**p1, &**p2) && type_eq(&**r1, &**r2)
        },
        _ => false,
    }
}

} // verus!
