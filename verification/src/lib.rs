//! A type checker for a polymorphic lambda calculus in the style of System F:
//! terms with integer literals, variables, application, lambda-abstraction,
//! type-abstraction and type-application, together with the concrete-syntax
//! parser that produces such terms and a simply-typed fragment of the calculus.

pub mod ast;
pub mod grammar;
pub mod stlc;
pub mod token;
pub mod typechecker;
