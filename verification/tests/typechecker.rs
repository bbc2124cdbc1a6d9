//! Tests of the type inference engine: the typing rules, the error cases,
//! the typing context, and the behaviour of substitution at universal
//! applications.

use system_f::ast::{Kind, Term, Type};
use system_f::typechecker::{infer, TypecheckerError, TypingContext};

fn int_to_int() -> Type {
    Type::Arrow(Box::new(Type::Int), Box::new(Type::Int))
}

#[test]
fn infer_is_deterministic() {
    let term = Term::Abs {
        param_name: "x".to_string(),
        param_type: Type::Int,
        body: Box::new(Term::Var("x".to_string())),
    };
    let first = infer(&term);
    let second = infer(&term);
    assert_eq!(first, second);
    assert_eq!(first, Ok(int_to_int()));
}

#[test]
fn integer_literals_have_type_int() {
    assert_eq!(infer(&Term::Int(0)), Ok(Type::Int));
    assert_eq!(infer(&Term::Int(5)), Ok(Type::Int));
    assert_eq!(infer(&Term::Int(-42)), Ok(Type::Int));
    assert_eq!(infer(&Term::Int(i32::MAX)), Ok(Type::Int));
    assert_eq!(infer(&Term::Int(i32::MIN)), Ok(Type::Int));
}

#[test]
fn unbound_variable_is_undefined() {
    assert_eq!(
        infer(&Term::Var("x".to_string())),
        Err(TypecheckerError::UndefinedVariable("x".to_string()))
    );
}

#[test]
fn inner_binding_shadows_outer() {
    let term = Term::Abs {
        param_name: "x".to_string(),
        param_type: Type::Int,
        body: Box::new(Term::Abs {
            param_name: "x".to_string(),
            param_type: int_to_int(),
            body: Box::new(Term::Var("x".to_string())),
        }),
    };
    assert_eq!(
        infer(&term),
        Ok(Type::Arrow(Box::new(Type::Int), Box::new(Type::Arrow(
            Box::new(int_to_int()),
            Box::new(int_to_int()),
        ))))
    );
}

#[test]
fn application_argument_must_match_parameter_type() {
    let identity_int = Term::Abs {
        param_name: "x".to_string(),
        param_type: Type::Int,
        body: Box::new(Term::Var("x".to_string())),
    };
    let identity_int_again = Term::Abs {
        param_name: "y".to_string(),
        param_type: Type::Int,
        body: Box::new(Term::Var("y".to_string())),
    };
    let term = Term::App(
        Box::new(identity_int),
        Box::new(system_f::ast::clone_term(&identity_int_again)),
    );
    assert_eq!(
        infer(&term),
        Err(TypecheckerError::TypeMismatch {
            term: identity_int_again,
            expected: Type::Int,
            got: int_to_int(),
        })
    );
}

#[test]
fn application_function_must_be_a_literal_abstraction() {
    // the deliberately narrow rule: the function position must hold an
    // abstraction node syntactically, whatever its type would have been
    let term = Term::App(
        Box::new(Term::Var("f".to_string())),
        Box::new(Term::Int(1)),
    );
    assert_eq!(
        infer(&term),
        Err(TypecheckerError::UnexpectedTerm {
            expected: "abstraction".to_string(),
            got: Term::Var("f".to_string()),
        })
    );
}

#[test]
fn universal_application_needs_a_type_abstraction() {
    let term = Term::UniversalApp(
        Box::new(Term::Abs {
            param_name: "x".to_string(),
            param_type: Type::Int,
            body: Box::new(Term::Var("x".to_string())),
        }),
        Type::Int,
    );
    assert_eq!(
        infer(&term),
        Err(TypecheckerError::UnexpectedTerm {
            expected: "type abstraction".to_string(),
            got: Term::Abs {
                param_name: "x".to_string(),
                param_type: Type::Int,
                body: Box::new(Term::Var("x".to_string())),
            },
        })
    );
}

#[test]
fn universal_application_substitutes_the_bound_variable() {
    // (Lambda X: *. lambda x: X. x) [Int] built directly as a term
    let term = Term::UniversalApp(
        Box::new(Term::UniversalAbs {
            type_var: "X".to_string(),
            kind: Kind::Star,
            body: Box::new(Term::Abs {
                param_name: "x".to_string(),
                param_type: Type::TypeVar("X".to_string()),
                body: Box::new(Term::Var("x".to_string())),
            }),
        }),
        Type::Int,
    );
    assert_eq!(infer(&term), Ok(int_to_int()));
}

#[test]
fn substitution_captures_free_variables() {
    // Substitution neither guards against a shadowing binder nor renames
    // it: instantiating X at the type variable Y inside a forall that binds
    // Y captures the substituted variable.
    let term = Term::UniversalApp(
        Box::new(Term::UniversalAbs {
            type_var: "X".to_string(),
            kind: Kind::Star,
            body: Box::new(Term::UniversalAbs {
                type_var: "Y".to_string(),
                kind: Kind::Star,
                body: Box::new(Term::Abs {
                    param_name: "z".to_string(),
                    param_type: Type::TypeVar("X".to_string()),
                    body: Box::new(Term::Int(0)),
                }),
            }),
        }),
        Type::TypeVar("Y".to_string()),
    );
    assert_eq!(
        infer(&term),
        Ok(Type::Forall {
            type_var: "Y".to_string(),
            kind: Kind::Star,
            param_type: Box::new(Type::TypeVar("Y".to_string())),
            return_type: Box::new(Type::Arrow(
                Box::new(Type::TypeVar("Y".to_string())),
                Box::new(Type::Int),
            )),
        })
    );
}

#[test]
fn context_extension_keeps_prior_bindings() {
    let ctx = TypingContext::new();
    let extended = ctx
        .assign("x".to_string(), Type::Int)
        .assign("y".to_string(), Type::Int);
    assert_eq!(extended.get(&"x".to_string()), Some(Type::Int));
    assert_eq!(extended.get(&"y".to_string()), Some(Type::Int));
    assert_eq!(extended.get(&"z".to_string()), None);
}

#[test]
fn context_extension_does_not_alter_the_original() {
    let ctx = TypingContext::new();
    let with_x = ctx.assign("x".to_string(), Type::Int);
    let with_shadow = with_x.assign("x".to_string(), int_to_int());
    assert_eq!(ctx.get(&"x".to_string()), None);
    assert_eq!(with_x.get(&"x".to_string()), Some(Type::Int));
    assert_eq!(with_shadow.get(&"x".to_string()), Some(int_to_int()));
}

#[test]
fn lambda_body_is_typed_under_the_extended_context() {
    // lambda f: Int -> Int. lambda a: Int. f a is rejected: the function
    // position of the inner application is a variable, not an abstraction
    let term = Term::Abs {
        param_name: "f".to_string(),
        param_type: int_to_int(),
        body: Box::new(Term::Abs {
            param_name: "a".to_string(),
            param_type: Type::Int,
            body: Box::new(Term::App(
                Box::new(Term::Var("f".to_string())),
                Box::new(Term::Var("a".to_string())),
            )),
        }),
    };
    assert_eq!(
        infer(&term),
        Err(TypecheckerError::UnexpectedTerm {
            expected: "abstraction".to_string(),
            got: Term::Var("f".to_string()),
        })
    );
}

#[test]
fn universal_abstraction_wraps_the_body_type() {
    let term = Term::UniversalAbs {
        type_var: "X".to_string(),
        kind: Kind::Star,
        body: Box::new(Term::Abs {
            param_name: "x".to_string(),
            param_type: Type::TypeVar("X".to_string()),
            body: Box::new(Term::Var("x".to_string())),
        }),
    };
    assert_eq!(
        infer(&term),
        Ok(Type::Forall {
            type_var: "X".to_string(),
            kind: Kind::Star,
            param_type: Box::new(Type::TypeVar("X".to_string())),
            return_type: Box::new(Type::Arrow(
                Box::new(Type::TypeVar("X".to_string())),
                Box::new(Type::TypeVar("X".to_string())),
            )),
        })
    );
}
