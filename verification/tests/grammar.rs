//! Tests of the lexer and the parser for the concrete syntax, and of
//! inference over parsed input.

use system_f::ast::{Kind, Term, Type};
use system_f::grammar::{new_builder, TermParser};
use system_f::token::{ParseError, Token};
use system_f::typechecker::infer;

fn parse(input: &str) -> Result<Term, ParseError> {
    TermParser::new().parse(input)
}

#[test]
fn lexes_every_token_shape() {
    let builder = new_builder();
    assert_eq!(
        builder.tokenize("( ) * -> . : Int [ ] Λ λ ∀ 42 X x"),
        Ok(vec![
            Token::LParen,
            Token::RParen,
            Token::Star,
            Token::Arrow,
            Token::Dot,
            Token::Colon,
            Token::IntKeyword,
            Token::LBracket,
            Token::RBracket,
            Token::BigLambda,
            Token::SmallLambda,
            Token::ForallSign,
            Token::Number(42),
            Token::TypeVariable('X'),
            Token::Identifier('x'),
        ])
    );
}

#[test]
fn keyword_wins_by_longest_match() {
    let builder = new_builder();
    assert_eq!(
        builder.tokenize("IntX In"),
        Ok(vec![
            Token::IntKeyword,
            Token::TypeVariable('X'),
            Token::TypeVariable('I'),
            Token::Identifier('n'),
        ])
    );
}

#[test]
fn lexes_nothing_from_empty_input() {
    assert_eq!(new_builder().tokenize(""), Ok(vec![]));
}

#[test]
fn rejects_a_byte_that_starts_no_token() {
    assert_eq!(
        new_builder().tokenize("x ? y"),
        Err(ParseError::InvalidToken { offset: 2 })
    );
    assert_eq!(
        parse("x - y"),
        Err(ParseError::InvalidToken { offset: 2 })
    );
}

#[test]
fn parses_an_integer_literal() {
    assert_eq!(parse("42"), Ok(Term::Int(42)));
    assert_eq!(parse("2147483647"), Ok(Term::Int(2147483647)));
}

#[test]
fn rejects_a_literal_beyond_i32() {
    assert_eq!(
        parse("2147483648"),
        Err(ParseError::NumberTooLarge { offset: 0 })
    );
    assert_eq!(
        parse("x 99999999999999999999"),
        Err(ParseError::NumberTooLarge { offset: 2 })
    );
}

#[test]
fn parses_a_variable() {
    assert_eq!(parse("x"), Ok(Term::Var("x".to_string())));
    assert_eq!(parse("  x  "), Ok(Term::Var("x".to_string())));
}

#[test]
fn application_associates_to_the_left() {
    assert_eq!(
        parse("x y z"),
        Ok(Term::App(
            Box::new(Term::App(
                Box::new(Term::Var("x".to_string())),
                Box::new(Term::Var("y".to_string())),
            )),
            Box::new(Term::Var("z".to_string())),
        ))
    );
}

#[test]
fn parentheses_group_terms() {
    assert_eq!(parse("(x)"), Ok(Term::Var("x".to_string())));
    assert_eq!(
        parse("x (y z)"),
        Ok(Term::App(
            Box::new(Term::Var("x".to_string())),
            Box::new(Term::App(
                Box::new(Term::Var("y".to_string())),
                Box::new(Term::Var("z".to_string())),
            )),
        ))
    );
}

#[test]
fn parses_a_lambda_with_its_annotation() {
    assert_eq!(
        parse("λx: Int. x"),
        Ok(Term::Abs {
            param_name: "x".to_string(),
            param_type: Type::Int,
            body: Box::new(Term::Var("x".to_string())),
        })
    );
}

#[test]
fn arrow_types_associate_to_the_right() {
    assert_eq!(
        parse("λf: Int -> Int -> Int. f"),
        Ok(Term::Abs {
            param_name: "f".to_string(),
            param_type: Type::Arrow(
                Box::new(Type::Int),
                Box::new(Type::Arrow(Box::new(Type::Int), Box::new(Type::Int))),
            ),
            body: Box::new(Term::Var("f".to_string())),
        })
    );
}

#[test]
fn parses_a_forall_type_annotation() {
    assert_eq!(
        parse("λi: ∀X: * . X -> X. i"),
        Ok(Term::Abs {
            param_name: "i".to_string(),
            param_type: Type::Forall {
                type_var: "X".to_string(),
                kind: Kind::Star,
                param_type: Box::new(Type::TypeVar("X".to_string())),
                return_type: Box::new(Type::Arrow(
                    Box::new(Type::TypeVar("X".to_string())),
                    Box::new(Type::TypeVar("X".to_string())),
                )),
            },
            body: Box::new(Term::Var("i".to_string())),
        })
    );
}

#[test]
fn parses_a_type_application() {
    assert_eq!(
        parse("x [Int]"),
        Ok(Term::UniversalApp(
            Box::new(Term::Var("x".to_string())),
            Type::Int,
        ))
    );
}

#[test]
fn parses_a_type_abstraction() {
    assert_eq!(
        parse("ΛX: * . λx: X. x"),
        Ok(Term::UniversalAbs {
            type_var: "X".to_string(),
            kind: Kind::Star,
            body: Box::new(Term::Abs {
                param_name: "x".to_string(),
                param_type: Type::TypeVar("X".to_string()),
                body: Box::new(Term::Var("x".to_string())),
            }),
        })
    );
}

#[test]
fn type_abstraction_body_must_be_a_lambda() {
    // tokens: Λ X : * . 5 — the term after the dot must open with a lambda
    assert_eq!(
        parse("ΛX: * . 5"),
        Err(ParseError::UnexpectedToken { index: 5 })
    );
}

#[test]
fn rejects_empty_input() {
    assert_eq!(parse(""), Err(ParseError::UnexpectedEnd));
    assert_eq!(parse("   "), Err(ParseError::UnexpectedEnd));
}

#[test]
fn rejects_trailing_tokens() {
    assert_eq!(parse("x y )"), Err(ParseError::ExtraToken { index: 2 }));
}

#[test]
fn rejects_an_unclosed_parenthesis() {
    assert_eq!(parse("(x"), Err(ParseError::UnexpectedEnd));
}

#[test]
fn rejects_a_truncated_lambda() {
    assert_eq!(parse("λx: Int."), Err(ParseError::UnexpectedEnd));
    assert_eq!(parse("λx"), Err(ParseError::UnexpectedEnd));
}

#[test]
fn rejects_a_keyword_in_term_position() {
    assert_eq!(parse("Int"), Err(ParseError::UnexpectedToken { index: 0 }));
}

#[test]
fn system_f_round_trip_through_parser_and_inference() {
    let term = parse("(ΛX: * . λx: X. x) [Int]").expect("the input is well-formed");
    assert_eq!(
        infer(&term),
        Ok(Type::Arrow(Box::new(Type::Int), Box::new(Type::Int)))
    );
}

#[test]
fn applying_the_parsed_identity_to_a_literal() {
    let term = parse("(λx: Int. x) 5").expect("the input is well-formed");
    assert_eq!(infer(&term), Ok(Type::Int));
}

#[test]
fn type_applications_chain_to_the_left() {
    assert_eq!(
        parse("x [Int] [Int]"),
        Ok(Term::UniversalApp(
            Box::new(Term::UniversalApp(
                Box::new(Term::Var("x".to_string())),
                Type::Int,
            )),
            Type::Int,
        ))
    );
}

#[test]
fn term_and_type_applications_interleave() {
    assert_eq!(
        parse("x [Int] y"),
        Ok(Term::App(
            Box::new(Term::UniversalApp(
                Box::new(Term::Var("x".to_string())),
                Type::Int,
            )),
            Box::new(Term::Var("y".to_string())),
        ))
    );
}

#[test]
fn a_bracketed_type_argument_may_quantify() {
    assert_eq!(
        parse("x [∀X: * . X]"),
        Ok(Term::UniversalApp(
            Box::new(Term::Var("x".to_string())),
            Type::Forall {
                type_var: "X".to_string(),
                kind: Kind::Star,
                param_type: Box::new(Type::TypeVar("X".to_string())),
                return_type: Box::new(Type::TypeVar("X".to_string())),
            },
        ))
    );
}

#[test]
fn an_unclosed_type_application_is_rejected() {
    assert_eq!(parse("x [Int"), Err(ParseError::UnexpectedEnd));
}
