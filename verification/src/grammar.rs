//! The parser for the concrete syntax of the calculus.
//!
//! The grammar, written with the nonterminal names that the parser follows:
//!
//! ```text
//! Term     ::= SmallLambda identifier ":" Type "." Term
//!            | BigLambda type_variable ":" Kind "." SmallLambda identifier ":" Type "." Term
//!            | Term1
//! Term1    ::= Term1 Terminal | Term1 "[" Type "]" | Terminal
//! Terminal ::= number | identifier | "(" Term ")"
//! Type     ::= ForallSign type_variable ":" Kind "." Type | Type2
//! Type2    ::= Type1 "->" Type2 | Type1
//! Type1    ::= "Int" | type_variable
//! Kind     ::= "*"
//! ```
//!
//! Application associates to the left, the arrow to the right; an identifier
//! is one small letter and a type variable one capital letter. Each
//! `spec_parse_*` function is one production, written over the token
//! sequence with a position; a success carries how many tokens beyond the
//! first the production occupied (`Term1`'s trailing applications, which may
//! be empty, carry a plain count instead). The executable parser returns
//! exactly what the spec functions say.

use vstd::prelude::*;
use vstd::string::StringSliceAdditionalSpecFns;

use crate::ast::{Kind, SpecTerm, SpecType, Term, Type};
use crate::token::{ParseError, Token, TokenMatcher};
use crate::token::spec_tokenize;

verus! {

/// How many tokens stand at or after `pos`: the measure every recursive
/// production descends on.
pub open spec fn remaining(toks: Seq<Token>, pos: int) -> int {
    if pos <= toks.len() {
        toks.len() - pos
    } else {
        0
    }
}

/// Whether a token can begin a `Terminal` production.
pub open spec fn starts_terminal(t: Token) -> bool {
    t is Number || t is Identifier || t is LParen
}

/// The one production for kinds: the star.
pub open spec fn spec_parse_kind(toks: Seq<Token>, pos: int) -> Result<(Kind, nat), ParseError> {
    if pos >= toks.len() {
        Err(ParseError::UnexpectedEnd)
    } else if toks[pos] is Star {
        Ok((Kind::Star, 0))
    } else {
        Err(ParseError::UnexpectedToken { index: pos as usize })
    }
}

/// A type atom: the keyword `Int` or a type variable.
pub open spec fn spec_parse_type1(toks: Seq<Token>, pos: int) -> Result<
    (SpecType, nat),
    ParseError,
> {
    if pos >= toks.len() {
        Err(ParseError::UnexpectedEnd)
    } else {
        match toks[pos] {
            Token::IntKeyword => Ok((SpecType::Int, 0)),
            Token::TypeVariable(c) => Ok((SpecType::TypeVar(seq![c]), 0)),
            _ => Err(ParseError::UnexpectedToken { index: pos as usize }),
        }
    }
}

/// An arrow chain over type atoms; the arrow associates to the right.
pub open spec fn spec_parse_type2(toks: Seq<Token>, pos: int) -> Result<
    (SpecType, nat),
    ParseError,
>
    decreases remaining(toks, pos),
{
    match spec_parse_type1(toks, pos) {
        Ok((t1, e1)) => {
            let p = pos + 1 + e1;
            if p < toks.len() && toks[p] is Arrow {
                match spec_parse_type2(toks, p + 1) {
                    Ok((t2, e2)) => Ok(
                        (SpecType::Arrow(Box::new(t1), Box::new(t2)), (2 + e1 + e2) as nat),
                    ),
                    Err(e) => Err(e),
                }
            } else {
                Ok((t1, e1))
            }
        },
        Err(e) => Err(e),
    }
}

/// A type: a universal quantifier over a type, or an arrow chain. The
/// quantifier's parameter-type field always holds the bound variable itself.
pub open spec fn spec_parse_type(toks: Seq<Token>, pos: int) -> Result<(SpecType, nat), ParseError>
    decreases remaining(toks, pos),
{
    if pos < toks.len() && toks[pos] is ForallSign {
        if pos + 1 >= toks.len() {
            Err(ParseError::UnexpectedEnd)
        } else {
            match toks[pos + 1] {
                Token::TypeVariable(c) => {
                    if pos + 2 >= toks.len() {
                        Err(ParseError::UnexpectedEnd)
                    } else if !(toks[pos + 2] is Colon) {
                        Err(ParseError::UnexpectedToken { index: (pos + 2) as usize })
                    } else {
                        match spec_parse_kind(toks, pos + 3) {
                            Ok((k, ek)) => {
                                let p = pos + 4 + ek;
                                if p >= toks.len() {
                                    Err(ParseError::UnexpectedEnd)
                                } else if !(toks[p] is Dot) {
                                    Err(ParseError::UnexpectedToken { index: p as usize })
                                } else {
                                    match spec_parse_type(toks, p + 1) {
                                        Ok((body, eb)) => Ok((
                                            SpecType::Forall {
                                                type_var: seq![c],
                                                kind: k,
                                                param_type: Box::new(SpecType::TypeVar(seq![c])),
                                                return_type: Box::new(body),
                                            },
                                            (5 + ek + eb) as nat,
                                        )),
                                        Err(e) => Err(e),
                                    }
                                }
                            },
                            Err(e) => Err(e),
                        }
                    }
                },
                _ => Err(ParseError::UnexpectedToken { index: (pos + 1) as usize }),
            }
        }
    } else {
        spec_parse_type2(toks, pos)
    }
}

/// A terminal of the term grammar: an integer literal, a variable, or a
/// parenthesised term.
pub open spec fn spec_parse_terminal(toks: Seq<Token>, pos: int) -> Result<
    (SpecTerm, nat),
    ParseError,
>
    decreases remaining(toks, pos), 0int,
{
    if pos >= toks.len() {
        Err(ParseError::UnexpectedEnd)
    } else {
        match toks[pos] {
            Token::Number(v) => Ok((SpecTerm::Int(v), 0)),
            Token::Identifier(c) => Ok((SpecTerm::Var(seq![c]), 0)),
            Token::LParen => match spec_parse_term(toks, pos + 1) {
                Ok((t, e)) => {
                    let p = pos + 2 + e;
                    if p < toks.len() && toks[p] is RParen {
                        Ok((t, (2 + e) as nat))
                    } else if p >= toks.len() {
                        Err(ParseError::UnexpectedEnd)
                    } else {
                        Err(ParseError::UnexpectedToken { index: p as usize })
                    }
                },
                Err(e) => Err(e),
            },
            _ => Err(ParseError::UnexpectedToken { index: pos as usize }),
        }
    }
}

/// The trailing applications of a `Term1`: as long as a terminal or a
/// bracketed type argument follows, fold it onto `acc` from the left. A
/// success carries how many tokens the trail occupied, which may be zero.
pub open spec fn spec_parse_term1_rest(toks: Seq<Token>, pos: int, acc: SpecTerm) -> Result<
    (SpecTerm, nat),
    ParseError,
>
    decreases remaining(toks, pos), 1int,
{
    if pos < toks.len() && toks[pos] is LBracket {
        match spec_parse_type(toks, pos + 1) {
            Ok((ty, et)) => {
                let p = pos + 2 + et;
                if p < toks.len() && toks[p] is RBracket {
                    match spec_parse_term1_rest(
                        toks,
                        p + 1,
                        SpecTerm::UniversalApp(Box::new(acc), ty),
                    ) {
                        Ok((t, k)) => Ok((t, (3 + et + k) as nat)),
                        Err(e) => Err(e),
                    }
                } else if p >= toks.len() {
                    Err(ParseError::UnexpectedEnd)
                } else {
                    Err(ParseError::UnexpectedToken { index: p as usize })
                }
            },
            Err(e) => Err(e),
        }
    } else if pos < toks.len() && starts_terminal(toks[pos]) {
        match spec_parse_terminal(toks, pos) {
            Ok((arg, e)) => {
                match spec_parse_term1_rest(
                    toks,
                    pos + 1 + e,
                    SpecTerm::App(Box::new(acc), Box::new(arg)),
                ) {
                    Ok((t, k)) => Ok((t, (1 + e + k) as nat)),
                    Err(e2) => Err(e2),
                }
            },
            Err(e) => Err(e),
        }
    } else {
        Ok((acc, 0))
    }
}

/// A `Term1`: a terminal followed by its trailing applications.
pub open spec fn spec_parse_term1(toks: Seq<Token>, pos: int) -> Result<
    (SpecTerm, nat),
    ParseError,
>
    decreases remaining(toks, pos), 2int,
{
    match spec_parse_terminal(toks, pos) {
        Ok((t0, e0)) => match spec_parse_term1_rest(toks, pos + 1 + e0, t0) {
            Ok((t, k)) => Ok((t, (e0 + k) as nat)),
            Err(e) => Err(e),
        },
        Err(e) => Err(e),
    }
}

/// A term abstraction: small lambda, identifier, colon, type, dot, body.
pub open spec fn spec_parse_abs(toks: Seq<Token>, pos: int) -> Result<(SpecTerm, nat), ParseError>
    decreases remaining(toks, pos), 3int,
{
    if pos >= toks.len() {
        Err(ParseError::UnexpectedEnd)
    } else if !(toks[pos] is SmallLambda) {
        Err(ParseError::UnexpectedToken { index: pos as usize })
    } else if pos + 1 >= toks.len() {
        Err(ParseError::UnexpectedEnd)
    } else {
        match toks[pos + 1] {
            Token::Identifier(c) => {
                if pos + 2 >= toks.len() {
                    Err(ParseError::UnexpectedEnd)
                } else if !(toks[pos + 2] is Colon) {
                    Err(ParseError::UnexpectedToken { index: (pos + 2) as usize })
                } else {
                    match spec_parse_type(toks, pos + 3) {
                        Ok((ty, et)) => {
                            let p = pos + 4 + et;
                            if p >= toks.len() {
                                Err(ParseError::UnexpectedEnd)
                            } else if !(toks[p] is Dot) {
                                Err(ParseError::UnexpectedToken { index: p as usize })
                            } else {
                                match spec_parse_term(toks, p + 1) {
                                    Ok((body, eb)) => Ok((
                                        SpecTerm::Abs {
                                            param_name: seq![c],
                                            param_type: ty,
                                            body: Box::new(body),
                                        },
                                        (5 + et + eb) as nat,
                                    )),
                                    Err(e) => Err(e),
                                }
                            }
                        },
                        Err(e) => Err(e),
                    }
                }
            },
            _ => Err(ParseError::UnexpectedToken { index: (pos + 1) as usize }),
        }
    }
}

/// A term: a term abstraction, a type abstraction whose body must itself be
/// a term abstraction, or a `Term1`.
pub open spec fn spec_parse_term(toks: Seq<Token>, pos: int) -> Result<(SpecTerm, nat), ParseError>
    decreases remaining(toks, pos), 4int,
{
    if pos < toks.len() && toks[pos] is SmallLambda {
        spec_parse_abs(toks, pos)
    } else if pos < toks.len() && toks[pos] is BigLambda {
        if pos + 1 >= toks.len() {
            Err(ParseError::UnexpectedEnd)
        } else {
            match toks[pos + 1] {
                Token::TypeVariable(c) => {
                    if pos + 2 >= toks.len() {
                        Err(ParseError::UnexpectedEnd)
                    } else if !(toks[pos + 2] is Colon) {
                        Err(ParseError::UnexpectedToken { index: (pos + 2) as usize })
                    } else {
                        match spec_parse_kind(toks, pos + 3) {
                            Ok((k, ek)) => {
                                let p = pos + 4 + ek;
                                if p >= toks.len() {
                                    Err(ParseError::UnexpectedEnd)
                                } else if !(toks[p] is Dot) {
                                    Err(ParseError::UnexpectedToken { index: p as usize })
                                } else {
                                    match spec_parse_abs(toks, p + 1) {
                                        Ok((inner, ea)) => Ok((
                                            SpecTerm::UniversalAbs {
                                                type_var: seq![c],
                                                kind: k,
                                                body: Box::new(inner),
                                            },
                                            (5 + ek + ea) as nat,
                                        )),
                                        Err(e) => Err(e),
                                    }
                                }
                            },
                            Err(e) => Err(e),
                        }
                    }
                },
                _ => Err(ParseError::UnexpectedToken { index: (pos + 1) as usize }),
            }
        }
    } else {
        spec_parse_term1(toks, pos)
    }
}

/// What parsing a whole input returns: its tokens read as one term, with
/// nothing left over.
pub open spec fn spec_parse(bytes: Seq<u8>) -> Result<SpecTerm, ParseError> {
    match spec_tokenize(bytes) {
        Ok(toks) => match spec_parse_term(toks, 0) {
            Ok((t, extra)) => if 1 + extra == toks.len() {
                Ok(t)
            } else {
                Err(ParseError::ExtraToken { index: (1 + extra) as usize })
            },
            Err(e) => Err(e),
        },
        Err(e) => Err(e),
    }
}

/// Relies on char::to_string: the returned string holds exactly the one
/// character it was called on.
#[verifier::external_body]
fn char_to_string(c: char) -> (r: String)
    ensures
        r@ == seq![c],
{
    c.to_string()
}

fn token_starts_terminal(t: Token) -> (r: bool)
    ensures
        r == starts_terminal(t),
{
    match t {
        Token::Number(_) => true,
        Token::Identifier(_) => true,
        Token::LParen => true,
        _ => false,
    }
}

/// Demands the given token at `pos`: reports the end of the input or the
/// offending index otherwise.
fn expect(toks: &Vec<Token>, pos: usize, want: Token) -> (r: Result<(), ParseError>)
    ensures
        (match r {
            Ok(_) => pos < toks@.len() && toks@[pos as int] == want,
            Err(e) => {
                ||| (pos >= toks@.len() && e == ParseError::UnexpectedEnd)
                ||| (pos < toks@.len() && toks@[pos as int] != want && e == (
                ParseError::UnexpectedToken { index: pos }))
            },
        }),
{
    if pos >= toks.len() {
        Err(ParseError::UnexpectedEnd)
    } else if toks[pos] == want {
        Ok(())
    } else {
        Err(ParseError::UnexpectedToken { index: pos })
    }
}

fn parse_kind(toks: &Vec<Token>, pos: usize) -> (r: Result<(Kind, usize), ParseError>)
    requires
        pos <= toks@.len(),
    ensures
        (match r {
            Ok((k, next)) => {
                &&& spec_parse_kind(toks@, pos as int) matches Ok(p)
                &&& p.0 == k
                &&& next == pos + 1 + p.1
                &&& next <= toks@.len()
            },
            Err(e) => spec_parse_kind(toks@, pos as int) == Err::<(Kind, nat), ParseError>(e),
        }),
{
    match expect(toks, pos, Token::Star) {
        Ok(_) => {
            proof {
                assert(pos < toks.len());
            }
            Ok((Kind::Star, pos + 1))
        },
        Err(e) => Err(e),
    }
}

fn parse_type1(toks: &Vec<Token>, pos: usize) -> (r: Result<(Type, usize), ParseError>)
    requires
        pos <= toks@.len(),
    ensures
        (match r {
            Ok((t, next)) => {
                &&& spec_parse_type1(toks@, pos as int) matches Ok(p)
                &&& p.0 == t@
                &&& next == pos + 1 + p.1
                &&& next <= toks@.len()
            },
            Err(e) => spec_parse_type1(toks@, pos as int) == Err::<(SpecType, nat), ParseError>(e),
        }),
{
    if pos >= toks.len() {
        Err(ParseError::UnexpectedEnd)
    } else {
        match toks[pos] {
            Token::IntKeyword => Ok((Type::Int, pos + 1)),
            Token::TypeVariable(c) => Ok((Type::TypeVar(char_to_string(c)), pos + 1)),
            _ => Err(ParseError::UnexpectedToken { index: pos }),
        }
    }
}

fn parse_type2(toks: &Vec<Token>, pos: usize) -> (r: Result<(Type, usize), ParseError>)
    requires
        pos <= toks@.len(),
    ensures
        (match r {
            Ok((t, next)) => {
                &&& spec_parse_type2(toks@, pos as int) matches Ok(p)
                &&& p.0 == t@
                &&& next == pos + 1 + p.1
                &&& next <= toks@.len()
            },
            Err(e) => spec_parse_type2(toks@, pos as int) == Err::<(SpecType, nat), ParseError>(e),
        }),
    decreases toks@.len() - pos,
{
    let (t1, p) = match parse_type1(toks, pos) {
        Ok(x) => x,
        Err(e) => {
            return Err(e);
        },
    };
    if p < toks.len() && toks[p] == Token::Arrow {
        match parse_type2(toks, p + 1) {
            Ok((t2, next)) => Ok((Type::Arrow(Box::new(t1), Box::new(t2)), next)),
            Err(e) => Err(e),
        }
    } else {
        Ok((t1, p))
    }
}

fn parse_type(toks: &Vec<Token>, pos: usize) -> (r: Result<(Type, usize), ParseError>)
    requires
        pos <= toks@.len(),
    ensures
        (match r {
            Ok((t, next)) => {
                &&& spec_parse_type(toks@, pos as int) matches Ok(p)
                &&& p.0 == t@
                &&& next == pos + 1 + p.1
                &&& next <= toks@.len()
            },
            Err(e) => spec_parse_type(toks@, pos as int) == Err::<(SpecType, nat), ParseError>(e),
        }),
    decreases toks@.len() - pos,
{
    if pos < toks.len() && toks[pos] == Token::ForallSign {
        if pos + 1 >= toks.len() {
            return Err(ParseError::UnexpectedEnd);
        }
        let c = match toks[pos + 1] {
            Token::TypeVariable(c) => c,
            _ => {
                return Err(ParseError::UnexpectedToken { index: pos + 1 });
            },
        };
        match expect(toks, pos + 2, Token::Colon) {
            Ok(_) => {},
            Err(e) => {
                return Err(e);
            },
        }
        let (k, p_kind) = match parse_kind(toks, pos + 3) {
            Ok(x) => x,
            Err(e) => {
                return Err(e);
            },
        };
        match expect(toks, p_kind, Token::Dot) {
            Ok(_) => {},
            Err(e) => {
                return Err(e);
            },
        }
        match parse_type(toks, p_kind + 1) {
            Ok((body, next)) => {
                let name = char_to_string(c);
                let param = Type::TypeVar(char_to_string(c));
                proof {
                    assert(param@ == SpecType::TypeVar(seq![c]));
                }
                Ok((
                    Type::Forall {
                        type_var: name,
                        kind: k,
                        param_type: Box::new(param),
                        return_type: Box::new(body),
                    },
                    next,
                ))
            },
            Err(e) => Err(e),
        }
    } else {
        parse_type2(toks, pos)
    }
}

fn parse_terminal(toks: &Vec<Token>, pos: usize) -> (r: Result<(Term, usize), ParseError>)
    requires
        pos <= toks@.len(),
    ensures
        (match r {
            Ok((t, next)) => {
                &&& spec_parse_terminal(toks@, pos as int) matches Ok(p)
                &&& p.0 == t@
                &&& next == pos + 1 + p.1
                &&& next <= toks@.len()
            },
            Err(e) => spec_parse_terminal(toks@, pos as int) == Err::<
                (SpecTerm, nat),
                ParseError,
            >(e),
        }),
    decreases toks@.len() - pos, 0int,
{
    if pos >= toks.len() {
        Err(ParseError::UnexpectedEnd)
    } else {
        match toks[pos] {
            Token::Number(v) => Ok((Term::Int(v), pos + 1)),
            Token::Identifier(c) => Ok((Term::Var(char_to_string(c)), pos + 1)),
            Token::LParen => match parse_term(toks, pos + 1) {
                Ok((t, p)) => {
                    match expect(toks, p, Token::RParen) {
                        Ok(_) => Ok((t, p + 1)),
                        Err(e) => Err(e),
                    }
                },
                Err(e) => Err(e),
            },
            _ => Err(ParseError::UnexpectedToken { index: pos }),
        }
    }
}

fn parse_term1_rest(toks: &Vec<Token>, pos: usize, acc: Term) -> (r: Result<
    (Term, usize),
    ParseError,
>)
    requires
        pos <= toks@.len(),
    ensures
        (match r {
            Ok((t, next)) => {
                &&& spec_parse_term1_rest(toks@, pos as int, acc@) matches Ok(p)
                &&& p.0 == t@
                &&& next == pos + p.1
                &&& next <= toks@.len()
            },
            Err(e) => spec_parse_term1_rest(toks@, pos as int, acc@) == Err::<
                (SpecTerm, nat),
                ParseError,
            >(e),
        }),
    decreases toks@.len() - pos, 1int,
{
    if pos < toks.len() && toks[pos] == Token::LBracket {
        let (ty, p_ty) = match parse_type(toks, pos + 1) {
            Ok(x) => x,
            Err(e) => {
                return Err(e);
            },
        };
        match expect(toks, p_ty, Token::RBracket) {
            Ok(_) => {},
            Err(e) => {
                return Err(e);
            },
        }
        parse_term1_rest(toks, p_ty + 1, Term::UniversalApp(Box::new(acc), ty))
    } else if pos < toks.len() && token_starts_terminal(toks[pos]) {
        match parse_terminal(toks, pos) {
            Ok((arg, p_arg)) => parse_term1_rest(
                toks,
                p_arg,
                Term::App(Box::new(acc), Box::new(arg)),
            ),
            Err(e) => Err(e),
        }
    } else {
        Ok((acc, pos))
    }
}

fn parse_term1(toks: &Vec<Token>, pos: usize) -> (r: Result<(Term, usize), ParseError>)
    requires
        pos <= toks@.len(),
    ensures
        (match r {
            Ok((t, next)) => {
                &&& spec_parse_term1(toks@, pos as int) matches Ok(p)
                &&& p.0 == t@
                &&& next == pos + 1 + p.1
                &&& next <= toks@.len()
            },
            Err(e) => spec_parse_term1(toks@, pos as int) == Err::<(SpecTerm, nat), ParseError>(e),
        }),
    decreases toks@.len() - pos, 2int,
{
    match parse_terminal(toks, pos) {
        Ok((t0, p0)) => parse_term1_rest(toks, p0, t0),
        Err(e) => Err(e),
    }
}

fn parse_abs(toks: &Vec<Token>, pos: usize) -> (r: Result<(Term, usize), ParseError>)
    requires
        pos <= toks@.len(),
    ensures
        (match r {
            Ok((t, next)) => {
                &&& spec_parse_abs(toks@, pos as int) matches Ok(p)
                &&& p.0 == t@
                &&& next == pos + 1 + p.1
                &&& next <= toks@.len()
            },
            Err(e) => spec_parse_abs(toks@, pos as int) == Err::<(SpecTerm, nat), ParseError>(e),
        }),
    decreases toks@.len() - pos, 3int,
{
    match expect(toks, pos, Token::SmallLambda) {
        Ok(_) => {},
        Err(e) => {
            return Err(e);
        },
    }
    proof {
        assert(pos < toks.len());
    }
    if pos + 1 >= toks.len() {
        return Err(ParseError::UnexpectedEnd);
    }
    let c = match toks[pos + 1] {
        Token::Identifier(c) => c,
        _ => {
            return Err(ParseError::UnexpectedToken { index: pos + 1 });
        },
    };
    match expect(toks, pos + 2, Token::Colon) {
        Ok(_) => {},
        Err(e) => {
            return Err(e);
        },
    }
    let (ty, p_ty) = match parse_type(toks, pos + 3) {
        Ok(x) => x,
        Err(e) => {
            return Err(e);
        },
    };
    match expect(toks, p_ty, Token::Dot) {
        Ok(_) => {},
        Err(e) => {
            return Err(e);
        },
    }
    match parse_term(toks, p_ty + 1) {
        Ok((body, next)) => Ok((
            Term::Abs { param_name: char_to_string(c), param_type: ty, body: Box::new(body) },
            next,
        )),
        Err(e) => Err(e),
    }
}

fn parse_term(toks: &Vec<Token>, pos: usize) -> (r: Result<(Term, usize), ParseError>)
    requires
        pos <= toks@.len(),
    ensures
        (match r {
            Ok((t, next)) => {
                &&& spec_parse_term(toks@, pos as int) matches Ok(p)
                &&& p.0 == t@
                &&& next == pos + 1 + p.1
                &&& next <= toks@.len()
            },
            Err(e) => spec_parse_term(toks@, pos as int) == Err::<(SpecTerm, nat), ParseError>(e),
        }),
    decreases toks@.len() - pos, 4int,
{
    if pos < toks.len() && toks[pos] == Token::SmallLambda {
        parse_abs(toks, pos)
    } else if pos < toks.len() && toks[pos] == Token::BigLambda {
        if pos + 1 >= toks.len() {
            return Err(ParseError::UnexpectedEnd);
        }
        let c = match toks[pos + 1] {
            Token::TypeVariable(c) => c,
            _ => {
                return Err(ParseError::UnexpectedToken { index: pos + 1 });
            },
        };
        match expect(toks, pos + 2, Token::Colon) {
            Ok(_) => {},
            Err(e) => {
                return Err(e);
            },
        }
        let (k, p_kind) = match parse_kind(toks, pos + 3) {
            Ok(x) => x,
            Err(e) => {
                return Err(e);
            },
        };
        match expect(toks, p_kind, Token::Dot) {
            Ok(_) => {},
            Err(e) => {
                return Err(e);
            },
        }
        match parse_abs(toks, p_kind + 1) {
            Ok((inner, next)) => Ok((
                Term::UniversalAbs {
                    type_var: char_to_string(c),
                    kind: k,
                    body: Box::new(inner),
                },
                next,
            )),
            Err(e) => Err(e),
        }
    } else {
        parse_term1(toks, pos)
    }
}

/// The parser for the term grammar.
pub struct TermParser {
    builder: TokenMatcher,
}

impl TermParser {
    /// A parser, holding the lexer that `new_builder` supplies.
    pub fn new() -> TermParser {
        TermParser { builder: new_builder() }
    }

    /// Reads the whole input as one term: lexes it, parses the token
    /// sequence as a `Term`, and demands that no token is left over.
    pub fn parse(&self, input: &str) -> (r: Result<Term, ParseError>)
        ensures
            (match r {
                Ok(t) => spec_parse(input.spec_bytes()) == Ok::<SpecTerm, ParseError>(t@),
                Err(e) => spec_parse(input.spec_bytes()) == Err::<SpecTerm, ParseError>(e),
            }),
    {
        let toks = match self.builder.tokenize(input) {
            Ok(ts) => ts,
            Err(e) => {
                return Err(e);
            },
        };
        match parse_term(&toks, 0) {
            Ok((t, next)) => {
                if next == toks.len() {
                    Ok(t)
                } else {
                    Err(ParseError::ExtraToken { index: next })
                }
            },
            Err(e) => Err(e),
        }
    }
}

/// The lexer that a fresh `TermParser` installs.
pub fn new_builder() -> TokenMatcher {
    TokenMatcher {}
}

} // verus!
