//! Tokens of the concrete syntax, parse errors, and the lexer.
//!
//! The lexer works on the UTF-8 bytes of the input. Single-byte tokens are
//! punctuation, one-letter names and digits; the two lambda binders and the
//! universal quantifier are the multi-byte encodings of their symbols. Runs
//! of whitespace separate tokens and are dropped. `spec_tokenize_from` is
//! the whole lexing behaviour as one recursive definition; the executable
//! lexer returns exactly what it says.

use vstd::prelude::*;
use vstd::string::StringSliceAdditionalSpecFns;

verus! {

/// One token of the concrete syntax.
#[derive(Debug, Clone, Copy, PartialEq, Eq, Structural)]
pub enum Token {
    /// An opening parenthesis.
    LParen,
    /// A closing parenthesis.
    RParen,
    /// The star kind.
    Star,
    /// The function-type arrow `->`.
    Arrow,
    /// The dot that closes a binder.
    Dot,
    /// The colon before an annotation.
    Colon,
    /// The keyword `Int`.
    IntKeyword,
    /// An opening bracket of a type application.
    LBracket,
    /// A closing bracket of a type application.
    RBracket,
    /// The capital lambda that opens a type abstraction.
    BigLambda,
    /// The small lambda that opens a term abstraction.
    SmallLambda,
    /// The universal quantifier that opens a forall type.
    ForallSign,
    /// An unsigned integer literal.
    Number(i32),
    /// A type variable: one capital letter.
    TypeVariable(char),
    /// A term variable: one small letter.
    Identifier(char),
}

/// A syntax error, from either stage: lexing reports byte offsets into the
/// input, parsing reports indices into the token stream.
#[derive(Debug, Clone, Copy, PartialEq, Eq, Structural)]
pub enum ParseError {
    /// No token of the grammar starts at this byte offset.
    InvalidToken { offset: usize },
    /// The integer literal at this byte offset does not fit in an `i32`.
    NumberTooLarge { offset: usize },
    /// The token at this index cannot continue the production being read.
    UnexpectedToken { index: usize },
    /// The input ended in the middle of a production.
    UnexpectedEnd,
    /// A complete term ended before this index, yet tokens remain.
    ExtraToken { index: usize },
}

/// Whether a byte is ASCII whitespace: tab, line feed, vertical tab, form
/// feed, carriage return or space.
pub open spec fn is_space(b: u8) -> bool {
    b == 32 || (9 <= b && b <= 13)
}

/// Whether a byte is an ASCII digit.
pub open spec fn is_digit(b: u8) -> bool {
    48 <= b && b <= 57
}

/// Whether a byte is an ASCII small letter.
pub open spec fn is_lower(b: u8) -> bool {
    97 <= b && b <= 122
}

/// Whether a byte is an ASCII capital letter.
pub open spec fn is_upper(b: u8) -> bool {
    65 <= b && b <= 90
}

/// How many consecutive ASCII digits start at `pos`.
pub open spec fn digit_run(bytes: Seq<u8>, pos: int) -> nat
    decreases bytes.len() - pos,
{
    if 0 <= pos && pos < bytes.len() && is_digit(bytes[pos]) {
        (1 + digit_run(bytes, pos + 1)) as nat
    } else {
        0
    }
}

/// The value of the `n` digits that start at `pos`, most significant first.
pub open spec fn digits_value(bytes: Seq<u8>, pos: int, n: nat) -> int
    decreases n,
{
    if n == 0 {
        0
    } else {
        digits_value(bytes, pos, (n - 1) as nat) * 10 + (bytes[pos + n - 1] - 48)
    }
}

/// The run of digits that starts at `pos` never reaches past the end of the
/// input.
pub proof fn lemma_digit_run_bounded(bytes: Seq<u8>, pos: int)
    requires
        0 <= pos,
    ensures
        digit_run(bytes, pos) <= bytes.len() - pos || digit_run(bytes, pos) == 0,
    decreases bytes.len() - pos,
{
    if 0 <= pos && pos < bytes.len() && is_digit(bytes[pos]) {
        lemma_digit_run_bounded(bytes, pos + 1);
    }
}

/// The token that starts at position `pos`, which must hold a byte that is
/// not whitespace, together with how many further bytes it occupies.
pub open spec fn spec_next_token(bytes: Seq<u8>, pos: int) -> Result<(Token, nat), ParseError>
    recommends
        0 <= pos < bytes.len(),
{
    let b = bytes[pos];
    if b == 40 {  // (
        Ok((Token::LParen, 0))
    } else if b == 41 {  // )
        Ok((Token::RParen, 0))
    } else if b == 42 {  // *
        Ok((Token::Star, 0))
    } else if b == 46 {  // .
        Ok((Token::Dot, 0))
    } else if b == 58 {  // :
        Ok((Token::Colon, 0))
    } else if b == 91 {  // [
        Ok((Token::LBracket, 0))
    } else if b == 93 {  // ]
        Ok((Token::RBracket, 0))
    } else if b == 45 {  // - must begin ->
        if pos + 1 < bytes.len() && bytes[pos + 1] == 62 {
            Ok((Token::Arrow, 1))
        } else {
            Err(ParseError::InvalidToken { offset: pos as usize })
        }
    } else if is_digit(b) {
        let n = digit_run(bytes, pos);
        if digits_value(bytes, pos, n) > 2147483647 {
            Err(ParseError::NumberTooLarge { offset: pos as usize })
        } else {
            Ok((Token::Number(digits_value(bytes, pos, n) as i32), (n - 1) as nat))
        }
    } else if b == 73 && pos + 2 < bytes.len() && bytes[pos + 1] == 110 && bytes[pos + 2] == 116 {
        // the keyword Int; the longest match wins over a bare type variable I
        Ok((Token::IntKeyword, 2))
    } else if is_upper(b) {
        Ok((Token::TypeVariable(b as char), 0))
    } else if is_lower(b) {
        Ok((Token::Identifier(b as char), 0))
    } else if b == 0xce && pos + 1 < bytes.len() && bytes[pos + 1] == 0x9b {
        // the UTF-8 encoding of the capital lambda
        Ok((Token::BigLambda, 1))
    } else if b == 0xce && pos + 1 < bytes.len() && bytes[pos + 1] == 0xbb {
        // the UTF-8 encoding of the small lambda
        Ok((Token::SmallLambda, 1))
    } else if b == 0xe2 && pos + 2 < bytes.len() && bytes[pos + 1] == 0x88 && bytes[pos + 2]
        == 0x80 {
        // the UTF-8 encoding of the universal quantifier
        Ok((Token::ForallSign, 2))
    } else {
        Err(ParseError::InvalidToken { offset: pos as usize })
    }
}

/// The tokens of the input from byte position `pos` on: whitespace is
/// skipped, and the first byte that starts no token of the grammar stops
/// the run with an error.
pub open spec fn spec_tokenize_from(bytes: Seq<u8>, pos: int) -> Result<Seq<Token>, ParseError>
    decreases bytes.len() - pos,
    via spec_tokenize_from_decreases
{
    if pos < 0 || pos >= bytes.len() {
        Ok(Seq::empty())
    } else if is_space(bytes[pos]) {
        spec_tokenize_from(bytes, pos + 1)
    } else {
        match spec_next_token(bytes, pos) {
            Ok((tok, extra)) => match spec_tokenize_from(bytes, pos + 1 + extra) {
                Ok(rest) => Ok(seq![tok] + rest),
                Err(e) => Err(e),
            },
            Err(e) => Err(e),
        }
    }
}

#[via_fn]
proof fn spec_tokenize_from_decreases(bytes: Seq<u8>, pos: int) {
    if 0 <= pos && pos < bytes.len() && is_digit(bytes[pos]) {
        lemma_digit_run_bounded(bytes, pos);
    }
}

/// The token sequence of a whole input, or its first syntax error.
pub open spec fn spec_tokenize(bytes: Seq<u8>) -> Result<Seq<Token>, ParseError> {
    spec_tokenize_from(bytes, 0)
}

fn byte_is_space(b: u8) -> (r: bool)
    ensures
        r == is_space(b),
{
    b == 32 || (9 <= b && b <= 13)
}

fn byte_is_digit(b: u8) -> (r: bool)
    ensures
        r == is_digit(b),
{
    48 <= b && b <= 57
}

fn byte_is_lower(b: u8) -> (r: bool)
    ensures
        r == is_lower(b),
{
    97 <= b && b <= 122
}

fn byte_is_upper(b: u8) -> (r: bool)
    ensures
        r == is_upper(b),
{
    65 <= b && b <= 90
}

/// Reads the maximal digit run that starts at `pos` and decides whether its
/// value fits in an `i32`; returns the value and the position just past the
/// run.
fn lex_number(bytes: &[u8], pos: usize) -> (r: Result<(i32, usize), ParseError>)
    requires
        pos < bytes@.len(),
        is_digit(bytes@[pos as int]),
    ensures
        (match r {
            Ok((v, next)) => {
                let n = digit_run(bytes@, pos as int);
                &&& digits_value(bytes@, pos as int, n) <= 2147483647
                &&& v == digits_value(bytes@, pos as int, n)
                &&& next == pos + n
                &&& next <= bytes@.len()
            },
            Err(e) => {
                &&& digits_value(bytes@, pos as int, digit_run(bytes@, pos as int)) > 2147483647
                &&& e == (ParseError::NumberTooLarge { offset: pos })
            },
        }),
{
    let mut i: usize = pos;
    // the true value of the digits read so far, pinned at 2147483648 the
    // moment it passes the largest i32
    let mut acc: u64 = 0;
    while i < bytes.len() && 48 <= bytes[i] && bytes[i] <= 57
        invariant
            pos <= i <= bytes@.len(),
            digit_run(bytes@, pos as int) == i - pos + digit_run(bytes@, i as int),
            acc == (if digits_value(bytes@, pos as int, (i - pos) as nat) > 2147483648 {
                2147483648
            } else {
                digits_value(bytes@, pos as int, (i - pos) as nat)
            }),
            digits_value(bytes@, pos as int, (i - pos) as nat) >= 0,
        decreases bytes@.len() - i,
    {
        let d: u64 = (bytes[i] - 48) as u64;
        let raw: u64 = acc * 10 + d;
        proof {
            let old_val = digits_value(bytes@, pos as int, (i - pos) as nat);
            let new_val = digits_value(bytes@, pos as int, (i + 1 - pos) as nat);
            assert(new_val == old_val * 10 + (bytes@[i as int] - 48));
            if old_val > 2147483648 {
                assert(old_val * 10 > 2147483648 * 10) by (nonlinear_arith)
                    requires old_val > 2147483648;
            }
        }
        acc = if raw > 2147483648 {
            2147483648
        } else {
            raw
        };
        i = i + 1;
    }
    proof {
        assert(digit_run(bytes@, i as int) == 0);
    }
    if acc > 2147483647 {
        Err(ParseError::NumberTooLarge { offset: pos })
    } else {
        Ok((acc as i32, i))
    }
}

/// The token that starts at `pos`, with the position just past it, exactly
/// as `spec_next_token` states it.
fn next_token(bytes: &[u8], pos: usize) -> (r: Result<(Token, usize), ParseError>)
    requires
        pos < bytes@.len(),
        !is_space(bytes@[pos as int]),
    ensures
        (match r {
            Ok((tok, next)) => {
                &&& spec_next_token(bytes@, pos as int) matches Ok(p)
                &&& p.0 == tok
                &&& next == pos + 1 + p.1
                &&& next <= bytes@.len()
            },
            Err(e) => spec_next_token(bytes@, pos as int) == Err::<(Token, nat), ParseError>(e),
        }),
{
    let b = bytes[pos];
    if b == 40 {
        Ok((Token::LParen, pos + 1))
    } else if b == 41 {
        Ok((Token::RParen, pos + 1))
    } else if b == 42 {
        Ok((Token::Star, pos + 1))
    } else if b == 46 {
        Ok((Token::Dot, pos + 1))
    } else if b == 58 {
        Ok((Token::Colon, pos + 1))
    } else if b == 91 {
        Ok((Token::LBracket, pos + 1))
    } else if b == 93 {
        Ok((Token::RBracket, pos + 1))
    } else if b == 45 {
        if pos + 1 < bytes.len() && bytes[pos + 1] == 62 {
            Ok((Token::Arrow, pos + 2))
        } else {
            Err(ParseError::InvalidToken { offset: pos })
        }
    } else if byte_is_digit(b) {
        match lex_number(bytes, pos) {
            Ok((v, next)) => {
                proof {
                    assert(digit_run(bytes@, pos as int) >= 1);
                }
                Ok((Token::Number(v), next))
            },
            Err(e) => Err(e),
        }
    } else if b == 73 && bytes.len() > 2 && pos < bytes.len() - 2 && bytes[pos + 1] == 110
        && bytes[pos + 2] == 116 {
        Ok((Token::IntKeyword, pos + 3))
    } else if byte_is_upper(b) {
        Ok((Token::TypeVariable(b as char), pos + 1))
    } else if byte_is_lower(b) {
        Ok((Token::Identifier(b as char), pos + 1))
    } else if b == 0xce && pos + 1 < bytes.len() && bytes[pos + 1] == 0x9b {
        Ok((Token::BigLambda, pos + 2))
    } else if b == 0xce && pos + 1 < bytes.len() && bytes[pos + 1] == 0xbb {
        Ok((Token::SmallLambda, pos + 2))
    } else if b == 0xe2 && bytes.len() > 2 && pos < bytes.len() - 2 && bytes[pos + 1] == 0x88
        && bytes[pos + 2] == 0x80 {
        Ok((Token::ForallSign, pos + 3))
    } else {
        Err(ParseError::InvalidToken { offset: pos })
    }
}

spec fn with_prefix(prefix: Seq<Token>, r: Result<Seq<Token>, ParseError>) -> Result<
    Seq<Token>,
    ParseError,
> {
    match r {
        Ok(rest) => Ok(prefix + rest),
        Err(e) => Err(e),
    }
}

/// The lexer. It carries no state: the token shapes are fixed by the
/// grammar.
pub struct TokenMatcher {}

impl TokenMatcher {
    /// Splits the input into its tokens, or reports the first byte at which
    /// no token starts.
    pub fn tokenize(&self, input: &str) -> (r: Result<Vec<Token>, ParseError>)
        ensures
            (match r {
                Ok(toks) => spec_tokenize(input.spec_bytes()) == Ok::<Seq<Token>, ParseError>(
                    toks@,
                ),
                Err(e) => spec_tokenize(input.spec_bytes()) == Err::<Seq<Token>, ParseError>(e),
            }),
    {
        let bytes: &[u8] = input.as_bytes();
        let mut toks: Vec<Token> = Vec::new();
        let mut pos: usize = 0;
        loop
            invariant
                pos <= bytes@.len(),
                bytes@ == input.spec_bytes(),
                with_prefix(toks@, spec_tokenize_from(bytes@, pos as int)) == spec_tokenize(
                    bytes@,
                ),
            decreases bytes@.len() - pos,
        {
            if pos >= bytes.len() {
                proof {
                    assert(toks@ + Seq::<Token>::empty() =~= toks@);
                }
                return Ok(toks);
            }
            let b = bytes[pos];
            if byte_is_space(b) {
                pos = pos + 1;
            } else {
                match next_token(bytes, pos) {
                    Ok((tok, next)) => {
                        let ghost old_toks = toks@;
                        let ghost rest = spec_tokenize_from(bytes@, next as int);
                        toks.push(tok);
                        proof {
                            if rest is Ok {
                                assert(old_toks.push(tok) + rest.unwrap() =~= old_toks + (seq![tok]
                                    + rest.unwrap()));
                            }
                        }
                        pos = next;
                    },
                    Err(e) => {
                        return Err(e);
                    },
                }
            }
        }
    }
}

} // verus!
