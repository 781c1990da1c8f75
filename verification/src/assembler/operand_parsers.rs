//! Recognising an immediate operand.

use super::{parsed, ParseError, Parsed, Token};
use crate::lexical::{
    decimal_value, lemma_run_len, lemma_sigil_digits, lemma_skip_blanks, parse_decimal,
    sigil_digits, skip_blanks, skip_space, spec_sigil_digits,
};
use vstd::prelude::*;

verus! {

/// An immediate is a `#` with one or more decimal digits directly behind it,
/// with any spaces and tabs before and after. The digits are its value, which
/// has to fit in a signed 32-bit integer.
pub open spec fn spec_integer_operand(s: Seq<char>) -> Parsed<Token> {
    match spec_sigil_digits(seq!['#'], s) {
        None => Err(ParseError::ExpectedInteger),
        Some((rest, digits)) => if decimal_value(digits) > i32::MAX {
            Err(ParseError::IntegerOutOfRange)
        } else {
            Ok(
                (
                    skip_blanks(rest),
                    Token::IntegerOperand { value: decimal_value(digits) as i32 },
                ),
            )
        },
    }
}

/// Where an immediate is read, the token is one and at least two characters are
/// consumed.
pub proof fn lemma_integer_operand(s: Seq<char>)
    ensures
        spec_integer_operand(s) matches Ok(p) ==> p.1 is IntegerOperand && p.0.len() + 2 <= s.len(),
{
    lemma_sigil_digits(seq!['#'], s);
    match spec_sigil_digits(seq!['#'], s) {
        Some((rest, _)) => lemma_skip_blanks(rest),
        None => {},
    }
}

/// Reads one immediate operand from the front of `input`.
pub fn integer_operand(input: &str) -> (r: Result<(&str, Token), ParseError>)
    ensures
        parsed(r) == spec_integer_operand(input@),
{
    proof {
        reveal_strlit("#");
        assert("#"@ =~= seq!['#']);
    }
    match sigil_digits("#", input) {
        None => Err(ParseError::ExpectedInteger),
        Some((rest, digits)) => {
            proof {
                let body = skip_blanks(input@).skip(1);
                lemma_run_len(body, |c: char| crate::lexical::is_digit(c));
                assert(crate::lexical::is_decimal(digits@));
            }
            match parse_decimal(digits, 2147483647) {
                None => Err(ParseError::IntegerOutOfRange),
                Some(value) => Ok(
                    (skip_space(rest), Token::IntegerOperand { value: value as i32 }),
                ),
            }
        },
    }
}

} // verus!
