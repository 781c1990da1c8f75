//! Recognising a register.

use super::{parsed, ParseError, Parsed, Token};
use crate::lexical::{
    decimal_value, lemma_run_len, lemma_sigil_digits, lemma_skip_blanks, parse_decimal,
    sigil_digits, skip_blanks, skip_space, spec_sigil_digits,
};
use vstd::prelude::*;

verus! {

/// A register is a `$` with one or more decimal digits directly behind it,
/// with any spaces and tabs before and after. The digits are its index, which
/// has to fit in eight bits.
pub open spec fn spec_register(s: Seq<char>) -> Parsed<Token> {
    match spec_sigil_digits(seq!['$'], s) {
        None => Err(ParseError::ExpectedRegister),
        Some((rest, digits)) => if decimal_value(digits) > u8::MAX {
            Err(ParseError::RegisterOutOfRange)
        } else {
            Ok((skip_blanks(rest), Token::Register { index: decimal_value(digits) as u8 }))
        },
    }
}

/// Where a register is read, the token is one and at least two characters are
/// consumed.
pub proof fn lemma_register(s: Seq<char>)
    ensures
        spec_register(s) matches Ok(p) ==> p.1 is Register && p.0.len() + 2 <= s.len(),
{
    lemma_sigil_digits(seq!['$'], s);
    match spec_sigil_digits(seq!['$'], s) {
        Some((rest, _)) => lemma_skip_blanks(rest),
        None => {},
    }
}

/// Reads one register from the front of `input`.
pub fn register(input: &str) -> (r: Result<(&str, Token), ParseError>)
    ensures
        parsed(r) == spec_register(input@),
{
    proof {
        reveal_strlit("$");
        assert("$"@ =~= seq!['$']);
    }
    match sigil_digits("$", input) {
        None => Err(ParseError::ExpectedRegister),
        Some((rest, digits)) => {
            proof {
                let body = skip_blanks(input@).skip(1);
                lemma_run_len(body, |c: char| crate::lexical::is_digit(c));
                assert(crate::lexical::is_decimal(digits@));
            }
            match parse_decimal(digits, 255) {
                None => Err(ParseError::RegisterOutOfRange),
                Some(index) => Ok((skip_space(rest), Token::Register { index: index as u8 })),
            }
        },
    }
}

} // verus!
