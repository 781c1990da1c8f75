//! Recognising an operation.

use super::{parsed, ParseError, Parsed, Token};
use crate::instruction::Opcode;
use crate::lexical::{
    alpha1, is_letter, lemma_run_len, lemma_skip_blanks, letter_run, skip_blanks, skip_space,
};
use vstd::prelude::*;

verus! {

/// An operation is a run of one or more ASCII letters, with any spaces and
/// tabs before and after it. The run is looked up in the table of mnemonics;
/// a word outside the table is still an operation, `ILLEGAL`.
pub open spec fn spec_opcode(s: Seq<char>) -> Parsed<Token> {
    let start = skip_blanks(s);
    let n = letter_run(start) as int;
    if n == 0 {
        Err(ParseError::ExpectedOpcode)
    } else {
        Ok(
            (
                skip_blanks(start.skip(n)),
                Token::Op { code: Opcode::of_mnemonic(start.take(n)) },
            ),
        )
    }
}

/// Where an operation is read, the token is an operation and at least one
/// character is consumed. Blanks before an operation make no difference.
pub proof fn lemma_opcode(s: Seq<char>)
    ensures
        spec_opcode(s) matches Ok(p) ==> p.1 is Op && p.0.len() < s.len(),
        spec_opcode(s) matches Err(e) ==> e == ParseError::ExpectedOpcode,
        spec_opcode(skip_blanks(s)) == spec_opcode(s),
{
    lemma_skip_blanks(s);
    let start = skip_blanks(s);
    lemma_run_len(start, |c: char| is_letter(c));
    lemma_skip_blanks(start.skip(letter_run(start) as int));
}

/// Reads one operation from the front of `input`.
pub fn opcode(input: &str) -> (r: Result<(&str, Token), ParseError>)
    ensures
        parsed(r) == spec_opcode(input@),
{
    match alpha1(skip_space(input)) {
        Ok((rest, word)) => Ok((skip_space(rest), Token::Op { code: Opcode::from(word) })),
        Err(_) => Err(ParseError::ExpectedOpcode),
    }
}

} // verus!
