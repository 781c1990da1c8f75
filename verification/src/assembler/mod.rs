//! The assembler: from assembly text to the bytes that the machine executes.

use crate::instruction::Opcode;
use instruction_parsers::EncodeError;
use program_parsers::{encode_all, lemma_encode_well_formed, program, spec_program};
use vstd::prelude::*;

pub mod instruction_parsers;
pub mod opcode_parsers;
pub mod operand_parsers;
pub mod program_parsers;
pub mod register_parsers;

verus! {

/// One lexical unit of an instruction.
#[derive(Debug, PartialEq, Eq, Structural)]
pub enum Token {
    /// An operation, as looked up from its mnemonic.
    Op { code: Opcode },
    /// A register, written `$` and its index.
    Register { index: u8 },
    /// An immediate value, written `#` and its digits.
    IntegerOperand { value: i32 },
}

/// Why a piece of assembly text was not understood.
#[derive(Clone, Copy, Debug, PartialEq, Eq, Structural)]
pub enum ParseError {
    /// There is no run of letters where an operation must stand.
    ExpectedOpcode,
    /// There is no `$` with digits behind it where a register must stand.
    ExpectedRegister,
    /// The digits behind a `$` denote a number above 255.
    RegisterOutOfRange,
    /// There is no `#` with digits behind it where an immediate must stand.
    ExpectedInteger,
    /// The digits behind a `#` denote a number above `i32::MAX`.
    IntegerOutOfRange,
    /// Text is left over behind the last instruction.
    TrailingInput,
}

/// What a recogniser makes of a character sequence: the unread remainder and
/// the value read, or the reason for reading nothing.
pub type Parsed<T> = Result<(Seq<char>, T), ParseError>;

/// The outcome of a recogniser, with the unread remainder as characters.
pub open spec fn parsed<T>(r: Result<(&str, T), ParseError>) -> Parsed<T> {
    match r {
        Ok((rest, value)) => Ok((rest@, value)),
        Err(e) => Err(e),
    }
}

/// Why a piece of assembly text has no bytes.
#[derive(Clone, Copy, Debug, PartialEq, Eq, Structural)]
pub enum AssembleError {
    /// The text is no program.
    Parse(ParseError),
    /// The text is a program, and one of its instructions has no bytes.
    Encode(EncodeError),
}

/// The bytes of a piece of assembly text: those of the program that the text
/// is, where it is one and every instruction of it can be encoded.
pub open spec fn spec_assemble(text: Seq<char>) -> Result<Seq<u8>, AssembleError> {
    match spec_program(text) {
        Err(e) => Err(AssembleError::Parse(e)),
        Ok(instructions) => match encode_all(instructions) {
            Err(e) => Err(AssembleError::Encode(e)),
            Ok(bytes) => Ok(bytes),
        },
    }
}

/// Assembles a piece of text into the bytes that the machine executes. The
/// only instruction that the grammar reads and that has no bytes is one with
/// an unknown mnemonic.
pub fn assemble(text: &str) -> (r: Result<Vec<u8>, AssembleError>)
    ensures
        match r {
            Ok(bytes) => spec_assemble(text@) == Ok::<Seq<u8>, AssembleError>(bytes@),
            Err(e) => spec_assemble(text@) == Err::<Seq<u8>, AssembleError>(e),
        },
        r matches Err(AssembleError::Encode(e)) ==> e == EncodeError::IllegalOpcode,
{
    let (_, parsed_program) = match program(text) {
        Ok(p) => p,
        Err(e) => {
            return Err(AssembleError::Parse(e));
        },
    };
    proof {
        lemma_encode_well_formed(parsed_program@);
    }
    match parsed_program.to_bytes() {
        Ok(bytes) => Ok(bytes),
        Err(e) => Err(AssembleError::Encode(e)),
    }
}

} // verus!
