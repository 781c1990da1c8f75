//! One instruction: its parsed form, its three shapes in text, and its bytes.

use super::opcode_parsers::{lemma_opcode, opcode, spec_opcode};
use super::operand_parsers::{integer_operand, lemma_integer_operand, spec_integer_operand};
use super::register_parsers::{lemma_register, register, spec_register};
use super::{parsed, ParseError, Parsed, Token};
use crate::instruction::Opcode;
use crate::lexical::{lemma_skip_blanks, skip_blanks, skip_space};
use vstd::prelude::*;

verus! {

/// Why an instruction has no bytes.
#[derive(Clone, Copy, Debug, PartialEq, Eq, Structural)]
pub enum EncodeError {
    /// The operation slot holds a token that is no operation.
    NonOpcodeInOpcodeField,
    /// The operation is `ILLEGAL`, which has no byte.
    IllegalOpcode,
    /// An operand slot holds an operation.
    OpcodeInOperandField,
}

/// The high and the low byte of `value` cut down to sixteen bits.
pub open spec fn big_endian_16(value: i32) -> Seq<u8> {
    seq![((value as int % 65536) / 256) as u8, (value as int % 256) as u8]
}

impl Token {
    /// The bytes that this token contributes as an operand: one for a
    /// register, two for an immediate, high byte first. An operation is no
    /// operand.
    pub open spec fn operand_bytes(self) -> Option<Seq<u8>> {
        match self {
            Token::Register { index } => Some(seq![index]),
            Token::IntegerOperand { value } => Some(big_endian_16(value)),
            Token::Op { .. } => None,
        }
    }
}

/// One line of assembly: an operation and up to three operands, in the order
/// in which they were written.
#[derive(Debug, PartialEq, Eq, Structural)]
pub struct AssemblerInstruction {
    pub opcode: Token,
    pub operand1: Option<Token>,
    pub operand2: Option<Token>,
    pub operand3: Option<Token>,
}

/// The bytes of an operand slot: none where the slot is empty.
pub open spec fn slot_bytes(slot: Option<Token>) -> Option<Seq<u8>> {
    match slot {
        None => Some(Seq::empty()),
        Some(token) => token.operand_bytes(),
    }
}

impl AssemblerInstruction {
    /// The operation slot holds an operation and no operand slot does. The
    /// grammar builds no other instructions.
    pub open spec fn well_formed(self) -> bool {
        &&& self.opcode is Op
        &&& slot_bytes(self.operand1) is Some
        &&& slot_bytes(self.operand2) is Some
        &&& slot_bytes(self.operand3) is Some
    }

    /// The bytes of the instruction: the byte of its operation, then the
    /// bytes of each operand that is present, in order. Where that cannot be
    /// done, the first reason met on the way.
    pub open spec fn encoding(self) -> Result<Seq<u8>, EncodeError> {
        match self.opcode {
            Token::Op { code } => match code.code() {
                None => Err(EncodeError::IllegalOpcode),
                Some(first) => match (
                    slot_bytes(self.operand1),
                    slot_bytes(self.operand2),
                    slot_bytes(self.operand3),
                ) {
                    (Some(a), Some(b), Some(c)) => Ok(seq![first] + a + b + c),
                    _ => Err(EncodeError::OpcodeInOperandField),
                },
            },
            _ => Err(EncodeError::NonOpcodeInOpcodeField),
        }
    }

    fn extract_operand(t: &Token, results: &mut Vec<u8>) -> (r: Result<(), EncodeError>)
        ensures
            r is Ok <==> t.operand_bytes() is Some,
            r is Ok ==> final(results)@ == old(results)@ + t.operand_bytes()->0,
            r matches Err(e) ==> e == EncodeError::OpcodeInOperandField && final(results)@ == old(
                results,
            )@,
    {
        match t {
            Token::Register { index } => {
                results.push(*index);
                assert(results@ =~= old(results)@ + seq![*index]);
                Ok(())
            },
            Token::IntegerOperand { value } => {
                let v: i32 = *value;
                let converted: u16 = (v & 0xffff) as u16;
                let byte1: u8 = (converted & 0xff) as u8;
                let byte2: u8 = (converted >> 8) as u8;
                assert(byte2 == ((v as int % 65536) / 256) as u8 && byte1 == (v as int % 256) as u8)
                    by (bit_vector)
                    requires
                        converted == (v & 0xffff) as u16,
                        byte1 == (converted & 0xff) as u8,
                        byte2 == (converted >> 8) as u8,
                ;
                results.push(byte2);
                results.push(byte1);
                assert(results@ =~= old(results)@ + big_endian_16(v));
                Ok(())
            },
            Token::Op { .. } => Err(EncodeError::OpcodeInOperandField),
        }
    }

    fn extract_slot(slot: &Option<Token>, results: &mut Vec<u8>) -> (r: Result<(), EncodeError>)
        ensures
            r is Ok <==> slot_bytes(*slot) is Some,
            r is Ok ==> final(results)@ == old(results)@ + slot_bytes(*slot)->0,
            r matches Err(e) ==> e == EncodeError::OpcodeInOperandField && final(results)@ == old(
                results,
            )@,
    {
        match slot {
            None => {
                assert(results@ =~= old(results)@ + Seq::<u8>::empty());
                Ok(())
            },
            Some(token) => AssemblerInstruction::extract_operand(token, results),
        }
    }

    /// Encodes the instruction.
    pub fn to_bytes(&self) -> (r: Result<Vec<u8>, EncodeError>)
        ensures
            match r {
                Ok(bytes) => self.encoding() == Ok::<Seq<u8>, EncodeError>(bytes@),
                Err(e) => self.encoding() == Err::<Seq<u8>, EncodeError>(e),
            },
            self.well_formed() ==> (r is Err <==> self.opcode == (Token::Op {
                code: Opcode::ILLEGAL,
            })),
    {
        let mut results: Vec<u8> = Vec::new();
        match self.opcode {
            Token::Op { code } => match code.encode() {
                Some(first) => {
                    results.push(first);
                },
                None => {
                    return Err(EncodeError::IllegalOpcode);
                },
            },
            _ => {
                return Err(EncodeError::NonOpcodeInOpcodeField);
            },
        }
        assert(results@ =~= seq![self.opcode->code.code()->0]);
        match AssemblerInstruction::extract_slot(&self.operand1, &mut results) {
            Ok(()) => {},
            Err(e) => {
                return Err(e);
            },
        }
        match AssemblerInstruction::extract_slot(&self.operand2, &mut results) {
            Ok(()) => {},
            Err(e) => {
                return Err(e);
            },
        }
        match AssemblerInstruction::extract_slot(&self.operand3, &mut results) {
            Ok(()) => {},
            Err(e) => {
                return Err(e);
            },
        }
        Ok(results)
    }
}

/// The first shape: an operation, a register and an immediate, as in
/// `load $1 #2`.
pub open spec fn spec_instruction_type_one(s: Seq<char>) -> Parsed<AssemblerInstruction> {
    match spec_opcode(s) {
        Err(e) => Err(e),
        Ok((s1, opcode)) => match spec_register(s1) {
            Err(e) => Err(e),
            Ok((s2, operand1)) => match spec_integer_operand(s2) {
                Err(e) => Err(e),
                Ok((s3, operand2)) => Ok(
                    (
                        s3,
                        AssemblerInstruction {
                            opcode,
                            operand1: Some(operand1),
                            operand2: Some(operand2),
                            operand3: None,
                        },
                    ),
                ),
            },
        },
    }
}

/// The second shape: an operation alone, as in `halt`.
pub open spec fn spec_instruction_type_two(s: Seq<char>) -> Parsed<AssemblerInstruction> {
    match spec_opcode(s) {
        Err(e) => Err(e),
        Ok((s1, opcode)) => Ok(
            (s1, AssemblerInstruction { opcode, operand1: None, operand2: None, operand3: None }),
        ),
    }
}

/// The third shape: an operation and three registers, as in
/// `add $12 $13 $14`.
pub open spec fn spec_instruction_type_three(s: Seq<char>) -> Parsed<AssemblerInstruction> {
    match spec_opcode(s) {
        Err(e) => Err(e),
        Ok((s1, opcode)) => match spec_register(s1) {
            Err(e) => Err(e),
            Ok((s2, operand1)) => match spec_register(s2) {
                Err(e) => Err(e),
                Ok((s3, operand2)) => match spec_register(s3) {
                    Err(e) => Err(e),
                    Ok((s4, operand3)) => Ok(
                        (
                            s4,
                            AssemblerInstruction {
                                opcode,
                                operand1: Some(operand1),
                                operand2: Some(operand2),
                                operand3: Some(operand3),
                            },
                        ),
                    ),
                },
            },
        },
    }
}

/// One instruction, with any spaces and tabs around it. The two shapes with
/// operands are tried before the bare operation, which would otherwise cut a
/// longer instruction short; the first shape that matches is taken.
pub open spec fn spec_one_instruction(s: Seq<char>) -> Parsed<AssemblerInstruction> {
    let start = skip_blanks(s);
    let found = match spec_instruction_type_one(start) {
        Ok(p) => Ok(p),
        Err(_) => match spec_instruction_type_three(start) {
            Ok(p) => Ok(p),
            Err(_) => spec_instruction_type_two(start),
        },
    };
    match found {
        Ok((rest, instruction)) => Ok((skip_blanks(rest), instruction)),
        Err(e) => Err(e),
    }
}

/// Reads an instruction of the first shape from the front of `input`.
pub fn instruction_type_one(input: &str) -> (r: Result<(&str, AssemblerInstruction), ParseError>)
    ensures
        parsed(r) == spec_instruction_type_one(input@),
{
    let (input, opcode) = opcode(input)?;
    let (input, operand1) = register(input)?;
    let (input, operand2) = integer_operand(input)?;
    Ok(
        (
            input,
            AssemblerInstruction {
                opcode,
                operand1: Some(operand1),
                operand2: Some(operand2),
                operand3: None,
            },
        ),
    )
}

/// Reads an instruction of the second shape from the front of `input`.
pub fn instruction_type_two(input: &str) -> (r: Result<(&str, AssemblerInstruction), ParseError>)
    ensures
        parsed(r) == spec_instruction_type_two(input@),
{
    let (input, opcode) = opcode(input)?;
    Ok((input, AssemblerInstruction { opcode, operand1: None, operand2: None, operand3: None }))
}

/// Reads an instruction of the third shape from the front of `input`.
pub fn instruction_type_three(input: &str) -> (r: Result<
    (&str, AssemblerInstruction),
    ParseError,
>)
    ensures
        parsed(r) == spec_instruction_type_three(input@),
{
    let (input, opcode) = opcode(input)?;
    let (input, operand1) = register(input)?;
    let (input, operand2) = register(input)?;
    let (input, operand3) = register(input)?;
    Ok(
        (
            input,
            AssemblerInstruction {
                opcode,
                operand1: Some(operand1),
                operand2: Some(operand2),
                operand3: Some(operand3),
            },
        ),
    )
}

/// Reads one instruction of any shape from the front of `input`.
pub fn one_instruction(input: &str) -> (r: Result<(&str, AssemblerInstruction), ParseError>)
    ensures
        parsed(r) == spec_one_instruction(input@),
        r is Err <==> spec_opcode(input@) is Err,
        r matches Ok(p) ==> p.1.well_formed() && p.0@.len() < input@.len(),
{
    let start = skip_space(input);
    let found = match instruction_type_one(start) {
        Ok(p) => Ok(p),
        Err(_) => match instruction_type_three(start) {
            Ok(p) => Ok(p),
            Err(_) => instruction_type_two(start),
        },
    };
    proof {
        lemma_one_instruction(input@);
    }
    match found {
        Ok((rest, instruction)) => Ok((skip_space(rest), instruction)),
        Err(e) => Err(e),
    }
}

/// One instruction is read exactly where an operation stands at the front.
/// What is read is well formed, and at least one character is consumed.
pub proof fn lemma_one_instruction(s: Seq<char>)
    ensures
        spec_one_instruction(s) is Err <==> spec_opcode(s) is Err,
        spec_one_instruction(s) matches Err(e) ==> e == ParseError::ExpectedOpcode,
        spec_one_instruction(s) matches Ok(p) ==> p.1.well_formed() && p.0.len() < s.len(),
{
    lemma_skip_blanks(s);
    let start = skip_blanks(s);
    lemma_opcode(s);
    lemma_opcode(start);
    match spec_opcode(start) {
        Ok((s1, _)) => {
            lemma_skip_blanks(s1);
            lemma_register(s1);
            match spec_register(s1) {
                Ok((s2, _)) => {
                    lemma_integer_operand(s2);
                    lemma_register(s2);
                    match spec_integer_operand(s2) {
                        Ok((s3, _)) => lemma_skip_blanks(s3),
                        Err(_) => {},
                    }
                    match spec_register(s2) {
                        Ok((s3, _)) => {
                            lemma_register(s3);
                            match spec_register(s3) {
                                Ok((s4, _)) => lemma_skip_blanks(s4),
                                Err(_) => {},
                            }
                        },
                        Err(_) => {},
                    }
                },
                Err(_) => {},
            }
        },
        Err(_) => {},
    }
}

} // verus!
