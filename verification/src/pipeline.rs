//! What holds of the assembler and the machine together: the bytes that the
//! one writes are the bytes that the other reads.

use crate::assembler::instruction_parsers::{big_endian_16, AssemblerInstruction, EncodeError};
use crate::assembler::{spec_assemble, AssembleError, Token};
use crate::instruction::Opcode;
use crate::vm::{Machine, Stop, REGISTERS};
use vstd::prelude::*;

verus! {

/// The instruction `load $register #value`.
pub open spec fn load_instruction(register: u8, value: i32) -> AssemblerInstruction {
    AssemblerInstruction {
        opcode: Token::Op { code: Opcode::LOAD },
        operand1: Some(Token::Register { index: register }),
        operand2: Some(Token::IntegerOperand { value }),
        operand3: None,
    }
}

/// An instruction of operation `code` on three registers.
pub open spec fn three_register_instruction(
    code: Opcode,
    first: u8,
    second: u8,
    third: u8,
) -> AssemblerInstruction {
    AssemblerInstruction {
        opcode: Token::Op { code },
        operand1: Some(Token::Register { index: first }),
        operand2: Some(Token::Register { index: second }),
        operand3: Some(Token::Register { index: third }),
    }
}

/// The bytes `bytes` stand in the program of `m` at its program counter.
pub open spec fn at_counter(m: Machine, bytes: Seq<u8>) -> bool {
    &&& m.program_counter + bytes.len() <= m.program.len()
    &&& m.program.subrange(m.program_counter as int, (m.program_counter + bytes.len()) as int)
        == bytes
}

/// The first byte of an encoded instruction decodes to the operation of the
/// instruction, and the register operands are encoded as their indices.
pub proof fn lemma_first_byte_decodes(instruction: AssemblerInstruction)
    requires
        instruction.encoding() is Ok,
    ensures
        instruction.opcode is Op,
        instruction.encoding()->Ok_0.len() >= 1,
        Opcode::of_code(instruction.encoding()->Ok_0[0]) == instruction.opcode->code,
        instruction.opcode->code != Opcode::ILLEGAL,
{
}

/// A `load` that the assembler encodes is executed as it was written: the
/// machine puts the immediate, cut down to sixteen bits, into the register
/// named, and goes on behind the four bytes. An immediate from 0 to 65535
/// arrives unchanged.
pub proof fn lemma_load_is_executed_as_written(m: Machine, register: u8, value: i32)
    requires
        m.well_formed(),
        register < REGISTERS,
        load_instruction(register, value).encoding() is Ok,
        at_counter(m, load_instruction(register, value).encoding()->Ok_0),
    ensures
        load_instruction(register, value).encoding() == Ok::<Seq<u8>, EncodeError>(
            seq![1u8, register] + big_endian_16(value),
        ),
        m.step() == (
            Machine {
                registers: m.registers.update(register as int, (value as int % 65536) as i32),
                program_counter: m.program_counter + 4,
                ..m
            },
            None::<Stop>,
        ),
        0 <= value < 65536 ==> m.step().0.registers[register as int] == value,
{
    let bytes = load_instruction(register, value).encoding()->Ok_0;
    assert(bytes =~= seq![1u8, register] + big_endian_16(value));
    let pc = m.program_counter as int;
    let window = m.program.subrange(pc, pc + 4);
    assert(m.program[pc] == window[0]);
    assert(m.operand(0) == window[1]);
    assert(m.operand(1) == window[2]);
    assert(m.operand(2) == window[3]);
    let v = value as int % 65536;
    assert(256 * ((v / 256) as u8) + ((value as int % 256) as u8) == v) by {
        assert(0 <= v < 65536);
        assert(value as int % 256 == v % 256) by (nonlinear_arith)
            requires
                v == value as int % 65536,
        ;
    }
    assert(m.registers_in_range(1));
    assert(m.step().0 =~= Machine {
        registers: m.registers.update(register as int, v as i32),
        program_counter: m.program_counter + 4,
        ..m
    });
}

/// An `add`, `subtract` or `multiply` that the assembler encodes reads the
/// registers that were written first and second and, where the result fits,
/// writes the one that was written third.
pub proof fn lemma_arithmetic_is_executed_as_written(
    m: Machine,
    code: Opcode,
    first: u8,
    second: u8,
    third: u8,
)
    requires
        m.well_formed(),
        code == Opcode::ADD || code == Opcode::SUBTRACT || code == Opcode::MULTIPLY,
        first < REGISTERS,
        second < REGISTERS,
        third < REGISTERS,
        three_register_instruction(code, first, second, third).encoding() is Ok,
        at_counter(m, three_register_instruction(code, first, second, third).encoding()->Ok_0),
    ensures
        m.step() == m.arithmetic(
            if code == Opcode::ADD {
                m.registers[first as int] + m.registers[second as int]
            } else if code == Opcode::SUBTRACT {
                m.registers[first as int] - m.registers[second as int]
            } else {
                m.registers[first as int] * m.registers[second as int]
            },
        ),
        m.operand(2) == third,
{
    let bytes = three_register_instruction(code, first, second, third).encoding()->Ok_0;
    assert(bytes =~= seq![code.code()->0, first, second, third]);
    let pc = m.program_counter as int;
    let window = m.program.subrange(pc, pc + 4);
    assert(m.program[pc] == window[0]);
    assert(m.operand(0) == window[1]);
    assert(m.operand(1) == window[2]);
    assert(m.operand(2) == window[3]);
    assert(m.registers_in_range(3));
}

/// Assembling and running are functions of what they are given: whatever
/// two assemblies of one text return is the same bytes, and two machines
/// that start in the same state with those bytes stop in the same state, for
/// the same reason.
pub proof fn lemma_same_text_same_outcome(
    text: Seq<char>,
    first: Result<Seq<u8>, AssembleError>,
    second: Result<Seq<u8>, AssembleError>,
    start: Machine,
    limit: nat,
)
    requires
        first == spec_assemble(text),
        second == spec_assemble(text),
    ensures
        first == second,
        first matches Ok(a) ==> second matches Ok(b) && start.with_program(a).run(limit)
            == start.with_program(b).run(limit),
{
}

} // verus!
