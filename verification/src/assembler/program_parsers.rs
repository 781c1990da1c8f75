//! A whole program: a sequence of instructions and its bytes.

use super::instruction_parsers::{
    lemma_one_instruction, one_instruction, spec_one_instruction, AssemblerInstruction,
    EncodeError,
};
use super::ParseError;
use vstd::prelude::*;

verus! {

/// The instructions of a piece of assembly text, in order.
#[derive(Debug, PartialEq)]
pub struct Program {
    pub instructions: Vec<AssemblerInstruction>,
}

impl View for Program {
    type V = Seq<AssemblerInstruction>;

    open spec fn view(&self) -> Seq<AssemblerInstruction> {
        self.instructions@
    }
}

/// The bytes of a sequence of instructions: the bytes of each, one after the
/// other, with nothing between them. Where an instruction has no bytes, the
/// reason that the first such instruction gives.
pub open spec fn encode_all(instructions: Seq<AssemblerInstruction>) -> Result<
    Seq<u8>,
    EncodeError,
>
    decreases instructions.len(),
{
    if instructions.len() == 0 {
        Ok(Seq::empty())
    } else {
        match encode_all(instructions.drop_last()) {
            Err(e) => Err(e),
            Ok(front) => match instructions.last().encoding() {
                Err(e) => Err(e),
                Ok(bytes) => Ok(front + bytes),
            },
        }
    }
}

/// Every instruction of the sequence is well formed.
pub open spec fn all_well_formed(instructions: Seq<AssemblerInstruction>) -> bool {
    forall|i: int| 0 <= i < instructions.len() ==> (#[trigger] instructions[i]).well_formed()
}

impl Program {
    /// Encodes the program.
    pub fn to_bytes(&self) -> (r: Result<Vec<u8>, EncodeError>)
        ensures
            match r {
                Ok(bytes) => encode_all(self@) == Ok::<Seq<u8>, EncodeError>(bytes@),
                Err(e) => encode_all(self@) == Err::<Seq<u8>, EncodeError>(e),
            },
    {
        let mut program: Vec<u8> = Vec::new();
        let n = self.instructions.len();
        let mut i: usize = 0;
        while i < n
            invariant
                i <= n,
                n == self.instructions@.len(),
                encode_all(self@.take(i as int)) == Ok::<Seq<u8>, EncodeError>(program@),
            decreases n - i,
        {
            proof {
                assert(self@.take(i + 1).drop_last() =~= self@.take(i as int));
                assert(self@.take(i + 1).last() == self@[i as int]);
            }
            match self.instructions[i].to_bytes() {
                Ok(mut bytes) => {
                    program.append(&mut bytes);
                },
                Err(e) => {
                    proof {
                        lemma_encode_all_fails(self@, i + 1);
                    }
                    return Err(e);
                },
            }
            i += 1;
        }
        assert(self@.take(n as int) =~= self@);
        Ok(program)
    }
}

/// A failure among the first `k` instructions is the failure of the whole
/// sequence.
pub proof fn lemma_encode_all_fails(instructions: Seq<AssemblerInstruction>, k: int)
    requires
        0 <= k <= instructions.len(),
        encode_all(instructions.take(k)) is Err,
    ensures
        encode_all(instructions) == encode_all(instructions.take(k)),
    decreases instructions.len() - k,
{
    if k == instructions.len() {
        assert(instructions.take(k) =~= instructions);
    } else {
        assert(instructions.take(k + 1).drop_last() =~= instructions.take(k));
        lemma_encode_all_fails(instructions, k + 1);
    }
}

/// The bytes of a program are the bytes of its instructions, laid end to
/// end: where the program has bytes, so has each instruction and each front
/// part of the program, and the bytes of instruction `i` stand in the
/// program directly behind those of the instructions before it.
pub proof fn lemma_encoding_is_concatenation(instructions: Seq<AssemblerInstruction>, i: int)
    requires
        encode_all(instructions) is Ok,
        0 <= i < instructions.len(),
    ensures
        instructions[i].encoding() is Ok,
        encode_all(instructions.take(i)) is Ok,
        encode_all(instructions.take(i + 1)) == Ok::<Seq<u8>, EncodeError>(
            encode_all(instructions.take(i))->Ok_0 + instructions[i].encoding()->Ok_0,
        ),
        encode_all(instructions.take(i + 1))->Ok_0.is_prefix_of(encode_all(instructions)->Ok_0),
    decreases instructions.len(),
{
    let front = instructions.drop_last();
    let whole = encode_all(instructions)->Ok_0;
    if i == instructions.len() - 1 {
        assert(instructions.take(i) =~= front);
        assert(instructions.take(i + 1) =~= instructions);
        assert(whole.is_prefix_of(whole));
    } else {
        lemma_encoding_is_concatenation(front, i);
        assert(front.take(i) =~= instructions.take(i));
        assert(front.take(i + 1) =~= instructions.take(i + 1));
        assert(front[i] == instructions[i]);
        let shorter = encode_all(front)->Ok_0;
        let part = encode_all(instructions.take(i + 1))->Ok_0;
        assert(part.is_prefix_of(shorter));
        assert(shorter.is_prefix_of(whole)) by {
            assert(whole.subrange(0, shorter.len() as int) =~= shorter);
        }
        assert(part.is_prefix_of(whole)) by {
            assert(shorter.subrange(0, part.len() as int) == part);
            assert(whole.subrange(0, part.len() as int) =~= shorter.subrange(
                0,
                part.len() as int,
            ));
        }
    }
}

/// Well-formed instructions fail to encode for one reason only: an operation
/// that is `ILLEGAL`.
pub proof fn lemma_encode_well_formed(instructions: Seq<AssemblerInstruction>)
    requires
        all_well_formed(instructions),
    ensures
        encode_all(instructions) matches Err(e) ==> e == EncodeError::IllegalOpcode,
        encode_all(instructions) is Err <==> exists|i: int|
            0 <= i < instructions.len() && (#[trigger] instructions[i]).opcode == (
            super::Token::Op { code: crate::instruction::Opcode::ILLEGAL }),
    decreases instructions.len(),
{
    if instructions.len() > 0 {
        let front = instructions.drop_last();
        let last = instructions.last();
        assert(last.well_formed());
        assert forall|i: int| 0 <= i < front.len() implies (#[trigger] front[i]).well_formed() by {
            assert(front[i] == instructions[i]);
        }
        lemma_encode_well_formed(front);
        let illegal = super::Token::Op { code: crate::instruction::Opcode::ILLEGAL };
        if encode_all(front) is Err {
            let i = choose|i: int| 0 <= i < front.len() && (#[trigger] front[i]).opcode == illegal;
            assert(instructions[i] == front[i]);
        } else if last.encoding() is Err {
            assert(instructions[instructions.len() - 1].opcode == illegal);
        } else {
            assert forall|i: int| 0 <= i < instructions.len() implies (
            #[trigger] instructions[i]).opcode != illegal by {
                if i < front.len() {
                    assert(front[i] == instructions[i]);
                }
            }
        }
    }
}

/// The instructions that stand one after the other at the front of `s`, as
/// many as there are, and what is left behind them.
pub open spec fn spec_instructions(s: Seq<char>) -> (Seq<AssemblerInstruction>, Seq<char>)
    decreases s.len(),
{
    match spec_one_instruction(s) {
        Ok((rest, instruction)) => if rest.len() < s.len() {
            let (more, left) = spec_instructions(rest);
            (seq![instruction] + more, left)
        } else {
            (Seq::empty(), s)
        },
        Err(_) => (Seq::empty(), s),
    }
}

/// A program is one or more instructions that cover the whole text.
pub open spec fn spec_program(s: Seq<char>) -> Result<Seq<AssemblerInstruction>, ParseError> {
    match spec_one_instruction(s) {
        Err(e) => Err(e),
        Ok(_) => {
            let (instructions, left) = spec_instructions(s);
            if left.len() == 0 {
                Ok(instructions)
            } else {
                Err(ParseError::TrailingInput)
            }
        },
    }
}

/// Reads a whole program. On success nothing of the input is left, and the
/// remainder that is handed back is empty.
pub fn program(input: &str) -> (r: Result<(&str, Program), ParseError>)
    ensures
        match r {
            Ok((rest, program)) => rest@.len() == 0 && spec_program(input@) == Ok::<
                Seq<AssemblerInstruction>,
                ParseError,
            >(program@),
            Err(e) => spec_program(input@) == Err::<Seq<AssemblerInstruction>, ParseError>(e),
        },
        r matches Ok(p) ==> p.1@.len() > 0 && all_well_formed(p.1@),
{
    let (mut rest, first) = one_instruction(input)?;
    let mut instructions: Vec<AssemblerInstruction> = Vec::new();
    instructions.push(first);
    proof {
        lemma_one_instruction(input@);
        assert(instructions@ =~= seq![first]);
    }
    loop
        invariant
            instructions@.len() > 0,
            all_well_formed(instructions@),
            spec_instructions(input@) == (
                instructions@ + spec_instructions(rest@).0,
                spec_instructions(rest@).1,
            ),
        decreases rest@.len(),
    {
        proof {
            lemma_one_instruction(rest@);
        }
        match one_instruction(rest) {
            Ok((after, instruction)) => {
                proof {
                    let more = spec_instructions(after@).0;
                    assert(instructions@.push(instruction) + more =~= instructions@ + (
                        seq![instruction] + more));
                }
                instructions.push(instruction);
                rest = after;
            },
            Err(_) => {
                assert(instructions@ + Seq::<AssemblerInstruction>::empty() =~= instructions@);
                if rest.is_empty() {
                    return Ok((rest, Program { instructions }));
                } else {
                    return Err(ParseError::TrailingInput);
                }
            },
        }
    }
}

} // verus!
