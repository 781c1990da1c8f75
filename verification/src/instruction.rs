//! The instruction set: the closed list of operations, their one-byte codes
//! and their mnemonics.

use crate::lexical::str_eq;
use vstd::prelude::*;

verus! {

/// The operation selector of an instruction.
///
/// Every variant but `ILLEGAL` has a one-byte code in `0..=15` and a lower-case
/// mnemonic. `ILLEGAL` stands for any byte and any word outside those tables.
#[allow(non_camel_case_types)]
#[derive(Clone, Copy, Debug, PartialEq, Eq, Structural)]
pub enum Opcode {
    HALT,
    LOAD,
    ADD,
    SUBTRACT,
    MULTIPLY,
    DIVIDE,
    JUMP,
    JUMPFORWARD,
    JUMPBACKWARD,
    EQUAL,
    NOTEQUAL,
    GREATER,
    LESS,
    GREATEREQUAL,
    LESSEQUAL,
    JUMPIF,
    ILLEGAL,
}

impl Opcode {
    /// The byte that stands for this operation, if it has one.
    pub open spec fn code(self) -> Option<u8> {
        match self {
            Opcode::HALT => Some(0u8),
            Opcode::LOAD => Some(1u8),
            Opcode::ADD => Some(2u8),
            Opcode::SUBTRACT => Some(3u8),
            Opcode::MULTIPLY => Some(4u8),
            Opcode::DIVIDE => Some(5u8),
            Opcode::JUMP => Some(6u8),
            Opcode::JUMPFORWARD => Some(7u8),
            Opcode::JUMPBACKWARD => Some(8u8),
            Opcode::EQUAL => Some(9u8),
            Opcode::NOTEQUAL => Some(10u8),
            Opcode::GREATER => Some(11u8),
            Opcode::LESS => Some(12u8),
            Opcode::GREATEREQUAL => Some(13u8),
            Opcode::LESSEQUAL => Some(14u8),
            Opcode::JUMPIF => Some(15u8),
            Opcode::ILLEGAL => None,
        }
    }

    /// The operation that a byte stands for.
    pub open spec fn of_code(v: u8) -> Opcode {
        if v == 0 {
            Opcode::HALT
        } else if v == 1 {
            Opcode::LOAD
        } else if v == 2 {
            Opcode::ADD
        } else if v == 3 {
            Opcode::SUBTRACT
        } else if v == 4 {
            Opcode::MULTIPLY
        } else if v == 5 {
            Opcode::DIVIDE
        } else if v == 6 {
            Opcode::JUMP
        } else if v == 7 {
            Opcode::JUMPFORWARD
        } else if v == 8 {
            Opcode::JUMPBACKWARD
        } else if v == 9 {
            Opcode::EQUAL
        } else if v == 10 {
            Opcode::NOTEQUAL
        } else if v == 11 {
            Opcode::GREATER
        } else if v == 12 {
            Opcode::LESS
        } else if v == 13 {
            Opcode::GREATEREQUAL
        } else if v == 14 {
            Opcode::LESSEQUAL
        } else if v == 15 {
            Opcode::JUMPIF
        } else {
            Opcode::ILLEGAL
        }
    }

    /// The word that stands for this operation in assembly text, if it has one.
    pub open spec fn mnemonic(self) -> Option<Seq<char>> {
        match self {
            Opcode::HALT => Some("halt"@),
            Opcode::LOAD => Some("load"@),
            Opcode::ADD => Some("add"@),
            Opcode::SUBTRACT => Some("subtract"@),
            Opcode::MULTIPLY => Some("multiply"@),
            Opcode::DIVIDE => Some("divide"@),
            Opcode::JUMP => Some("jump"@),
            Opcode::JUMPFORWARD => Some("jumpforward"@),
            Opcode::JUMPBACKWARD => Some("jumpbackward"@),
            Opcode::EQUAL => Some("equal"@),
            Opcode::NOTEQUAL => Some("notequal"@),
            Opcode::GREATER => Some("greater"@),
            Opcode::LESS => Some("less"@),
            Opcode::GREATEREQUAL => Some("greaterequal"@),
            Opcode::LESSEQUAL => Some("lessequal"@),
            Opcode::JUMPIF => Some("jumpif"@),
            Opcode::ILLEGAL => None,
        }
    }

    /// The operation that a word stands for. The match is exact and
    /// case-sensitive.
    pub open spec fn of_mnemonic(word: Seq<char>) -> Opcode {
        if word == "halt"@ {
            Opcode::HALT
        } else if word == "load"@ {
            Opcode::LOAD
        } else if word == "add"@ {
            Opcode::ADD
        } else if word == "subtract"@ {
            Opcode::SUBTRACT
        } else if word == "multiply"@ {
            Opcode::MULTIPLY
        } else if word == "divide"@ {
            Opcode::DIVIDE
        } else if word == "jump"@ {
            Opcode::JUMP
        } else if word == "jumpforward"@ {
            Opcode::JUMPFORWARD
        } else if word == "jumpbackward"@ {
            Opcode::JUMPBACKWARD
        } else if word == "equal"@ {
            Opcode::EQUAL
        } else if word == "notequal"@ {
            Opcode::NOTEQUAL
        } else if word == "greater"@ {
            Opcode::GREATER
        } else if word == "less"@ {
            Opcode::LESS
        } else if word == "greaterequal"@ {
            Opcode::GREATEREQUAL
        } else if word == "lessequal"@ {
            Opcode::LESSEQUAL
        } else if word == "jumpif"@ {
            Opcode::JUMPIF
        } else {
            Opcode::ILLEGAL
        }
    }

    /// How many operand bytes follow the byte of this operation.
    pub open spec fn spec_operand_len(self) -> nat {
        match self {
            Opcode::HALT | Opcode::ILLEGAL => 0,
            Opcode::JUMP | Opcode::JUMPFORWARD | Opcode::JUMPBACKWARD | Opcode::JUMPIF => 1,
            Opcode::EQUAL
            | Opcode::NOTEQUAL
            | Opcode::GREATER
            | Opcode::LESS
            | Opcode::GREATEREQUAL
            | Opcode::LESSEQUAL => 2,
            Opcode::LOAD
            | Opcode::ADD
            | Opcode::SUBTRACT
            | Opcode::MULTIPLY
            | Opcode::DIVIDE => 3,
        }
    }

    /// How many of the operand bytes, counted from the first, name a
    /// register. Only `LOAD` has operand bytes that do not: the two bytes of
    /// its immediate.
    pub open spec fn spec_register_operands(self) -> nat {
        match self {
            Opcode::LOAD => 1,
            _ => self.spec_operand_len(),
        }
    }

    /// How many operand bytes follow the byte of this operation.
    pub fn operand_len(self) -> (n: usize)
        ensures
            n == self.spec_operand_len(),
    {
        match self {
            Opcode::HALT | Opcode::ILLEGAL => 0,
            Opcode::JUMP | Opcode::JUMPFORWARD | Opcode::JUMPBACKWARD | Opcode::JUMPIF => 1,
            Opcode::EQUAL
            | Opcode::NOTEQUAL
            | Opcode::GREATER
            | Opcode::LESS
            | Opcode::GREATEREQUAL
            | Opcode::LESSEQUAL => 2,
            Opcode::LOAD
            | Opcode::ADD
            | Opcode::SUBTRACT
            | Opcode::MULTIPLY
            | Opcode::DIVIDE => 3,
        }
    }

    /// How many of the operand bytes, counted from the first, name a register.
    pub fn register_operands(self) -> (n: usize)
        ensures
            n == self.spec_register_operands(),
    {
        match self {
            Opcode::LOAD => 1,
            _ => self.operand_len(),
        }
    }

    /// Encodes the operation as its byte. `ILLEGAL` has none.
    pub fn encode(self) -> (r: Option<u8>)
        ensures
            r == self.code(),
            r is None <==> self == Opcode::ILLEGAL,
            r matches Some(b) ==> b < 16 && Opcode::of_code(b) == self,
    {
        match self {
            Opcode::HALT => Some(0),
            Opcode::LOAD => Some(1),
            Opcode::ADD => Some(2),
            Opcode::SUBTRACT => Some(3),
            Opcode::MULTIPLY => Some(4),
            Opcode::DIVIDE => Some(5),
            Opcode::JUMP => Some(6),
            Opcode::JUMPFORWARD => Some(7),
            Opcode::JUMPBACKWARD => Some(8),
            Opcode::EQUAL => Some(9),
            Opcode::NOTEQUAL => Some(10),
            Opcode::GREATER => Some(11),
            Opcode::LESS => Some(12),
            Opcode::GREATEREQUAL => Some(13),
            Opcode::LESSEQUAL => Some(14),
            Opcode::JUMPIF => Some(15),
            Opcode::ILLEGAL => None,
        }
    }
}

impl From<u8> for Opcode {
    /// Decodes a byte. Every byte from 16 up decodes to `ILLEGAL`.
    fn from(v: u8) -> (r: Opcode)
        ensures
            r == Opcode::of_code(v),
            r == Opcode::ILLEGAL <==> v >= 16,
            v < 16 ==> r.code() == Some(v),
    {
        match v {
            0 => Opcode::HALT,
            1 => Opcode::LOAD,
            2 => Opcode::ADD,
            3 => Opcode::SUBTRACT,
            4 => Opcode::MULTIPLY,
            5 => Opcode::DIVIDE,
            6 => Opcode::JUMP,
            7 => Opcode::JUMPFORWARD,
            8 => Opcode::JUMPBACKWARD,
            9 => Opcode::EQUAL,
            10 => Opcode::NOTEQUAL,
            11 => Opcode::GREATER,
            12 => Opcode::LESS,
            13 => Opcode::GREATEREQUAL,
            14 => Opcode::LESSEQUAL,
            15 => Opcode::JUMPIF,
            _ => Opcode::ILLEGAL,
        }
    }
}

impl vstd::std_specs::convert::FromSpecImpl<u8> for Opcode {
    open spec fn obeys_from_spec() -> bool {
        true
    }

    open spec fn from_spec(v: u8) -> Opcode {
        Opcode::of_code(v)
    }
}

impl<'a> From<&'a str> for Opcode {
    /// Looks a word up in the table of mnemonics. Every word outside the table
    /// gives `ILLEGAL`.
    fn from(v: &'a str) -> (r: Opcode)
        ensures
            r == Opcode::of_mnemonic(v@),
            r != Opcode::ILLEGAL <==> r.mnemonic() == Some(v@),
    {
        proof {
            lemma_mnemonic_table(v@);
        }
        if str_eq(v, "halt") {
            Opcode::HALT
        } else if str_eq(v, "load") {
            Opcode::LOAD
        } else if str_eq(v, "add") {
            Opcode::ADD
        } else if str_eq(v, "subtract") {
            Opcode::SUBTRACT
        } else if str_eq(v, "multiply") {
            Opcode::MULTIPLY
        } else if str_eq(v, "divide") {
            Opcode::DIVIDE
        } else if str_eq(v, "jump") {
            Opcode::JUMP
        } else if str_eq(v, "jumpforward") {
            Opcode::JUMPFORWARD
        } else if str_eq(v, "jumpbackward") {
            Opcode::JUMPBACKWARD
        } else if str_eq(v, "equal") {
            Opcode::EQUAL
        } else if str_eq(v, "notequal") {
            Opcode::NOTEQUAL
        } else if str_eq(v, "greater") {
            Opcode::GREATER
        } else if str_eq(v, "less") {
            Opcode::LESS
        } else if str_eq(v, "greaterequal") {
            Opcode::GREATEREQUAL
        } else if str_eq(v, "lessequal") {
            Opcode::LESSEQUAL
        } else if str_eq(v, "jumpif") {
            Opcode::JUMPIF
        } else {
            Opcode::ILLEGAL
        }
    }
}

impl<'a> vstd::std_specs::convert::FromSpecImpl<&'a str> for Opcode {
    open spec fn obeys_from_spec() -> bool {
        true
    }

    open spec fn from_spec(v: &'a str) -> Opcode {
        Opcode::of_mnemonic(v@)
    }
}

/// Decoding undoes encoding: the byte of every operation that has one decodes
/// to that operation, and the bytes that decode to an operation other than
/// `ILLEGAL` are exactly the bytes below 16.
pub proof fn lemma_decode_encode(op: Opcode)
    requires
        op != Opcode::ILLEGAL,
    ensures
        op.code() is Some,
        op.code()->0 < 16,
        Opcode::of_code(op.code()->0) == op,
{
}

/// Every byte from 16 up decodes to `ILLEGAL`, and no byte below does; the
/// byte of what a byte below 16 decodes to is that byte again.
pub proof fn lemma_decode_total(v: u8)
    ensures
        v >= 16 <==> Opcode::of_code(v) == Opcode::ILLEGAL,
        v < 16 ==> Opcode::of_code(v).code() == Some(v),
        Opcode::ILLEGAL.code() is None,
{
}

/// The sixteen mnemonics are pairwise distinct.
proof fn lemma_mnemonics_distinct()
    ensures
        forall|a: Opcode, b: Opcode|
            a != Opcode::ILLEGAL && b != Opcode::ILLEGAL && a != b ==> #[trigger] a.mnemonic()
                != #[trigger] b.mnemonic(),
{
    reveal_strlit("halt");
    reveal_strlit("load");
    reveal_strlit("add");
    reveal_strlit("subtract");
    reveal_strlit("multiply");
    reveal_strlit("divide");
    reveal_strlit("jump");
    reveal_strlit("jumpforward");
    reveal_strlit("jumpbackward");
    reveal_strlit("equal");
    reveal_strlit("notequal");
    reveal_strlit("greater");
    reveal_strlit("less");
    reveal_strlit("greaterequal");
    reveal_strlit("lessequal");
    reveal_strlit("jumpif");
    assert forall|a: Opcode, b: Opcode|
        a != Opcode::ILLEGAL && b != Opcode::ILLEGAL && a != b implies #[trigger] a.mnemonic()
        != #[trigger] b.mnemonic() by {
        let x = a.mnemonic()->0;
        let y = b.mnemonic()->0;
        if x.len() == y.len() {
            assert(x[0] != y[0] || x[1] != y[1] || x[4] != y[4]);
        }
    }
}

/// A word stands for an operation other than `ILLEGAL` exactly when it is that
/// operation's mnemonic: every word outside the table of sixteen mnemonics
/// gives `ILLEGAL`, and `ILLEGAL` has no mnemonic of its own.
pub proof fn lemma_mnemonic_table(word: Seq<char>)
    ensures
        Opcode::of_mnemonic(word) != Opcode::ILLEGAL <==> Opcode::of_mnemonic(word).mnemonic()
            == Some(word),
        (forall|op: Opcode| op.mnemonic() != Some(word)) ==> Opcode::of_mnemonic(word)
            == Opcode::ILLEGAL,
        Opcode::ILLEGAL.mnemonic() is None,
{
}

/// Looking a mnemonic up gives back the operation it belongs to.
pub proof fn lemma_mnemonic_round_trip(op: Opcode)
    requires
        op != Opcode::ILLEGAL,
    ensures
        op.mnemonic() is Some,
        Opcode::of_mnemonic(op.mnemonic()->0) == op,
{
    lemma_mnemonics_distinct();
    let word = op.mnemonic()->0;
    let found = Opcode::of_mnemonic(word);
    lemma_mnemonic_table(word);
    if found != op {
        assert(found.mnemonic() == Some(word));
        assert(op.mnemonic() == Some(word));
    }
}

/// An instruction as the machine sees it: an operation selector.
#[derive(Debug, PartialEq, Eq, Structural)]
pub struct Instruction {
    pub opcode: Opcode,
}

impl Instruction {
    /// An instruction with the given operation.
    pub fn new(opcode: Opcode) -> (r: Instruction)
        ensures
            r.opcode == opcode,
    {
        Instruction { opcode }
    }
}

} // verus!
