//! The decisions of the interactive shell. The shell itself, which reads
//! lines and prints replies, is not part of this library; what it has to do
//! for each line it has read is decided here.

use crate::assembler::{assemble, spec_assemble, AssembleError};
use crate::lexical::{chars_of, lemma_run_len, run_len, str_eq};
use crate::vm::{Machine, Stop, VM};
use vstd::prelude::*;
use vstd::string::*;

verus! {

/// What the shell has to do after a line.
#[derive(Clone, Copy, Debug, PartialEq, Eq, Structural)]
pub enum Reply {
    /// List the bytes of the program. The line was `.program`.
    ListProgram,
    /// List the registers. The line was `.registers`.
    ListRegisters,
    /// List the lines entered so far. The line was `.history`.
    ListHistory,
    /// Leave. The line was `.quit`.
    Quit,
    /// Say that the line was not understood. Nothing was executed.
    NotUnderstood(AssembleError),
    /// The line was assembled, appended to the program and executed; the
    /// machine stopped for the reason given, or was still running when the
    /// step limit was reached.
    Ran(Option<Stop>),
}

/// Why a line of hexadecimal bytes was not understood.
#[derive(Clone, Copy, Debug, PartialEq, Eq, Structural)]
pub enum HexError {
    /// There is nothing between two spaces, or before the first or behind
    /// the last.
    Empty,
    /// A character is no hexadecimal digit.
    InvalidDigit,
    /// The digits denote a number above 255.
    Overflow,
}

/// The value of a hexadecimal digit, of either case.
pub open spec fn hex_digit(c: char) -> Option<nat> {
    if '0' <= c && c <= '9' {
        Some((c as nat - '0' as nat) as nat)
    } else if 'a' <= c && c <= 'f' {
        Some((c as nat - 'a' as nat + 10) as nat)
    } else if 'A' <= c && c <= 'F' {
        Some((c as nat - 'A' as nat + 10) as nat)
    } else {
        None
    }
}

/// The byte that `digits` denote when they are read from left to right
/// behind digits that denote `so_far`. The first character that is no digit,
/// or that takes the number above 255, ends the reading.
pub open spec fn spec_hex_digits(digits: Seq<char>, so_far: nat) -> Result<u8, HexError>
    decreases digits.len(),
{
    if digits.len() == 0 {
        Ok(so_far as u8)
    } else {
        match hex_digit(digits[0]) {
            None => Err(HexError::InvalidDigit),
            Some(d) => if so_far * 16 + d > u8::MAX {
                Err(HexError::Overflow)
            } else {
                spec_hex_digits(digits.drop_first(), so_far * 16 + d)
            },
        }
    }
}

/// The byte that a word denotes: one or more hexadecimal digits, with or
/// without a `+` before them.
pub open spec fn spec_hex_byte(word: Seq<char>) -> Result<u8, HexError> {
    if word.len() == 0 {
        Err(HexError::Empty)
    } else {
        let digits = if word[0] == '+' {
            word.drop_first()
        } else {
            word
        };
        if digits.len() == 0 {
            Err(HexError::InvalidDigit)
        } else {
            spec_hex_digits(digits, 0)
        }
    }
}

/// The number of characters before the first space.
pub open spec fn word_len(s: Seq<char>) -> nat {
    run_len(s, |c: char| c != ' ')
}

/// The bytes that a line denotes: the line is cut at every space, and each
/// piece is read as one byte. The first piece that is no byte decides.
pub open spec fn spec_parse_hex(s: Seq<char>) -> Result<Seq<u8>, HexError>
    decreases s.len(),
{
    let n = word_len(s) as int;
    match spec_hex_byte(s.take(n)) {
        Err(e) => Err(e),
        Ok(byte) => if n >= s.len() {
            Ok(seq![byte])
        } else {
            match spec_parse_hex(s.skip(n + 1)) {
                Err(e) => Err(e),
                Ok(more) => Ok(seq![byte] + more),
            }
        },
    }
}

/// The bytes read so far, followed by what the rest of the line denotes.
pub open spec fn followed_by(bytes: Seq<u8>, rest: Result<Seq<u8>, HexError>) -> Result<
    Seq<u8>,
    HexError,
> {
    match rest {
        Err(e) => Err(e),
        Ok(more) => Ok(bytes + more),
    }
}

fn hex_digit_of(c: char) -> (r: Option<u8>)
    ensures
        r is Some <==> hex_digit(c) is Some,
        r matches Some(d) ==> hex_digit(c) == Some(d as nat),
{
    let code: u32 = c as u32;
    if 48 <= code && code <= 57 {
        Some((code - 48) as u8)
    } else if 97 <= code && code <= 102 {
        Some((code - 87) as u8)
    } else if 65 <= code && code <= 70 {
        Some((code - 55) as u8)
    } else {
        None
    }
}

/// Reads the characters from `from` up to `to` as one byte.
fn hex_byte(chars: &Vec<char>, from: usize, to: usize) -> (r: Result<u8, HexError>)
    requires
        from <= to <= chars@.len(),
    ensures
        r == spec_hex_byte(chars@.subrange(from as int, to as int)),
{
    let ghost word = chars@.subrange(from as int, to as int);
    if from == to {
        return Err(HexError::Empty);
    }
    assert(word[0] == chars@[from as int]);
    let start = if chars[from] == '+' {
        from + 1
    } else {
        from
    };
    let ghost digits = chars@.subrange(start as int, to as int);
    assert(digits =~= if word[0] == '+' {
        word.drop_first()
    } else {
        word
    });
    if start == to {
        return Err(HexError::InvalidDigit);
    }
    let mut value: u8 = 0;
    let mut i: usize = start;
    while i < to
        invariant
            start <= i <= to <= chars@.len(),
            spec_hex_byte(chars@.subrange(from as int, to as int)) == spec_hex_digits(digits, 0),
            spec_hex_digits(digits, 0) == spec_hex_digits(
                chars@.subrange(i as int, to as int),
                value as nat,
            ),
        decreases to - i,
    {
        let ghost left = chars@.subrange(i as int, to as int);
        assert(left[0] == chars@[i as int]);
        assert(left.drop_first() =~= chars@.subrange(i + 1, to as int));
        match hex_digit_of(chars[i]) {
            None => {
                return Err(HexError::InvalidDigit);
            },
            Some(d) => {
                if value > 15 {
                    return Err(HexError::Overflow);
                }
                value = value * 16 + d;
            },
        }
        i += 1;
    }
    Ok(value)
}

/// The state of the shell: the lines entered so far, and the machine.
pub struct REPL {
    pub command_buffer: Vec<String>,
    pub vm: VM,
}

/// The reply that a line calls for, and the machine after the line.
pub open spec fn spec_reply(line: Seq<char>, machine: Machine) -> (Reply, Machine) {
    if line == ".program"@ {
        (Reply::ListProgram, machine)
    } else if line == ".registers"@ {
        (Reply::ListRegisters, machine)
    } else if line == ".history"@ {
        (Reply::ListHistory, machine)
    } else if line == ".quit"@ {
        (Reply::Quit, machine)
    } else {
        match spec_assemble(line) {
            Err(e) => (Reply::NotUnderstood(e), machine),
            Ok(bytes) => {
                let (after, stop) = machine.with_program(machine.program + bytes).run(
                    u64::MAX as nat,
                );
                (Reply::Ran(stop), after)
            },
        }
    }
}

impl REPL {
    /// The lines entered so far, as character sequences.
    pub open spec fn history(&self) -> Seq<Seq<char>> {
        self.command_buffer@.map_values(|s: String| s@)
    }

    /// A shell with no history and a blank machine.
    pub fn new() -> (repl: REPL)
        ensures
            repl.history() == Seq::<Seq<char>>::empty(),
            repl.vm@ == Machine::blank(),
    {
        let repl = REPL { command_buffer: Vec::new(), vm: VM::new() };
        assert(repl.history() =~= Seq::<Seq<char>>::empty());
        repl
    }

    /// Reads a line of bytes written in hexadecimal, with one space between
    /// one byte and the next.
    pub fn parse_hex(&mut self, input: &str) -> (r: Result<Vec<u8>, HexError>)
        ensures
            match r {
                Ok(bytes) => spec_parse_hex(input@) == Ok::<Seq<u8>, HexError>(bytes@),
                Err(e) => spec_parse_hex(input@) == Err::<Seq<u8>, HexError>(e),
            },
            r matches Ok(bytes) ==> bytes@.len() >= 1,
            final(self).history() == old(self).history(),
            final(self).vm@ == old(self).vm@,
    {
        let chars = chars_of(input);
        let n = chars.len();
        let mut results: Vec<u8> = Vec::new();
        let mut from: usize = 0;
        proof {
            assert(chars@.skip(0) =~= chars@);
            match spec_parse_hex(chars@) {
                Ok(more) => assert(results@ + more =~= more),
                Err(_) => {},
            }
        }
        loop
            invariant
                from <= n,
                n == chars@.len(),
                chars@ == input@,
                spec_parse_hex(input@) == followed_by(
                    results@,
                    spec_parse_hex(chars@.skip(from as int)),
                ),
            decreases n - from,
        {
            let ghost rest = chars@.skip(from as int);
            let mut to: usize = from;
            while to < n && chars[to] != ' '
                invariant
                    from <= to <= n,
                    n == chars@.len(),
                    rest == chars@.skip(from as int),
                    word_len(rest) == (to - from) + word_len(chars@.skip(to as int)),
                decreases n - to,
            {
                assert(chars@.skip(to as int).drop_first() =~= chars@.skip(to + 1));
                to += 1;
            }
            proof {
                lemma_run_len(chars@.skip(to as int), |c: char| c != ' ');
                assert(word_len(rest) == to - from);
                assert(rest.take(to - from) =~= chars@.subrange(from as int, to as int));
                if to < n {
                    assert(rest.skip(to - from + 1) =~= chars@.skip(to + 1));
                }
            }
            let ghost before = results@;
            match hex_byte(&chars, from, to) {
                Err(e) => {
                    return Err(e);
                },
                Ok(byte) => {
                    results.push(byte);
                    proof {
                        let k = to - from;
                        assert(results@ =~= before + seq![byte]);
                        assert(spec_hex_byte(rest.take(k)) == Ok::<u8, HexError>(byte));
                        if to < n {
                            let tail = spec_parse_hex(chars@.skip(to + 1));
                            assert(spec_parse_hex(rest) == followed_by(seq![byte], tail));
                            match tail {
                                Ok(more) => {
                                    assert(before + (seq![byte] + more) =~= results@ + more);
                                },
                                Err(_) => {},
                            }
                        } else {
                            assert(spec_parse_hex(rest) == Ok::<Seq<u8>, HexError>(seq![byte]));
                        }
                    }
                },
            }
            if to >= n {
                return Ok(results);
            }
            from = to + 1;
        }
    }

    /// Takes one line, without the line break and the blanks around it. The
    /// line joins the history. A line that names a command of the shell
    /// leaves the machine alone. Any other line is assembly text: where it
    /// assembles, its bytes are appended to the program and the machine
    /// runs; where it does not, the machine is left alone.
    pub fn handle(&mut self, line: &str) -> (reply: Reply)
        ensures
            final(self).history() == old(self).history().push(line@),
            (reply, final(self).vm@) == spec_reply(line@, old(self).vm@),
    {
        self.command_buffer.push(line.to_owned());
        assert(self.history() =~= old(self).history().push(line@));
        if str_eq(line, ".program") {
            Reply::ListProgram
        } else if str_eq(line, ".registers") {
            Reply::ListRegisters
        } else if str_eq(line, ".history") {
            Reply::ListHistory
        } else if str_eq(line, ".quit") {
            Reply::Quit
        } else {
            match assemble(line) {
                Err(e) => Reply::NotUnderstood(e),
                Ok(bytes) => {
                    self.vm.append_bytes(bytes.as_slice());
                    Reply::Ran(self.vm.run())
                },
            }
        }
    }
}

} // verus!
