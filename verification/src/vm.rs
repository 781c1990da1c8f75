//! The execution engine: a register file, a program counter, a byte buffer
//! and two flags, driven by a fetch, decode and execute loop.

use crate::instruction::Opcode;
use vstd::prelude::*;

verus! {

/// The number of registers.
pub const REGISTERS: usize = 32;

/// Why an instruction could not be executed. A fault leaves the machine as it
/// was before the instruction.
#[derive(Clone, Copy, Debug, PartialEq, Eq, Structural)]
pub enum Fault {
    /// The program ends before the last operand byte of the instruction.
    TruncatedInstruction,
    /// An operand names a register from 32 up.
    RegisterOutOfRange,
    /// The result of an arithmetic operation does not fit in 32 signed bits.
    ArithmeticOverflow,
    /// The divisor is zero.
    DivisionByZero,
    /// The program counter would become negative, or greater than `usize::MAX`.
    JumpOutOfRange,
}

/// Why the machine stopped.
#[derive(Clone, Copy, Debug, PartialEq, Eq, Structural)]
pub enum Stop {
    /// A `HALT` was executed.
    Halt,
    /// The program counter stands at or behind the end of the program.
    EndOfProgram,
    /// A byte that is no operation was fetched.
    IllegalOpcode,
    /// The instruction at the program counter cannot be executed.
    Fault(Fault),
}

/// Whether the machine stopped because an instruction could not be executed.
pub open spec fn is_fault(stop: Option<Stop>) -> bool {
    stop matches Some(Stop::Fault(_))
}

/// The quotient of `a` by `b`, rounded toward zero.
pub open spec fn truncated_quotient(a: int, b: int) -> int {
    let q = (if a < 0 { -a } else { a }) / (if b < 0 { -b } else { b });
    if (a < 0) != (b < 0) {
        -q
    } else {
        q
    }
}

/// What is left of `a` when it is divided by `b` with a quotient rounded
/// toward zero. It has the sign of `a`.
pub open spec fn truncated_remainder(a: int, b: int) -> int {
    let r = (if a < 0 { -a } else { a }) % (if b < 0 { -b } else { b });
    if a < 0 {
        -r
    } else {
        r
    }
}

/// Truncated division is division: quotient and remainder add up to the
/// dividend, the remainder is smaller in magnitude than the divisor and has
/// the sign of the dividend, and the quotient is no larger in magnitude than
/// the dividend. Among 32-bit values the quotient leaves the range in one
/// case only.
pub proof fn lemma_truncated_division(a: int, b: int)
    requires
        b != 0,
    ensures
        a == b * truncated_quotient(a, b) + truncated_remainder(a, b),
        -(if b < 0 { -b } else { b }) < truncated_remainder(a, b) < (if b < 0 { -b } else { b }),
        a >= 0 ==> truncated_remainder(a, b) >= 0,
        a <= 0 ==> truncated_remainder(a, b) <= 0,
        -(if a < 0 { -a } else { a }) <= truncated_quotient(a, b) <= (if a < 0 { -a } else { a }),
        i32::MIN <= a <= i32::MAX && i32::MIN <= b <= i32::MAX ==> (truncated_quotient(a, b)
            > i32::MAX <==> a == i32::MIN && b == -1),
{
    let x = if a < 0 { -a } else { a };
    let y = if b < 0 { -b } else { b };
    assert(0 <= x / y <= x && 0 <= x % y < y && x == y * (x / y) + x % y && (y == 1 ==> x / y == x)
        && (y >= 2 ==> 2 * (x / y) <= x)) by (nonlinear_arith)
        requires
            x >= 0,
            y > 0,
    ;
    let q = x / y;
    assert(b * truncated_quotient(a, b) == if a < 0 { -(y * q) } else { y * q })
        by (nonlinear_arith)
        requires
            y == (if b < 0 { -b } else { b }),
            truncated_quotient(a, b) == (if (a < 0) != (b < 0) { -q } else { q }),
    ;
}

/// What `checked_div` and `checked_rem` of the standard library are
/// specified to compute is the truncated quotient and remainder.
proof fn lemma_checked_division(a: int, b: int)
    requires
        b != 0,
    ensures
        a == 0 ==> truncated_quotient(a, b) == 0 && truncated_remainder(a, b) == 0,
        a > 0 && b > 0 ==> truncated_quotient(a, b) == a / b && truncated_remainder(a, b) == a % b,
        a < 0 && b < 0 ==> truncated_quotient(a, b) == (a * -1) / (b * -1) && truncated_remainder(
            a,
            b,
        ) == ((a * -1) % (b * -1)) * -1,
        a < 0 && b > 0 ==> truncated_quotient(a, b) == ((a * -1) / b) * -1 && truncated_remainder(
            a,
            b,
        ) == ((a * -1) % b) * -1,
        a > 0 && b < 0 ==> truncated_quotient(a, b) == (a / (b * -1)) * -1 && truncated_remainder(
            a,
            b,
        ) == a % (b * -1),
{
    let y = if b < 0 { -b } else { b };
    assert(0int / y == 0 && 0int % y == 0) by (nonlinear_arith)
        requires
            y > 0,
    ;
}

/// A signed value as the unsigned 32-bit value with the same bits.
pub open spec fn as_unsigned(v: int) -> u32 {
    if v < 0 {
        (v + 0x1_0000_0000) as u32
    } else {
        v as u32
    }
}

/// The machine as a mathematical value.
#[verifier::ext_equal]
pub struct Machine {
    /// The 32 registers.
    pub registers: Seq<i32>,
    /// The offset in `program` of the next byte to fetch.
    pub program_counter: nat,
    /// The bytes of the program.
    pub program: Seq<u8>,
    /// What was left over by the last division.
    pub remainder: u32,
    /// The result of the last comparison.
    pub comparison_flag: bool,
}

impl Machine {
    /// The machine has its 32 registers, and its program and its program
    /// counter are of a size that a machine can hold.
    pub open spec fn well_formed(self) -> bool {
        &&& self.registers.len() == REGISTERS
        &&& self.program.len() <= usize::MAX
        &&& self.program_counter <= usize::MAX
    }

    /// The machine before anything has happened: no program, every register
    /// and the remainder at zero, the comparison flag down.
    pub open spec fn blank() -> Machine {
        Machine {
            registers: Seq::new(REGISTERS as nat, |i: int| 0i32),
            program_counter: 0,
            program: Seq::empty(),
            remainder: 0,
            comparison_flag: false,
        }
    }

    /// The machine with `program` as its program.
    pub open spec fn with_program(self, program: Seq<u8>) -> Machine {
        Machine { program, ..self }
    }

    /// Operand byte `k` of the instruction at the program counter.
    pub open spec fn operand(self, k: int) -> u8 {
        self.program[self.program_counter + 1 + k]
    }

    /// The value of the register that operand byte `k` names.
    pub open spec fn register(self, k: int) -> int {
        self.registers[self.operand(k) as int] as int
    }

    /// The first `count` operand bytes name registers that exist.
    pub open spec fn registers_in_range(self, count: nat) -> bool {
        forall|k: int| 0 <= k < count ==> #[trigger] self.operand(k) < REGISTERS
    }

    /// The machine with the program counter one byte back.
    pub open spec fn rewound(self) -> Machine {
        Machine { program_counter: (self.program_counter - 1) as nat, ..self }
    }

    /// The byte of an instruction with operation `op` has just been fetched:
    /// the program counter stands at its first operand byte, the operand
    /// bytes lie inside the program, and those that name registers name
    /// registers that exist.
    pub open spec fn fetched(self, op: Opcode) -> bool {
        &&& self.well_formed()
        &&& self.program_counter >= 1
        &&& self.program_counter + op.spec_operand_len() <= self.program.len()
        &&& self.rewound().registers_in_range(op.spec_register_operands())
    }

    /// The machine with the program counter behind an instruction that has
    /// `len` operand bytes.
    pub open spec fn next(self, len: nat) -> Machine {
        Machine { program_counter: self.program_counter + 1 + len, ..self }
    }

    /// The machine with `value` in the register that operand byte `k` names.
    pub open spec fn store(self, k: int, value: i32) -> Machine {
        Machine { registers: self.registers.update(self.operand(k) as int, value), ..self }
    }

    /// Moves the program counter to `target`, where that is a position a
    /// counter can hold.
    pub open spec fn jump(self, target: int) -> (Machine, Option<Stop>) {
        if 0 <= target <= usize::MAX {
            (Machine { program_counter: target as nat, ..self }, None)
        } else {
            (self, Some(Stop::Fault(Fault::JumpOutOfRange)))
        }
    }

    /// Stores the result of an arithmetic operation in the register that the
    /// third operand names, where the result fits.
    pub open spec fn arithmetic(self, value: int) -> (Machine, Option<Stop>) {
        if i32::MIN <= value <= i32::MAX {
            (self.store(2, value as i32).next(3), None)
        } else {
            (self, Some(Stop::Fault(Fault::ArithmeticOverflow)))
        }
    }

    /// Divides the first register by the second: the quotient, rounded
    /// toward zero, goes to the third, and what is left over to `remainder`.
    pub open spec fn divide(self) -> (Machine, Option<Stop>) {
        let a = self.register(0);
        let b = self.register(1);
        if b == 0 {
            (self, Some(Stop::Fault(Fault::DivisionByZero)))
        } else if truncated_quotient(a, b) > i32::MAX {
            (self, Some(Stop::Fault(Fault::ArithmeticOverflow)))
        } else {
            (
                Machine {
                    remainder: as_unsigned(truncated_remainder(a, b)),
                    ..self.store(2, truncated_quotient(a, b) as i32)
                }.next(3),
                None,
            )
        }
    }

    /// Records the result of a comparison.
    pub open spec fn compare(self, result: bool) -> (Machine, Option<Stop>) {
        (Machine { comparison_flag: result, ..self }.next(2), None)
    }

    /// The effect of the instruction at the program counter, whose operation
    /// is `op`, whose operand bytes all lie inside the program and whose
    /// register operands all name registers that exist.
    pub open spec fn execute(self, op: Opcode) -> (Machine, Option<Stop>) {
        match op {
            Opcode::HALT => (self.next(0), Some(Stop::Halt)),
            Opcode::ILLEGAL => (self.next(0), Some(Stop::IllegalOpcode)),
            Opcode::LOAD => (
                self.store(0, (256 * self.operand(1) + self.operand(2)) as i32).next(3),
                None,
            ),
            Opcode::ADD => self.arithmetic(self.register(0) + self.register(1)),
            Opcode::SUBTRACT => self.arithmetic(self.register(0) - self.register(1)),
            Opcode::MULTIPLY => self.arithmetic(self.register(0) * self.register(1)),
            Opcode::DIVIDE => self.divide(),
            Opcode::JUMP => self.jump(self.register(0)),
            Opcode::JUMPFORWARD => self.jump(self.program_counter + 2 + self.register(0)),
            Opcode::JUMPBACKWARD => self.jump(self.program_counter + 2 - self.register(0)),
            Opcode::EQUAL => self.compare(self.register(0) == self.register(1)),
            Opcode::NOTEQUAL => self.compare(self.register(0) != self.register(1)),
            Opcode::GREATER => self.compare(self.register(0) > self.register(1)),
            Opcode::LESS => self.compare(self.register(0) < self.register(1)),
            Opcode::GREATEREQUAL => self.compare(self.register(0) >= self.register(1)),
            Opcode::LESSEQUAL => self.compare(self.register(0) <= self.register(1)),
            Opcode::JUMPIF => if self.comparison_flag {
                self.jump(self.register(0))
            } else {
                (self.next(1), None)
            },
        }
    }

    /// One step of the machine: the machine after it, and why it stopped, if
    /// it did.
    ///
    /// With the program counter at or behind the end of the program the
    /// machine stops where it is. Else the byte at the counter is decoded;
    /// the operand bytes are checked to lie inside the program, and those
    /// that name registers to name registers that exist; then the
    /// instruction takes its effect.
    pub open spec fn step(self) -> (Machine, Option<Stop>) {
        if self.program_counter >= self.program.len() {
            (self, Some(Stop::EndOfProgram))
        } else {
            let op = Opcode::of_code(self.program[self.program_counter as int]);
            if self.program_counter + 1 + op.spec_operand_len() > self.program.len() {
                (self, Some(Stop::Fault(Fault::TruncatedInstruction)))
            } else if !self.registers_in_range(op.spec_register_operands()) {
                (self, Some(Stop::Fault(Fault::RegisterOutOfRange)))
            } else {
                self.execute(op)
            }
        }
    }

    /// At most `limit` steps of the machine, up to the first that stops it.
    pub open spec fn run(self, limit: nat) -> (Machine, Option<Stop>)
        decreases limit,
    {
        if limit == 0 {
            (self, None)
        } else {
            let (after, stop) = self.step();
            if stop is Some {
                (after, stop)
            } else {
                after.run((limit - 1) as nat)
            }
        }
    }
}

/// A step keeps the program and the number of registers. A step that stops
/// at the end of the program or with a fault changes nothing at all.
pub proof fn lemma_step_frame(m: Machine)
    requires
        m.well_formed(),
    ensures
        m.step().0.well_formed(),
        m.step().0.program == m.program,
        m.step().1 == Some(Stop::EndOfProgram) <==> m.program_counter >= m.program.len(),
        m.step().1 == Some(Stop::EndOfProgram) || is_fault(m.step().1) ==> m.step().0 == m,
{
}

/// A byte that is no operation stops the machine directly behind that byte:
/// no register and no flag changes.
pub proof fn lemma_illegal_byte_stops(m: Machine)
    requires
        m.program_counter < m.program.len(),
        m.program[m.program_counter as int] >= 16,
    ensures
        m.step() == (
            Machine { program_counter: m.program_counter + 1, ..m },
            Some(Stop::IllegalOpcode),
        ),
{
}

/// The program counter moves forward, by the length of the instruction,
/// whenever an instruction other than a jump is executed.
pub proof fn lemma_counter_advances(m: Machine)
    requires
        m.program_counter < m.program.len(),
        !is_fault(m.step().1),
    ensures
        ({
            let op = Opcode::of_code(m.program[m.program_counter as int]);
            op != Opcode::JUMP && op != Opcode::JUMPFORWARD && op != Opcode::JUMPBACKWARD && !(op
                == Opcode::JUMPIF && m.comparison_flag) ==> m.step().0.program_counter
                == m.program_counter + 1 + op.spec_operand_len()
        }),
{
}

/// Running is stepping: a run of no steps changes nothing, and a longer run
/// is one step followed, unless that step stopped the machine, by the rest.
/// A run that stopped is not changed by a larger limit.
pub proof fn lemma_run_unfold(m: Machine, limit: nat)
    ensures
        m.run(0) == (m, None::<Stop>),
        limit > 0 && m.step().1 is Some ==> m.run(limit) == m.step(),
        limit > 0 && m.step().1 is None ==> m.run(limit) == m.step().0.run((limit - 1) as nat),
        m.run(limit).1 is Some ==> m.run(limit + 1) == m.run(limit),
    decreases limit,
{
    if limit > 0 && m.step().1 is None {
        lemma_run_unfold(m.step().0, (limit - 1) as nat);
    }
}

/// The virtual machine: 32 signed registers, the program and the offset in
/// it of the next byte to fetch, and the two values that outlive an
/// instruction: what the last division left over, and what the last
/// comparison found.
pub struct VM {
    pub registers: [i32; 32],
    pub program_counter: usize,
    pub program: Vec<u8>,
    pub remainder: u32,
    pub comparison_flag: bool,
}

impl View for VM {
    type V = Machine;

    open spec fn view(&self) -> Machine {
        Machine {
            registers: self.registers@,
            program_counter: self.program_counter as nat,
            program: self.program@,
            remainder: self.remainder,
            comparison_flag: self.comparison_flag,
        }
    }
}

/// Every machine that exists is well formed.
pub proof fn lemma_view_well_formed(vm: &VM)
    ensures
        vm@.well_formed(),
{
    broadcast use vstd::array::group_array_axioms;

    assert(vm.registers@.len() == REGISTERS);
    assert(vm.program.len() <= usize::MAX);
}

impl VM {
    /// A machine with no program, with every register and the remainder at
    /// zero, and with the comparison flag down.
    pub fn new() -> (vm: VM)
        ensures
            vm@ == Machine::blank(),
    {
        let vm = VM {
            registers: [0;32],
            program_counter: 0,
            program: Vec::new(),
            remainder: 0,
            comparison_flag: false,
        };
        assert(vm@ =~= Machine::blank());
        vm
    }

    fn decode_opcode(&mut self) -> (opcode: Opcode)
        requires
            old(self).program_counter < old(self).program.len(),
        ensures
            opcode == Opcode::of_code(old(self)@.program[old(self)@.program_counter as int]),
            final(self)@ == (Machine {
                program_counter: old(self)@.program_counter + 1,
                ..old(self)@
            }),
    {
        let opcode = Opcode::from(self.program[self.program_counter]);
        self.program_counter += 1;
        opcode
    }

    fn next_8_bits(&mut self) -> (result: u8)
        requires
            old(self).program_counter < old(self).program.len(),
        ensures
            result == old(self)@.program[old(self)@.program_counter as int],
            final(self)@ == (Machine {
                program_counter: old(self)@.program_counter + 1,
                ..old(self)@
            }),
    {
        let result = self.program[self.program_counter];
        self.program_counter += 1;
        result
    }

    fn next_16_bits(&mut self) -> (result: u16)
        requires
            old(self).program_counter + 1 < old(self).program.len(),
        ensures
            result == 256 * old(self)@.program[old(self).program_counter as int] + old(
                self,
            )@.program[old(self).program_counter + 1],
            final(self)@ == (Machine {
                program_counter: old(self)@.program_counter + 2,
                ..old(self)@
            }),
    {
        let high: u8 = self.program[self.program_counter];
        let low: u8 = self.program[self.program_counter + 1];
        let result: u16 = ((high as u16) << 8) | (low as u16);
        assert(result == 256 * high + low) by (bit_vector)
            requires
                result == ((high as u16) << 8) | (low as u16),
        ;
        self.program_counter += 2;
        result
    }

    /// Whether the next `count` bytes of the program name registers that
    /// exist.
    fn registers_in_range(&self, count: usize) -> (r: bool)
        requires
            self.program_counter >= 1,
            self.program_counter + count <= self.program.len(),
        ensures
            r == self@.rewound().registers_in_range(count as nat),
    {
        let mut k: usize = 0;
        while k < count
            invariant
                k <= count,
                self.program_counter >= 1,
                self.program_counter + count <= self.program.len(),
                self@.rewound().registers_in_range(k as nat),
            decreases count - k,
        {
            if self.program[self.program_counter + k] as usize >= REGISTERS {
                assert(self@.rewound().operand(k as int) >= REGISTERS);
                return false;
            }
            assert(self@.rewound().operand(k as int) < REGISTERS);
            k += 1;
        }
        true
    }

    /// `LOAD`, with the program counter at its first operand byte.
    fn load(&mut self) -> (stop: Option<Stop>)
        requires
            old(self)@.fetched(Opcode::LOAD),
        ensures
            (final(self)@, stop) == old(self)@.rewound().execute(Opcode::LOAD),
    {
        let ghost before = self@.rewound();
        let register = self.next_8_bits() as usize;
        let number = self.next_16_bits() as i32;
        assert(before.operand(0) == register);
        self.registers[register] = number;
        assert(self@ =~= before.execute(Opcode::LOAD).0);
        None
    }

    /// `ADD`, `SUBTRACT` and `MULTIPLY`, with the program counter at the
    /// first operand byte.
    fn arithmetic(&mut self, opcode: Opcode) -> (stop: Option<Stop>)
        requires
            opcode == Opcode::ADD || opcode == Opcode::SUBTRACT || opcode == Opcode::MULTIPLY,
            old(self)@.fetched(opcode),
        ensures
            (final(self)@, stop) == old(self)@.rewound().execute(opcode),
    {
        let ghost before = self@.rewound();
        let start = self.program_counter - 1;
        let register1 = self.next_8_bits() as usize;
        let register2 = self.next_8_bits() as usize;
        let target = self.next_8_bits() as usize;
        assert(before.operand(0) == register1 && before.operand(1) == register2
            && before.operand(2) == target);
        let left = self.registers[register1];
        let right = self.registers[register2];
        let result = match opcode {
            Opcode::ADD => left.checked_add(right),
            Opcode::SUBTRACT => left.checked_sub(right),
            _ => left.checked_mul(right),
        };
        match result {
            Some(value) => {
                self.registers[target] = value;
                assert(self@ =~= before.execute(opcode).0);
                None
            },
            None => {
                self.program_counter = start;
                assert(self@ =~= before);
                Some(Stop::Fault(Fault::ArithmeticOverflow))
            },
        }
    }

    /// `DIVIDE`, with the program counter at its first operand byte.
    fn divide(&mut self) -> (stop: Option<Stop>)
        requires
            old(self)@.fetched(Opcode::DIVIDE),
        ensures
            (final(self)@, stop) == old(self)@.rewound().execute(Opcode::DIVIDE),
    {
        let ghost before = self@.rewound();
        let start = self.program_counter - 1;
        let register1 = self.next_8_bits() as usize;
        let register2 = self.next_8_bits() as usize;
        let target = self.next_8_bits() as usize;
        assert(before.operand(0) == register1 && before.operand(1) == register2
            && before.operand(2) == target);
        let dividend = self.registers[register1];
        let divisor = self.registers[register2];
        if divisor == 0 {
            self.program_counter = start;
            assert(self@ =~= before);
            return Some(Stop::Fault(Fault::DivisionByZero));
        }
        proof {
            lemma_truncated_division(dividend as int, divisor as int);
            lemma_checked_division(dividend as int, divisor as int);
        }
        match (dividend.checked_div(divisor), dividend.checked_rem(divisor)) {
            (Some(quotient), Some(left)) => {
                let unsigned: u32 = #[verifier::truncate] (left as u32);
                assert(unsigned == as_unsigned(left as int)) by (bit_vector)
                    requires
                        unsigned == #[verifier::truncate] (left as u32),
                ;
                self.registers[target] = quotient;
                self.remainder = unsigned;
                assert(self@ =~= before.execute(Opcode::DIVIDE).0);
                None
            },
            _ => {
                self.program_counter = start;
                assert(self@ =~= before);
                Some(Stop::Fault(Fault::ArithmeticOverflow))
            },
        }
    }

    /// The six comparisons, with the program counter at the first operand
    /// byte.
    fn compare(&mut self, opcode: Opcode) -> (stop: Option<Stop>)
        requires
            opcode.spec_operand_len() == 2,
            old(self)@.fetched(opcode),
        ensures
            (final(self)@, stop) == old(self)@.rewound().execute(opcode),
    {
        let ghost before = self@.rewound();
        let register1 = self.next_8_bits() as usize;
        let register2 = self.next_8_bits() as usize;
        assert(before.operand(0) == register1 && before.operand(1) == register2);
        let left = self.registers[register1];
        let right = self.registers[register2];
        self.comparison_flag = match opcode {
            Opcode::EQUAL => left == right,
            Opcode::NOTEQUAL => left != right,
            Opcode::GREATER => left > right,
            Opcode::LESS => left < right,
            Opcode::GREATEREQUAL => left >= right,
            _ => left <= right,
        };
        assert(self@ =~= before.execute(opcode).0);
        None
    }

    /// The four jumps, with the program counter at the operand byte.
    fn branch(&mut self, opcode: Opcode) -> (stop: Option<Stop>)
        requires
            opcode.spec_operand_len() == 1,
            old(self)@.fetched(opcode),
        ensures
            (final(self)@, stop) == old(self)@.rewound().execute(opcode),
    {
        let ghost before = self@.rewound();
        let start = self.program_counter - 1;
        let register = self.next_8_bits() as usize;
        assert(before.operand(0) == register);
        let value = self.registers[register] as i128;
        let target = match opcode {
            Opcode::JUMP => Some(value),
            Opcode::JUMPFORWARD => Some(self.program_counter as i128 + value),
            Opcode::JUMPBACKWARD => Some(self.program_counter as i128 - value),
            _ => if self.comparison_flag {
                Some(value)
            } else {
                None
            },
        };
        match target {
            None => {
                assert(self@ =~= before.execute(opcode).0);
                None
            },
            Some(target) => {
                if 0 <= target && target <= usize::MAX as i128 {
                    self.program_counter = target as usize;
                    assert(self@ =~= before.execute(opcode).0);
                    None
                } else {
                    self.program_counter = start;
                    assert(self@ =~= before);
                    Some(Stop::Fault(Fault::JumpOutOfRange))
                }
            },
        }
    }

    /// Executes the instruction at the program counter, or stops.
    pub fn execute_instruction(&mut self) -> (stop: Option<Stop>)
        ensures
            (final(self)@, stop) == old(self)@.step(),
    {
        if self.program_counter >= self.program.len() {
            return Some(Stop::EndOfProgram);
        }
        let ghost before = self@;
        let start = self.program_counter;
        let opcode = self.decode_opcode();
        assert(self@.rewound() =~= before);
        if self.program.len() - self.program_counter < opcode.operand_len() {
            self.program_counter = start;
            assert(self@ =~= before);
            return Some(Stop::Fault(Fault::TruncatedInstruction));
        }
        if !self.registers_in_range(opcode.register_operands()) {
            self.program_counter = start;
            assert(self@ =~= before);
            return Some(Stop::Fault(Fault::RegisterOutOfRange));
        }
        match opcode {
            Opcode::HALT => Some(Stop::Halt),
            Opcode::ILLEGAL => Some(Stop::IllegalOpcode),
            Opcode::LOAD => self.load(),
            Opcode::ADD | Opcode::SUBTRACT | Opcode::MULTIPLY => self.arithmetic(opcode),
            Opcode::DIVIDE => self.divide(),
            Opcode::JUMP | Opcode::JUMPFORWARD | Opcode::JUMPBACKWARD | Opcode::JUMPIF => self.branch(
                opcode,
            ),
            Opcode::EQUAL
            | Opcode::NOTEQUAL
            | Opcode::GREATER
            | Opcode::LESS
            | Opcode::GREATEREQUAL
            | Opcode::LESSEQUAL => self.compare(opcode),
        }
    }

    /// Appends one byte to the program.
    pub fn add_byte(&mut self, byte: u8)
        ensures
            final(self)@ == old(self)@.with_program(old(self)@.program.push(byte)),
    {
        self.program.push(byte);
    }

    /// Appends bytes to the program as they are.
    pub fn append_bytes(&mut self, bytes: &[u8])
        ensures
            final(self)@ == old(self)@.with_program(old(self)@.program + bytes@),
    {
        let n = bytes.len();
        let mut i: usize = 0;
        while i < n
            invariant
                i <= n,
                n == bytes@.len(),
                self@ == old(self)@.with_program(old(self)@.program + bytes@.take(i as int)),
            decreases n - i,
        {
            assert(bytes@.take(i + 1) =~= bytes@.take(i as int).push(bytes@[i as int]));
            self.add_byte(bytes[i]);
            i += 1;
        }
        assert(bytes@.take(n as int) =~= bytes@);
    }

    /// Executes instructions from the program counter on until the machine
    /// stops, but no more than `limit` of them. Gives the reason for the
    /// stop, or `None` where the limit was reached first.
    pub fn run_for(&mut self, limit: u64) -> (stop: Option<Stop>)
        ensures
            (final(self)@, stop) == old(self)@.run(limit as nat),
    {
        let mut left = limit;
        while left > 0
            invariant
                self@.run(left as nat) == old(self)@.run(limit as nat),
            decreases left,
        {
            match self.execute_instruction() {
                Some(stop) => {
                    return Some(stop);
                },
                None => {
                    left -= 1;
                },
            }
        }
        None
    }

    /// Executes instructions from the program counter on until the machine
    /// stops, and gives the reason for the stop. The loop gives up, with
    /// `None`, after `u64::MAX` instructions.
    pub fn run(&mut self) -> (stop: Option<Stop>)
        ensures
            (final(self)@, stop) == old(self)@.run(u64::MAX as nat),
    {
        self.run_for(u64::MAX)
    }
}

impl Default for VM {
    fn default() -> (vm: VM)
        ensures
            vm@ == Machine::blank(),
    {
        VM::new()
    }
}

} // verus!
