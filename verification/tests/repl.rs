use esper::assembler::instruction_parsers::EncodeError;
use esper::assembler::{AssembleError, ParseError};
use esper::repl::{HexError, Reply, REPL};
use esper::vm::{Fault, Stop};

#[test]
fn new_shell_is_blank() {
    let repl = REPL::new();
    assert!(repl.command_buffer.is_empty());
    assert!(repl.vm.program.is_empty());
    assert_eq!(repl.vm.registers, [0; 32]);
    assert_eq!(repl.vm.program_counter, 0);
}

#[test]
fn commands_leave_the_machine_alone() {
    let mut repl = REPL::new();
    assert_eq!(repl.handle(".program"), Reply::ListProgram);
    assert_eq!(repl.handle(".registers"), Reply::ListRegisters);
    assert_eq!(repl.handle(".history"), Reply::ListHistory);
    assert_eq!(repl.handle(".quit"), Reply::Quit);
    assert!(repl.vm.program.is_empty());
    assert_eq!(repl.vm.program_counter, 0);
    assert_eq!(repl.command_buffer, vec![".program", ".registers", ".history", ".quit"]);
}

#[test]
fn every_line_joins_the_history() {
    let mut repl = REPL::new();
    repl.handle("load $0 #1");
    repl.handle("nonsense $");
    repl.handle("");
    repl.handle(".history");
    assert_eq!(repl.command_buffer, vec!["load $0 #1", "nonsense $", "", ".history"]);
}

#[test]
fn assembly_is_appended_and_run() {
    let mut repl = REPL::new();
    assert_eq!(repl.handle("load $0 #5142"), Reply::Ran(Some(Stop::EndOfProgram)));
    assert_eq!(repl.vm.program, vec![1, 0, 20, 22]);
    assert_eq!(repl.vm.registers[0], 5142);
    assert_eq!(repl.handle("load $1 #3106 add $0 $1 $2"), Reply::Ran(Some(Stop::EndOfProgram)));
    assert_eq!(repl.vm.program, vec![1, 0, 20, 22, 1, 1, 12, 34, 2, 0, 1, 2]);
    assert_eq!(repl.vm.registers[2], 8248);
    assert_eq!(repl.vm.program_counter, 12);
    assert_eq!(repl.handle("halt"), Reply::Ran(Some(Stop::Halt)));
    assert_eq!(repl.vm.program_counter, 13);
}

#[test]
fn what_is_not_understood_is_not_run() {
    let mut repl = REPL::new();
    assert_eq!(repl.handle(""), Reply::NotUnderstood(AssembleError::Parse(ParseError::ExpectedOpcode)));
    assert_eq!(repl.handle("load $0"), Reply::NotUnderstood(AssembleError::Parse(ParseError::TrailingInput)));
    assert_eq!(repl.handle(".Program"), Reply::NotUnderstood(AssembleError::Parse(ParseError::ExpectedOpcode)));
    assert_eq!(repl.handle("quit"), Reply::NotUnderstood(AssembleError::Encode(EncodeError::IllegalOpcode)));
    assert!(repl.vm.program.is_empty());
    assert_eq!(repl.vm.program_counter, 0);
    assert_eq!(repl.command_buffer.len(), 4);
}

#[test]
fn a_fault_is_reported() {
    let mut repl = REPL::new();
    assert_eq!(repl.handle("divide $0 $1 $2"), Reply::Ran(Some(Stop::Fault(Fault::DivisionByZero))));
    assert_eq!(repl.vm.program, vec![5, 0, 1, 2]);
    assert_eq!(repl.vm.program_counter, 0);
}

#[test]
fn hex_bytes_are_read() {
    let mut repl = REPL::new();
    assert_eq!(repl.parse_hex("00"), Ok(vec![0]));
    assert_eq!(repl.parse_hex("1 0 1 3A 0"), Ok(vec![1, 0, 1, 58, 0]));
    assert_eq!(repl.parse_hex("ff FF fF 7f 80"), Ok(vec![255, 255, 255, 127, 128]));
    assert_eq!(repl.parse_hex("+a 0000000f +00ff"), Ok(vec![10, 15, 255]));
    assert!(repl.command_buffer.is_empty());
    assert!(repl.vm.program.is_empty());
}

#[test]
fn hex_errors() {
    let mut repl = REPL::new();
    assert_eq!(repl.parse_hex(""), Err(HexError::Empty));
    assert_eq!(repl.parse_hex("1  2"), Err(HexError::Empty));
    assert_eq!(repl.parse_hex(" 1"), Err(HexError::Empty));
    assert_eq!(repl.parse_hex("1 "), Err(HexError::Empty));
    assert_eq!(repl.parse_hex("g"), Err(HexError::InvalidDigit));
    assert_eq!(repl.parse_hex("0x10"), Err(HexError::InvalidDigit));
    assert_eq!(repl.parse_hex("+"), Err(HexError::InvalidDigit));
    assert_eq!(repl.parse_hex("-1"), Err(HexError::InvalidDigit));
    assert_eq!(repl.parse_hex("++1"), Err(HexError::InvalidDigit));
    assert_eq!(repl.parse_hex("1\t2"), Err(HexError::InvalidDigit));
    assert_eq!(repl.parse_hex("\u{e4}"), Err(HexError::InvalidDigit));
    assert_eq!(repl.parse_hex("100"), Err(HexError::Overflow));
    assert_eq!(repl.parse_hex("fff"), Err(HexError::Overflow));
    assert_eq!(repl.parse_hex("1 2 100 g"), Err(HexError::Overflow));
    assert_eq!(repl.parse_hex("1 g 100"), Err(HexError::InvalidDigit));
    assert_eq!(repl.parse_hex("ffz"), Err(HexError::InvalidDigit));
    assert_eq!(repl.parse_hex("fffz"), Err(HexError::Overflow));
}

#[test]
fn hex_bytes_agree_with_the_standard_library() {
    let mut repl = REPL::new();
    for word in ["0", "7", "a", "F", "10", "ff", "+ff", "0ff", "100", "", "+", "-", "g", "1g", "fg", "ffg", "fffg", "+-1", "00000000001"] {
        let expected = u8::from_str_radix(word, 16).ok();
        let found = repl.parse_hex(word).ok().map(|bytes| bytes[0]);
        assert_eq!(found, expected);
    }
}
