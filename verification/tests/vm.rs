use esper::vm::{Fault, Stop, VM};

#[test]
fn test_vm_creation() {
    let test_vm = VM::new();
    for i in 0..32 {
        assert_eq!(test_vm.registers[i], 0);
    }
}

#[test]
fn test_opcode_halt() {
    let mut test_vm = VM::new();
    test_vm.program = vec![0, 0, 0, 0];
    test_vm.run();
    assert_eq!(test_vm.program_counter, 1);
}

#[test]
fn test_opcode_load() {
    let mut test_vm = VM::new();
    test_vm.program = vec![1, 0, 1, 58, 0];
    test_vm.run();
    assert_eq!(test_vm.registers[0], 314);
}

#[test]
fn test_opcode_add() {
    let mut test_vm = VM::new();
    test_vm.program = vec![1, 0, 20, 22, 1, 1, 12, 34, 2, 0, 1, 2];

    // register 0: 5_142
    //          1: 3_106
    //          2: 5_142 + 3_106 = 8_248

    test_vm.run();
    assert_eq!(test_vm.registers[2], 8_248);
}

#[test]
fn test_opcode_subtract() {
    let mut test_vm = VM::new();
    test_vm.program = vec![1, 0, 20, 22, 1, 1, 12, 34, 3, 0, 1, 2];

    // register 0: 5_142
    //          1: 3_106
    //          2: 5_142 - 3_106 = 2_036

    test_vm.run();
    assert_eq!(test_vm.registers[2], 2_036);
}

#[test]
fn test_opcode_multiply() {
    let mut test_vm = VM::new();
    test_vm.program = vec![1, 0, 20, 22, 1, 1, 12, 34, 4, 0, 1, 2];

    // register 0: 5_142
    //          1: 3_106
    //          2: 5_142 * 3_106 = 15_971_052

    test_vm.run();
    assert_eq!(test_vm.registers[2], 15_971_052);
}

#[test]
fn test_opcode_divide() {
    let mut test_vm = VM::new();
    test_vm.program = vec![1, 0, 20, 22, 1, 1, 12, 34, 5, 0, 1, 2];

    // register 0: 5_142
    //          1: 3_106
    //          2: 5_142 / 3_106 = 1 remainder 2_036

    test_vm.run();
    assert_eq!(test_vm.registers[2], 1);
    assert_eq!(test_vm.remainder, 2_036);
}

#[test]
fn test_opcode_jump() {
    let mut test_vm = VM::new();
    test_vm.registers[0] = 1;
    test_vm.program = vec![6, 0, 0, 0];
    test_vm.run();
    assert_eq!(test_vm.program_counter, 2);
}

#[test]
fn test_opcode_jump_forward() {
    let mut test_vm = VM::new();
    test_vm.registers[0] = 2;
    test_vm.program = vec![7, 0, 0, 0, 0, 0];

    //                     ----  o-->-->  .

    test_vm.run();
    assert_eq!(test_vm.program_counter, 5);
}

#[test]
fn test_opcode_jump_backward() {
    let mut test_vm = VM::new();
    test_vm.program = vec![1, 3, 0, 1, 8, 3, 0, 3, 5, 0, 0];

    //                     ----------  ----
    //                                    <--o
    //                                    ----------     .

    test_vm.run();
    assert_eq!(test_vm.program_counter, 10);
    assert_eq!(test_vm.registers[5], -1);
}

#[test]
fn test_opcode_equal() {
    let mut test_vm = VM::new();
    test_vm.program = vec![1, 0, 1, 0, 1, 3, 1, 0, 9, 0, 3];
    test_vm.run();
    assert_eq!(test_vm.comparison_flag, true);
    test_vm.program.extend([1, 3, 0, 1, 9, 0, 3]);
    test_vm.run();
    assert_eq!(test_vm.comparison_flag, false);
}

#[test]
fn test_opcode_not_equal() {
    let mut test_vm = VM::new();
    test_vm.program = vec![1, 0, 1, 0, 1, 3, 1, 0, 10, 0, 3];
    test_vm.run();
    assert_eq!(test_vm.comparison_flag, false);
    test_vm.program.extend([1, 3, 0, 1, 10, 0, 3]);
    test_vm.run();
    assert_eq!(test_vm.comparison_flag, true);
}

#[test]
fn test_opcode_greater() {
    let mut test_vm = VM::new();
    test_vm.program = vec![1, 20, 12, 34, 1, 22, 43, 21, 11, 20, 22];
    test_vm.run();
    assert_eq!(test_vm.comparison_flag, false);
    test_vm.program.extend([1, 22, 12, 34, 11, 20, 22]);
    test_vm.run();
    assert_eq!(test_vm.comparison_flag, false);
    test_vm.program.extend([1, 22, 0, 12, 11, 20, 22]);
    test_vm.run();
    assert_eq!(test_vm.comparison_flag, true);
}

#[test]
fn test_opcode_less() {
    let mut test_vm = VM::new();
    test_vm.program = vec![1, 20, 12, 34, 1, 22, 43, 21, 12, 20, 22];
    test_vm.run();
    assert_eq!(test_vm.comparison_flag, true);
    test_vm.program.extend([1, 22, 12, 34, 12, 20, 22]);
    test_vm.run();
    assert_eq!(test_vm.comparison_flag, false);
    test_vm.program.extend([1, 22, 0, 12, 12, 20, 22]);
    test_vm.run();
    assert_eq!(test_vm.comparison_flag, false);
}

#[test]
fn test_opcode_greater_equal() {
    let mut test_vm = VM::new();
    test_vm.program = vec![1, 20, 12, 34, 1, 22, 43, 21, 13, 20, 22];
    test_vm.run();
    assert_eq!(test_vm.comparison_flag, false);
    test_vm.program.extend([1, 22, 12, 34, 13, 20, 22]);
    test_vm.run();
    assert_eq!(test_vm.comparison_flag, true);
    test_vm.program.extend([1, 22, 0, 12, 13, 20, 22]);
    test_vm.run();
    assert_eq!(test_vm.comparison_flag, true);
}

#[test]
fn test_opcode_less_equal() {
    let mut test_vm = VM::new();
    test_vm.program = vec![1, 20, 12, 34, 1, 22, 43, 21, 14, 20, 22];
    test_vm.run();
    assert_eq!(test_vm.comparison_flag, true);
    test_vm.program.extend([1, 22, 12, 34, 14, 20, 22]);
    test_vm.run();
    assert_eq!(test_vm.comparison_flag, true);
    test_vm.program.extend([1, 22, 0, 12, 14, 20, 22]);
    test_vm.run();
    assert_eq!(test_vm.comparison_flag, false);
}

#[test]
fn test_opcode_jump_if() {
    let mut test_vm = VM::new();
    test_vm.registers[5] = 15;
    test_vm.program = vec![1, 31, 0, 41, 1, 15, 0, 26, 10, 31, 15, 15, 5, 0, 0, 0];
    //                     *--==--=====  *--==--=====  **--==--==  **--=        o->
    test_vm.run();
    assert_eq!(test_vm.program_counter, 16);
}

#[test]
fn test_opcode_illegal() {
    let mut test_vm = VM::new();
    test_vm.program = vec![123, 0, 0, 0];
    test_vm.run();
    assert_eq!(test_vm.program_counter, 1);
}

fn machine(program: &[u8]) -> VM {
    let mut vm = VM::new();
    vm.append_bytes(program);
    vm
}

#[test]
fn new_machine_is_blank() {
    let vm = VM::new();
    assert_eq!(vm.registers, [0; 32]);
    assert_eq!(vm.program_counter, 0);
    assert_eq!(vm.program, Vec::<u8>::new());
    assert_eq!(vm.remainder, 0);
    assert_eq!(vm.comparison_flag, false);
    let other = VM::default();
    assert_eq!(other.registers, [0; 32]);
    assert_eq!(other.program_counter, 0);
    assert!(other.program.is_empty());
}

#[test]
fn bytes_are_appended_in_order() {
    let mut vm = VM::new();
    vm.add_byte(1);
    vm.add_byte(2);
    vm.append_bytes(&[3, 4, 5]);
    vm.append_bytes(&[]);
    vm.add_byte(6);
    assert_eq!(vm.program, vec![1, 2, 3, 4, 5, 6]);
    assert_eq!(vm.program_counter, 0);
    assert_eq!(vm.registers, [0; 32]);
}

#[test]
fn empty_program_stops_at_its_end() {
    let mut vm = VM::new();
    assert_eq!(vm.run(), Some(Stop::EndOfProgram));
    assert_eq!(vm.program_counter, 0);
    assert_eq!(vm.execute_instruction(), Some(Stop::EndOfProgram));
}

#[test]
fn load_then_halt_at_end_of_buffer() {
    let mut vm = machine(&[1, 0, 1, 58, 0]);
    assert_eq!(vm.run(), Some(Stop::Halt));
    assert_eq!(vm.registers[0], 314);
    assert_eq!(vm.program_counter, 5);
    assert_eq!(vm.run(), Some(Stop::EndOfProgram));
    assert_eq!(vm.program_counter, 5);
}

#[test]
fn load_is_big_endian_and_zero_extended() {
    let mut vm = machine(&[1, 7, 255, 255, 1, 8, 1, 2]);
    assert_eq!(vm.run(), Some(Stop::EndOfProgram));
    assert_eq!(vm.registers[7], 65535);
    assert_eq!(vm.registers[8], 258);
    assert_eq!(vm.program_counter, 8);
}

#[test]
fn add_of_two_loads() {
    let mut vm = machine(&[1, 0, 20, 22, 1, 1, 12, 34, 2, 0, 1, 2]);
    assert_eq!(vm.run(), Some(Stop::EndOfProgram));
    assert_eq!(vm.registers[0], 5142);
    assert_eq!(vm.registers[1], 3106);
    assert_eq!(vm.registers[2], 8248);
    assert_eq!(vm.program_counter, 12);
}

#[test]
fn divide_of_two_loads() {
    let mut vm = machine(&[1, 0, 20, 22, 1, 1, 12, 34, 5, 0, 1, 2]);
    assert_eq!(vm.run(), Some(Stop::EndOfProgram));
    assert_eq!(vm.registers[2], 1);
    assert_eq!(vm.remainder, 2036);
}

#[test]
fn division_rounds_toward_zero() {
    let mut vm = machine(&[5, 0, 1, 2]);
    vm.registers[0] = -7;
    vm.registers[1] = 2;
    assert_eq!(vm.run(), Some(Stop::EndOfProgram));
    assert_eq!(vm.registers[2], -3);
    assert_eq!(vm.remainder, (-1i32) as u32);

    let mut vm = machine(&[5, 0, 1, 2]);
    vm.registers[0] = 7;
    vm.registers[1] = -2;
    vm.run();
    assert_eq!(vm.registers[2], -3);
    assert_eq!(vm.remainder, 1);

    let mut vm = machine(&[5, 0, 1, 2]);
    vm.registers[0] = -7;
    vm.registers[1] = -2;
    vm.run();
    assert_eq!(vm.registers[2], 3);
    assert_eq!(vm.remainder, 4294967295);
}

#[test]
fn remainder_persists_until_the_next_division() {
    let mut vm = machine(&[1, 0, 0, 7, 1, 1, 0, 2, 5, 0, 1, 2, 2, 0, 1, 3]);
    vm.run();
    assert_eq!(vm.registers[2], 3);
    assert_eq!(vm.remainder, 1);
    assert_eq!(vm.registers[3], 9);
}

#[test]
fn division_by_zero_is_a_fault() {
    let mut vm = machine(&[1, 0, 0, 7, 5, 0, 1, 2]);
    assert_eq!(vm.run(), Some(Stop::Fault(Fault::DivisionByZero)));
    assert_eq!(vm.program_counter, 4);
    assert_eq!(vm.registers[0], 7);
    assert_eq!(vm.registers[2], 0);
    assert_eq!(vm.remainder, 0);
}

#[test]
fn overflow_is_a_fault() {
    let mut vm = machine(&[2, 0, 1, 2]);
    vm.registers[0] = i32::MAX;
    vm.registers[1] = 1;
    assert_eq!(vm.run(), Some(Stop::Fault(Fault::ArithmeticOverflow)));
    assert_eq!(vm.program_counter, 0);
    assert_eq!(vm.registers[2], 0);

    let mut vm = machine(&[3, 0, 1, 2]);
    vm.registers[0] = i32::MIN;
    vm.registers[1] = 1;
    assert_eq!(vm.run(), Some(Stop::Fault(Fault::ArithmeticOverflow)));

    let mut vm = machine(&[4, 0, 1, 2]);
    vm.registers[0] = 65536;
    vm.registers[1] = 32768;
    assert_eq!(vm.run(), Some(Stop::Fault(Fault::ArithmeticOverflow)));

    let mut vm = machine(&[5, 0, 1, 2]);
    vm.registers[0] = i32::MIN;
    vm.registers[1] = -1;
    assert_eq!(vm.run(), Some(Stop::Fault(Fault::ArithmeticOverflow)));
    assert_eq!(vm.program_counter, 0);
    assert_eq!(vm.remainder, 0);
}

#[test]
fn arithmetic_at_the_edges_of_the_range() {
    let mut vm = machine(&[2, 0, 1, 2, 3, 3, 1, 4, 4, 5, 6, 7]);
    vm.registers[0] = i32::MAX - 1;
    vm.registers[1] = 1;
    vm.registers[3] = i32::MIN + 1;
    vm.registers[5] = i32::MIN;
    vm.registers[6] = 1;
    assert_eq!(vm.run(), Some(Stop::EndOfProgram));
    assert_eq!(vm.registers[2], i32::MAX);
    assert_eq!(vm.registers[4], i32::MIN);
    assert_eq!(vm.registers[7], i32::MIN);
}

#[test]
fn register_out_of_range_is_a_fault() {
    let mut vm = machine(&[1, 32, 0, 1]);
    assert_eq!(vm.run(), Some(Stop::Fault(Fault::RegisterOutOfRange)));
    assert_eq!(vm.program_counter, 0);
    assert_eq!(vm.registers, [0; 32]);

    let mut vm = machine(&[2, 0, 1, 200]);
    assert_eq!(vm.run(), Some(Stop::Fault(Fault::RegisterOutOfRange)));

    let mut vm = machine(&[9, 31, 32]);
    assert_eq!(vm.run(), Some(Stop::Fault(Fault::RegisterOutOfRange)));

    let mut vm = machine(&[15, 255]);
    assert_eq!(vm.run(), Some(Stop::Fault(Fault::RegisterOutOfRange)));
}

#[test]
fn load_immediate_bytes_are_no_registers() {
    let mut vm = machine(&[1, 31, 200, 100]);
    assert_eq!(vm.run(), Some(Stop::EndOfProgram));
    assert_eq!(vm.registers[31], 200 * 256 + 100);
}

#[test]
fn truncated_instruction_is_a_fault() {
    for program in [vec![1u8], vec![1, 0], vec![1, 0, 0], vec![2, 0, 1], vec![6], vec![9, 0], vec![15]] {
        let mut vm = machine(&program);
        assert_eq!(vm.run(), Some(Stop::Fault(Fault::TruncatedInstruction)));
        assert_eq!(vm.program_counter, 0);
        assert_eq!(vm.registers, [0; 32]);
    }
}

#[test]
fn truncation_is_found_before_a_bad_register() {
    let mut vm = machine(&[2, 99, 99]);
    assert_eq!(vm.run(), Some(Stop::Fault(Fault::TruncatedInstruction)));
}

#[test]
fn illegal_byte_stops_after_one_byte() {
    let mut vm = machine(&[123, 0, 0, 0]);
    vm.registers[3] = 9;
    assert_eq!(vm.run(), Some(Stop::IllegalOpcode));
    assert_eq!(vm.program_counter, 1);
    let mut expected = [0; 32];
    expected[3] = 9;
    assert_eq!(vm.registers, expected);
    assert_eq!(vm.remainder, 0);
    assert_eq!(vm.comparison_flag, false);

    let mut vm = machine(&[16]);
    assert_eq!(vm.execute_instruction(), Some(Stop::IllegalOpcode));
    assert_eq!(vm.program_counter, 1);
}

#[test]
fn jump_to_a_negative_position_is_a_fault() {
    let mut vm = machine(&[6, 0]);
    vm.registers[0] = -1;
    assert_eq!(vm.run(), Some(Stop::Fault(Fault::JumpOutOfRange)));
    assert_eq!(vm.program_counter, 0);

    let mut vm = machine(&[8, 0]);
    vm.registers[0] = 3;
    assert_eq!(vm.run(), Some(Stop::Fault(Fault::JumpOutOfRange)));
    assert_eq!(vm.program_counter, 0);

    let mut vm = machine(&[7, 0]);
    vm.registers[0] = -3;
    assert_eq!(vm.run(), Some(Stop::Fault(Fault::JumpOutOfRange)));

    let mut vm = machine(&[9, 0, 0, 15, 1]);
    vm.registers[1] = -5;
    assert_eq!(vm.run(), Some(Stop::Fault(Fault::JumpOutOfRange)));
    assert_eq!(vm.program_counter, 3);
    assert_eq!(vm.comparison_flag, true);
}

#[test]
fn jump_behind_the_end_stops_there() {
    let mut vm = machine(&[6, 0, 0]);
    vm.registers[0] = 1000;
    assert_eq!(vm.run(), Some(Stop::EndOfProgram));
    assert_eq!(vm.program_counter, 1000);
}

#[test]
fn jump_backward_to_zero() {
    let mut vm = machine(&[0, 8, 0]);
    vm.program_counter = 1;
    vm.registers[0] = 3;
    assert_eq!(vm.run(), Some(Stop::Halt));
    assert_eq!(vm.program_counter, 1);
}

#[test]
fn jump_forward_by_a_negative_offset_goes_back() {
    let mut vm = machine(&[0, 7, 0]);
    vm.program_counter = 1;
    vm.registers[0] = -3;
    assert_eq!(vm.run(), Some(Stop::Halt));
    assert_eq!(vm.program_counter, 1);
}

#[test]
fn jump_if_falls_through_when_the_flag_is_down() {
    let mut vm = machine(&[15, 0, 0]);
    vm.registers[0] = -1;
    assert_eq!(vm.execute_instruction(), None);
    assert_eq!(vm.program_counter, 2);
    assert_eq!(vm.run(), Some(Stop::Halt));
    assert_eq!(vm.program_counter, 3);
}

#[test]
fn comparison_flag_persists() {
    let mut vm = machine(&[9, 0, 1, 1, 2, 0, 5, 2, 0, 1, 3]);
    assert_eq!(vm.run(), Some(Stop::EndOfProgram));
    assert_eq!(vm.comparison_flag, true);
    assert_eq!(vm.registers[2], 5);
}

#[test]
fn one_step_at_a_time() {
    let mut vm = machine(&[1, 0, 0, 9, 1, 1, 0, 4, 3, 0, 1, 2, 0]);
    assert_eq!(vm.execute_instruction(), None);
    assert_eq!(vm.program_counter, 4);
    assert_eq!(vm.registers[0], 9);
    assert_eq!(vm.execute_instruction(), None);
    assert_eq!(vm.program_counter, 8);
    assert_eq!(vm.execute_instruction(), None);
    assert_eq!(vm.program_counter, 12);
    assert_eq!(vm.registers[2], 5);
    assert_eq!(vm.execute_instruction(), Some(Stop::Halt));
    assert_eq!(vm.program_counter, 13);
    assert_eq!(vm.execute_instruction(), Some(Stop::EndOfProgram));
    assert_eq!(vm.program_counter, 13);
}

#[test]
fn run_for_gives_up_at_the_limit() {
    let mut vm = machine(&[6, 0]);
    assert_eq!(vm.run_for(1000), None);
    assert_eq!(vm.program_counter, 0);
    assert_eq!(vm.run_for(0), None);

    let mut vm = machine(&[1, 0, 0, 1, 1, 1, 0, 2, 0]);
    assert_eq!(vm.run_for(1), None);
    assert_eq!(vm.program_counter, 4);
    assert_eq!(vm.run_for(1), None);
    assert_eq!(vm.program_counter, 8);
    assert_eq!(vm.run_for(1), Some(Stop::Halt));
    assert_eq!(vm.program_counter, 9);
}

#[test]
fn counting_loop_runs_to_its_end() {
    // r0 counts up by r1 = 1 until it equals r2 = 10, then the loop is left.
    let program = [
        1, 1, 0, 1, // 0: load $1 #1
        1, 2, 0, 10, // 4: load $2 #10
        1, 3, 0, 12, // 8: load $3 #12, the start of the loop
        2, 0, 1, 0, // 12: add $0 $1 $0
        10, 0, 2, // 16: notequal $0 $2
        15, 3, // 19: jumpif $3
        0, // 21: halt
    ];
    let mut vm = machine(&program);
    assert_eq!(vm.run(), Some(Stop::Halt));
    assert_eq!(vm.registers[0], 10);
    assert_eq!(vm.program_counter, 22);
    assert_eq!(vm.comparison_flag, false);
}

#[test]
fn same_bytes_give_the_same_outcome() {
    let program = [1, 0, 20, 22, 1, 1, 12, 34, 5, 0, 1, 2, 11, 0, 1, 0];
    let mut first = machine(&program);
    let mut second = machine(&program);
    assert_eq!(first.run(), second.run());
    assert_eq!(first.registers, second.registers);
    assert_eq!(first.comparison_flag, second.comparison_flag);
    assert_eq!(first.remainder, second.remainder);
    assert_eq!(first.program_counter, second.program_counter);
}
