//! Instruction-level tests of the execution engine: exact arithmetic
//! semantics, control flow, I/O buffering, and the fatal conditions.

use synacor_vm::machine::Fault;
use synacor_vm::machine::Machine;
use synacor_vm::machine::StepOutcome;

fn prog_bytes(words: &[u16]) -> Vec<u8> {
    let mut bytes = Vec::new();
    for w in words {
        bytes.push((w % 256) as u8);
        bytes.push((w / 256) as u8);
    }
    bytes
}

fn run_to_halt(m: &mut Machine, max_steps: usize) {
    let mut steps = 0;
    while !m.halted() {
        match m.step() {
            Ok(StepOutcome::Stepped) => {}
            other => panic!("unexpected step result: {:?}", other),
        }
        steps += 1;
        assert!(steps <= max_steps, "program did not halt in {} steps", max_steps);
    }
}

#[test]
fn loads_program_little_endian() {
    let mut m = Machine::new(vec![0x34, 0x12, 0xff, 0x7f]);
    // memory[0] = 0x1234, memory[1] = 0x7fff, rest zero
    let dump = m.dump();
    assert_eq!(dump[18], 0x34);
    assert_eq!(dump[19], 0x12);
    assert_eq!(dump[20], 0xff);
    assert_eq!(dump[21], 0x7f);
    assert_eq!(dump[22], 0);
    assert!(!m.halted());
    assert_eq!(m.get_register(0), 0);
}

#[test]
fn scenario_add_then_out() {
    // add reg0, reg1, 60 then out reg0; the zero word after it halts.
    let mut m = Machine::new(prog_bytes(&[9, 32768, 32769, 60, 19, 32768]));
    run_to_halt(&mut m, 10);
    assert_eq!(m.get_register(0), 60);
    assert_eq!(m.take_output(), b"<".to_vec());
    assert!(m.halted());
}

#[test]
fn scenario_hello_world() {
    let text = "Hello World!\n";
    let mut words = Vec::new();
    for byte in text.bytes() {
        words.push(19);
        words.push(byte as u16);
    }
    words.push(0);
    let mut m = Machine::new(prog_bytes(&words));
    run_to_halt(&mut m, 2 * text.len() + 2);
    assert_eq!(String::from_utf8(m.take_output()).unwrap(), text);
    assert!(m.halted());
}

#[test]
fn add_wraps_modulo_32768() {
    let mut m = Machine::new(prog_bytes(&[9, 32768, 32767, 1, 0]));
    run_to_halt(&mut m, 5);
    assert_eq!(m.get_register(0), 0);
}

#[test]
fn mult_wraps_modulo_32768() {
    let mut m = Machine::new(prog_bytes(&[10, 32768, 1234, 4321, 0]));
    run_to_halt(&mut m, 5);
    assert_eq!(m.get_register(0), (1234u32 * 4321 % 32768) as u16);
    assert_eq!(m.get_register(0), 23698);
}

#[test]
fn mod_is_true_remainder() {
    let mut m = Machine::new(prog_bytes(&[11, 32768, 17, 5, 0]));
    run_to_halt(&mut m, 5);
    assert_eq!(m.get_register(0), 2);
}

#[test]
fn and_or_not_are_bitwise_15_bit() {
    let mut m = Machine::new(prog_bytes(&[
        12, 32768, 0b1100, 0b1010, // and -> 0b1000
        13, 32769, 0b1100, 0b1010, // or  -> 0b1110
        14, 32770, 0, // not -> 0x7fff
        0,
    ]));
    run_to_halt(&mut m, 10);
    assert_eq!(m.get_register(0), 0b1000);
    assert_eq!(m.get_register(1), 0b1110);
    assert_eq!(m.get_register(2), 0x7fff);
}

#[test]
fn eq_gt_store_exactly_zero_or_one() {
    let mut m = Machine::new(prog_bytes(&[
        4, 32768, 7, 7, // eq: 7 == 7 -> 1
        4, 32769, 7, 8, // eq: 7 == 8 -> 0
        5, 32770, 9, 8, // gt: 9 > 8 -> 1
        5, 32771, 8, 9, // gt: 8 > 9 -> 0
        0,
    ]));
    run_to_halt(&mut m, 10);
    assert_eq!(m.get_register(0), 1);
    assert_eq!(m.get_register(1), 0);
    assert_eq!(m.get_register(2), 1);
    assert_eq!(m.get_register(3), 0);
}

#[test]
fn jumps_follow_conditions() {
    // jmp 6; (dead: set reg0 to 9); at 6: jt 0, 100 (not taken);
    // at 9: jf 0, 13 (taken); at 13: halt with reg0 untouched.
    let mut m = Machine::new(prog_bytes(&[
        6, 6, 0, 1, 32768, 9, 7, 0, 100, 8, 0, 13, 0, 0,
    ]));
    run_to_halt(&mut m, 10);
    assert_eq!(m.get_register(0), 0);
}

#[test]
fn call_pushes_advanced_return_address() {
    // call 4 from address 0 pushes 2; at 4: ret jumps back to 2; at 2: halt.
    let mut m = Machine::new(prog_bytes(&[17, 4, 0, 0, 18]));
    assert!(matches!(m.step(), Ok(StepOutcome::Stepped)));
    assert_eq!(m.pc, 4);
    assert!(matches!(m.step(), Ok(StepOutcome::Stepped)));
    assert_eq!(m.pc, 2);
    assert!(matches!(m.step(), Ok(StepOutcome::Stepped)));
    assert!(m.halted());
}

#[test]
fn push_pop_move_values() {
    // push 42; pop reg3; halt.
    let mut m = Machine::new(prog_bytes(&[2, 42, 3, 32771, 0]));
    run_to_halt(&mut m, 5);
    assert_eq!(m.get_register(3), 42);
}

#[test]
fn ret_on_empty_stack_halts_gracefully() {
    let mut m = Machine::new(prog_bytes(&[18]));
    assert!(matches!(m.step(), Ok(StepOutcome::Stepped)));
    assert!(m.halted());
}

#[test]
fn stepping_a_halted_machine_is_a_noop() {
    let mut m = Machine::new(prog_bytes(&[0, 21]));
    assert!(matches!(m.step(), Ok(StepOutcome::Stepped)));
    assert!(m.halted());
    let pc = m.pc;
    assert!(matches!(m.step(), Ok(StepOutcome::Stepped)));
    assert!(m.halted());
    assert_eq!(m.pc, pc);
}

#[test]
fn invalid_opcode_is_fatal() {
    let mut m = Machine::new(prog_bytes(&[22]));
    assert_eq!(m.step(), Err(Fault::InvalidOpcode));
    assert!(!m.halted());
}

#[test]
fn invalid_register_operand_is_fatal() {
    let mut m = Machine::new(prog_bytes(&[1, 32776, 0]));
    assert_eq!(m.step(), Err(Fault::InvalidRegister));
}

#[test]
fn pop_on_empty_stack_is_fatal() {
    let mut m = Machine::new(prog_bytes(&[3, 32768]));
    assert_eq!(m.step(), Err(Fault::StackUnderflow));
}

#[test]
fn mod_by_zero_is_fatal() {
    let mut m = Machine::new(prog_bytes(&[11, 32768, 17, 0]));
    assert_eq!(m.step(), Err(Fault::DivisionByZero));
}

#[test]
fn out_beyond_one_byte_is_fatal() {
    let mut m = Machine::new(prog_bytes(&[19, 300]));
    assert_eq!(m.step(), Err(Fault::UnprintableValue));
}

#[test]
fn rmem_out_of_range_is_fatal() {
    // rmem reg0, reg1 with reg1 holding an address beyond memory.
    let mut m = Machine::new(prog_bytes(&[15, 32768, 32769]));
    m.set_reg(1, 0x8000);
    assert_eq!(m.step(), Err(Fault::OutOfRangeAddress));
}

#[test]
fn wmem_writes_resolved_address() {
    // wmem 100, 7 then rmem reg0, 100; halt.
    let mut m = Machine::new(prog_bytes(&[16, 100, 7, 15, 32768, 100, 0]));
    run_to_halt(&mut m, 5);
    assert_eq!(m.get_register(0), 7);
}

#[test]
fn in_blocks_until_input_then_stores_byte() {
    let mut m = Machine::new(prog_bytes(&[20, 32768, 0]));
    assert!(matches!(m.step(), Ok(StepOutcome::NeedInput)));
    assert_eq!(m.pc, 0);
    m.push_input(65);
    assert!(matches!(m.step(), Ok(StepOutcome::Stepped)));
    assert_eq!(m.get_register(0), 65);
    run_to_halt(&mut m, 3);
}

#[test]
fn fetch_past_end_of_memory_is_fatal() {
    let mut m = Machine::new(prog_bytes(&[6, 0x7ffe])); // jmp 0x7ffe
    assert!(matches!(m.step(), Ok(StepOutcome::Stepped)));
    assert_eq!(m.step(), Err(Fault::OutOfRangeAddress));
}
