//! Tests of state persistence: the fixed byte layout, the round trip, and
//! the rejection of malformed buffers.

use synacor_vm::machine::Fault;
use synacor_vm::machine::Machine;
use synacor_vm::machine::StepOutcome;

fn prog_bytes(words: &[u16]) -> Vec<u8> {
    let mut bytes = Vec::new();
    for w in words {
        bytes.push((w % 256) as u8);
        bytes.push((w / 256) as u8);
    }
    bytes
}

#[test]
fn dump_has_fixed_layout_and_length() {
    let mut m = Machine::new(prog_bytes(&[2, 42, 2, 7, 0])); // push 42; push 7; halt
    while !m.halted() {
        assert!(matches!(m.step(), Ok(StepOutcome::Stepped)));
    }
    let bytes = m.dump();
    assert_eq!(bytes.len(), 2 * (1 + 8 + 32768 + 2));
    // pc: halted after the fifth word
    assert_eq!(bytes[0], 5);
    assert_eq!(bytes[1], 0);
    // memory starts after pc + 8 registers
    assert_eq!(bytes[18], 2);
    assert_eq!(bytes[20], 42);
    // stack bottom-to-top at the tail
    assert_eq!(bytes[bytes.len() - 4], 42);
    assert_eq!(bytes[bytes.len() - 2], 7);
}

#[test]
fn restore_of_dump_reproduces_machine() {
    let mut m = Machine::new(prog_bytes(&[9, 32768, 32769, 60, 2, 32768, 6, 100]));
    m.set_reg(1, 77);
    // run: add, push, jmp 100
    for _ in 0..3 {
        assert!(matches!(m.step(), Ok(StepOutcome::Stepped)));
    }
    let saved = m.dump();

    let mut fresh = Machine::new(Vec::new());
    assert_eq!(fresh.restore(&saved), Ok(()));
    assert_eq!(fresh.pc, m.pc);
    assert_eq!(fresh.pc, 100);
    assert_eq!(fresh.get_register(0), 77 + 60);
    assert_eq!(fresh.get_register(1), 77);
    // a second dump of the restored machine is byte-identical
    assert_eq!(fresh.dump(), saved);
}

#[test]
fn restore_does_not_touch_halted_flag_or_io() {
    let mut m = Machine::new(prog_bytes(&[19, 33, 0])); // out '!'; halt
    while !m.halted() {
        assert!(matches!(m.step(), Ok(StepOutcome::Stepped)));
    }
    let saved = m.dump();
    let mut fresh = Machine::new(Vec::new());
    fresh.push_input(9);
    assert_eq!(fresh.restore(&saved), Ok(()));
    assert!(!fresh.halted());
    assert_eq!(fresh.take_output(), Vec::<u8>::new());
}

#[test]
fn restore_rejects_short_buffer() {
    let mut m = Machine::new(Vec::new());
    assert_eq!(m.restore(&[1, 2, 3, 4]), Err(Fault::MalformedSnapshot));
    assert_eq!(m.pc, 0);
}

#[test]
fn restore_rejects_odd_length() {
    let m0 = Machine::new(Vec::new());
    let mut bytes = m0.dump();
    bytes.push(0xaa); // odd stack tail
    let mut m = Machine::new(prog_bytes(&[21]));
    assert_eq!(m.restore(&bytes), Err(Fault::MalformedSnapshot));
    // rejected unchanged: memory[0] still the noop
    assert_eq!(m.dump()[18], 21);
}

#[test]
fn restore_reads_stack_tail() {
    let mut m = Machine::new(prog_bytes(&[2, 10, 2, 20, 2, 30, 0]));
    while !m.halted() {
        assert!(matches!(m.step(), Ok(StepOutcome::Stepped)));
    }
    let saved = m.dump();
    // restored machine pops in reverse push order: program at 0 is ret,
    // which jumps to the top of the restored stack (30).
    let mut fresh = Machine::new(prog_bytes(&[18]));
    assert_eq!(fresh.restore(&saved), Ok(()));
    // pc restored to the halt address; force it back to a ret instruction
    let mut patched = saved.clone();
    patched[0] = 0;
    patched[1] = 0;
    patched[18] = 18;
    patched[19] = 0;
    assert_eq!(fresh.restore(&patched), Ok(()));
    assert!(matches!(fresh.step(), Ok(StepOutcome::Stepped)));
    assert_eq!(fresh.pc, 30);
}
