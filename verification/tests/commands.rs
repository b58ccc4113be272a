//! Tests of the command protocol and the debug-session state machine:
//! answers, state changes, malformed commands, triggers, and the
//! request/re-entry flow of `debugger_step`.

use std::sync::mpsc;
use synacor_vm::debugger::CmdEffect;
use synacor_vm::debugger::Debugger;
use synacor_vm::debugger::SessionReq;
use synacor_vm::machine::Fault;
use synacor_vm::machine::Machine;

fn prog_bytes(words: &[u16]) -> Vec<u8> {
    let mut bytes = Vec::new();
    for w in words {
        bytes.push((w % 256) as u8);
        bytes.push((w / 256) as u8);
    }
    bytes
}

fn session() -> (Debugger, mpsc::Sender<String>, mpsc::Receiver<String>) {
    let (ans_tx, ans_rx) = mpsc::channel();
    let (cmd_tx, cmd_rx) = mpsc::channel();
    (Debugger::new(ans_tx, cmd_rx), cmd_tx, ans_rx)
}

fn answer(d: &mut Debugger, m: &mut Machine, line: &str) -> String {
    let o = d.process_command(line, m);
    o.answer.expect("command should answer directly")
}

#[test]
fn set_then_get_reports_hex_value() {
    let (mut d, _tx, _rx) = session();
    let mut m = Machine::new(Vec::new());
    assert_eq!(answer(&mut d, &mut m, "set 0 65"), "Set reg 0 to 0x41");
    assert_eq!(answer(&mut d, &mut m, "get 0"), "reg[0]=0x41");
    assert_eq!(m.get_register(0), 65);
}

#[test]
fn stop_then_malformed_set_keeps_state() {
    let (mut d, _tx, _rx) = session();
    let mut m = Machine::new(Vec::new());
    d.running = true;
    assert_eq!(answer(&mut d, &mut m, "stop"), "stopped");
    assert!(!d.running);
    assert_eq!(answer(&mut d, &mut m, "set 9"), "Invalid set command!");
    assert!(!d.running);
    for i in 0..8 {
        assert_eq!(m.get_register(i), 0);
    }
}

#[test]
fn set_with_out_of_range_register_is_invalid() {
    let (mut d, _tx, _rx) = session();
    let mut m = Machine::new(Vec::new());
    assert_eq!(answer(&mut d, &mut m, "set 8 5"), "Invalid set command!");
    assert_eq!(answer(&mut d, &mut m, "get 8"), "Invalid get command!");
    assert_eq!(answer(&mut d, &mut m, "set 0 notanumber"), "Invalid set command!");
}

#[test]
fn continue_and_unknown_commands() {
    let (mut d, _tx, _rx) = session();
    let mut m = Machine::new(Vec::new());
    assert_eq!(answer(&mut d, &mut m, "c"), "continued");
    assert!(d.running);
    assert_eq!(answer(&mut d, &mut m, "frobnicate"), "Unknown command!");
    assert!(d.running);
}

#[test]
fn break_and_watch_answers_in_hex() {
    let (mut d, _tx, _rx) = session();
    let mut m = Machine::new(Vec::new());
    assert_eq!(answer(&mut d, &mut m, "break 41"), "breakpoint at 0x0041");
    assert_eq!(answer(&mut d, &mut m, "watch 8000"), "watchpoint on 0x8000");
    assert_eq!(d.breakpoints, vec![0x41]);
    assert_eq!(d.watchpoints, vec![0x8000]);
    assert_eq!(answer(&mut d, &mut m, "break"), "Invalid break (break addr(hex))");
    assert_eq!(answer(&mut d, &mut m, "watch zz"), "Invalid watch (watch value(hex))");
}

#[test]
fn empty_command_reports_next_instruction_and_steps() {
    let (mut d, _tx, _rx) = session();
    let mut m = Machine::new(prog_bytes(&[9, 32768, 32769, 60]));
    let o = d.process_command("", &mut m);
    assert!(o.single_step);
    assert_eq!(o.answer.unwrap(), "0x0000: add  8000 8001   3c");
}

#[test]
fn dis_command_renders_range() {
    let (mut d, _tx, _rx) = session();
    let mut m = Machine::new(prog_bytes(&[19, 32768, 0]));
    assert_eq!(
        answer(&mut d, &mut m, "dis 0 2"),
        "0x0000: out  8000\n0x0002: halt\n"
    );
    assert_eq!(
        answer(&mut d, &mut m, "dis 0"),
        "Invalid dis (dis start(hex) length(dec))"
    );
}

#[test]
fn checkpoint_hands_out_snapshot_bytes() {
    let (mut d, _tx, _rx) = session();
    let mut m = Machine::new(Vec::new());
    let o = d.process_command("dump", &mut m);
    assert_eq!(o.answer.unwrap(), "dumped to state.bin (65554 bytes)");
    match o.effect {
        CmdEffect::Save(bytes) => {
            assert_eq!(bytes.len(), 65554);
            assert_eq!(bytes, m.dump());
        }
        other => panic!("expected a save request, got {:?}", other),
    }
}

#[test]
fn restore_defers_to_finish_load() {
    let (mut d, _tx, rx) = session();
    let mut m = Machine::new(Vec::new());
    let o = d.process_command("restore", &mut m);
    assert!(o.answer.is_none());
    assert!(matches!(o.effect, CmdEffect::Load));

    // unreadable snapshot: answered, machine untouched
    assert_eq!(d.finish_load(&mut m, None), Ok(()));
    assert_eq!(rx.try_recv().unwrap(), "Cant read state");

    // a valid snapshot restores and answers with the byte count
    let mut src = Machine::new(prog_bytes(&[21, 21]));
    src.set_reg(2, 999);
    let saved = src.dump();
    assert_eq!(d.finish_load(&mut m, Some(saved)), Ok(()));
    assert_eq!(rx.try_recv().unwrap(), "restored state.bin (65554 bytes)");
    assert_eq!(m.get_register(2), 999);

    // a malformed snapshot is fatal
    assert_eq!(
        d.finish_load(&mut m, Some(vec![1, 2, 3])),
        Err(Fault::MalformedSnapshot)
    );
    assert_eq!(m.get_register(2), 999);
}

#[test]
fn breakpoint_stops_session_at_its_address() {
    let (mut d, cmd_tx, _rx) = session();
    let mut m = Machine::new(prog_bytes(&[21, 21]));
    let mut other = Machine::new(prog_bytes(&[21, 21]));
    other.step().unwrap();
    d.running = true;
    d.process_command("break 1", &mut m);

    // pc = 0: no trigger, session stays running
    d.check_triggers(&m);
    assert!(d.running);
    // pc = 1: the breakpoint forces Stopped, whatever the prior state
    d.check_triggers(&other);
    assert!(!d.running);
    d.running = true;
    drop(cmd_tx);
    assert!(matches!(d.debugger_step(&mut other), SessionReq::Proceed));
    assert!(!d.running);
}

#[test]
fn watchpoint_stops_on_raw_operand_word() {
    let (mut d, _tx, _rx) = session();
    // next instruction: add reg0, reg1, 60 - raw operands 8000 8001 3c
    let m = Machine::new(prog_bytes(&[9, 32768, 32769, 60]));
    d.running = true;
    d.process_command("watch 3c", &mut Machine::new(Vec::new()));
    d.check_triggers(&m);
    assert!(!d.running);

    // a watched register reference fires on the raw word, not its value
    let (mut d2, _tx2, _rx2) = session();
    d2.running = true;
    d2.process_command("watch 8001", &mut Machine::new(Vec::new()));
    d2.check_triggers(&m);
    assert!(!d2.running);

    // an absent word does not fire
    let (mut d3, _tx3, _rx3) = session();
    d3.running = true;
    d3.process_command("watch 3d", &mut Machine::new(Vec::new()));
    d3.check_triggers(&m);
    assert!(d3.running);
}

#[test]
fn session_drains_queue_while_running() {
    let (mut d, cmd_tx, ans_rx) = session();
    let mut m = Machine::new(Vec::new());
    cmd_tx.send("c".to_string()).unwrap();
    cmd_tx.send("set 0 65".to_string()).unwrap();

    // Stopped: blocks, takes "c", goes Running, asks to be consulted again
    assert!(matches!(d.debugger_step(&mut m), SessionReq::Again));
    assert!(d.running);
    assert_eq!(ans_rx.try_recv().unwrap(), "continued");
    // Running: drains the queued set without blocking
    assert!(matches!(d.debugger_step(&mut m), SessionReq::Again));
    assert_eq!(ans_rx.try_recv().unwrap(), "Set reg 0 to 0x41");
    // queue empty: the engine may step
    assert!(matches!(d.debugger_step(&mut m), SessionReq::Proceed));
    assert_eq!(m.get_register(0), 65);
}

#[test]
fn single_step_command_releases_one_step() {
    let (mut d, cmd_tx, ans_rx) = session();
    let mut m = Machine::new(prog_bytes(&[21, 0]));
    cmd_tx.send("".to_string()).unwrap();
    assert!(matches!(d.debugger_step(&mut m), SessionReq::Proceed));
    assert!(!d.running);
    assert_eq!(ans_rx.try_recv().unwrap(), "0x0000: noop");
}

#[test]
fn save_request_carries_dump_through_session() {
    let (mut d, cmd_tx, ans_rx) = session();
    let mut m = Machine::new(Vec::new());
    cmd_tx.send("dump".to_string()).unwrap();
    match d.debugger_step(&mut m) {
        SessionReq::Save(bytes) => assert_eq!(bytes, m.dump()),
        other => panic!("expected a save request, got {:?}", other),
    }
    assert_eq!(ans_rx.try_recv().unwrap(), "dumped to state.bin (65554 bytes)");
}
