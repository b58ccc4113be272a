//! The debug session: a `Stopped`/`Running` state machine gating engine
//! stepping, breakpoint and watchpoint evaluation, and the text command
//! protocol.
//!
//! The session owns its side of two one-directional channels (commands in,
//! answers out); the engine is only ever touched from here, never from the
//! transport.  File access for the snapshot commands cannot happen here
//! either: `debugger_step` instead returns a request (`Save` with the bytes
//! to write, or `Load`), the caller performs the file operation, completes a
//! load with `finish_load`, and calls `debugger_step` again.  The driver
//! loop is therefore: call `debugger_step` until it returns `Proceed`,
//! honouring `Save`/`Load` requests in between, then step the engine once.

use vstd::prelude::*;
use vstd::string::StrSliceExecFns;
use vstd::string::StringExecFns;
use std::sync::mpsc::Receiver;
use std::sync::mpsc::Sender;
use crate::channel::recv_line;
use crate::channel::send_line;
use crate::channel::try_recv_line;
use crate::disasm::dis_text;
use crate::disasm::op_text;
use crate::disasm::push_op_text;
use crate::machine::Fault;
use crate::machine::Machine;
use crate::machine::State;
use crate::machine::decode;
use crate::machine::operands;
use crate::machine::restored_state;
use crate::machine::snapshot_bytes;
use crate::machine::snapshot_len_ok;
use crate::text::dec_chars;
use crate::text::dec_val;
use crate::text::hex_0x;
use crate::text::hex_0x4;
use crate::text::hex_val;
use crate::text::is_dec_string;
use crate::text::is_hex_string;
use crate::text::parse_dec_u16;
use crate::text::parse_hex_u16;
use crate::text::push_dec;
use crate::text::push_hex_0x;
use crate::text::push_hex_0x4;
use crate::text::split_spaces;
use crate::text::tok_is;
use crate::text::tokens_of;

verus! {

/// A parsed command line.  Malformed arity or unparsable numeric arguments
/// become the matching `Invalid...` variant: they produce an error answer
/// and never change session or engine state.
#[derive(Clone, Copy, Debug, PartialEq, Eq, Structural)]
pub enum Command {
    /// `dump`: persist engine state to the snapshot location.
    Checkpoint,
    /// `restore`: load engine state from the snapshot location.
    Restore,
    /// `set <reg dec> <val dec>`: write a register.
    SetRegister(u16, u16),
    /// `get <reg dec>`: read a register.
    GetRegister(u16),
    /// `stop`: force the session to `Stopped`.
    Stop,
    /// `c`: force the session to `Running`.
    Continue,
    /// `break <addr hex>`: add a breakpoint address.
    AddBreak(u16),
    /// `watch <value hex>`: add a watchpoint value.
    AddWatch(u16),
    /// The empty command: report the next instruction and single-step.
    Inspect,
    /// `dis <start hex> <count dec>`: disassemble a range.
    Dis(u16, u16),
    /// `disall`: disassemble the whole address space.
    DisAll,
    InvalidSet,
    InvalidGet,
    InvalidDis,
    InvalidBreak,
    InvalidWatch,
    Unknown,
}

/// What a processed command asks the caller to do with the snapshot file.
#[derive(Debug)]
pub enum CmdEffect {
    Nothing,
    /// Write these bytes to the snapshot location.
    Save(Vec<u8>),
    /// Read the snapshot location and hand the bytes to `finish_load`.
    Load,
}

/// The outcome of one processed command.  `answer` is `None` only for a
/// `Load` effect, whose answer `finish_load` produces once the bytes are in.
#[derive(Debug)]
pub struct CmdOutcome {
    pub answer: Option<String>,
    pub single_step: bool,
    pub effect: CmdEffect,
}

/// What the caller must do next after consulting the session.
#[derive(Debug)]
pub enum SessionReq {
    /// Perform one engine step, then consult the session again.
    Proceed,
    /// Consult the session again before stepping.
    Again,
    /// Write the bytes to the snapshot location, then consult again.
    Save(Vec<u8>),
    /// Read the snapshot location, call `finish_load`, then consult again.
    Load,
}

/// Parsing a command line: split on spaces, token 0 selects the operation.
/// An empty token 0 (empty line, or a line starting with a space) is the
/// inspect/single-step command.
pub open spec fn parse_command(line: Seq<char>) -> Command {
    let toks = tokens_of(line);
    let t0 = toks[0];
    if t0.len() == 0 {
        Command::Inspect
    } else if t0 == "dump"@ {
        Command::Checkpoint
    } else if t0 == "restore"@ {
        Command::Restore
    } else if t0 == "set"@ {
        if toks.len() == 3 && is_dec_string(toks[1]) && dec_val(toks[1]) <= 0xffff
            && is_dec_string(toks[2]) && dec_val(toks[2]) <= 0xffff {
            Command::SetRegister(dec_val(toks[1]) as u16, dec_val(toks[2]) as u16)
        } else {
            Command::InvalidSet
        }
    } else if t0 == "get"@ {
        if toks.len() == 2 && is_dec_string(toks[1]) && dec_val(toks[1]) <= 0xffff {
            Command::GetRegister(dec_val(toks[1]) as u16)
        } else {
            Command::InvalidGet
        }
    } else if t0 == "stop"@ {
        Command::Stop
    } else if t0 == "c"@ {
        Command::Continue
    } else if t0 == "break"@ {
        if toks.len() == 2 && is_hex_string(toks[1]) && hex_val(toks[1]) <= 0xffff {
            Command::AddBreak(hex_val(toks[1]) as u16)
        } else {
            Command::InvalidBreak
        }
    } else if t0 == "watch"@ {
        if toks.len() == 2 && is_hex_string(toks[1]) && hex_val(toks[1]) <= 0xffff {
            Command::AddWatch(hex_val(toks[1]) as u16)
        } else {
            Command::InvalidWatch
        }
    } else if t0 == "dis"@ {
        if toks.len() == 3 && is_hex_string(toks[1]) && hex_val(toks[1]) <= 0xffff
            && is_dec_string(toks[2]) && dec_val(toks[2]) <= 0xffff {
            Command::Dis(hex_val(toks[1]) as u16, dec_val(toks[2]) as u16)
        } else {
            Command::InvalidDis
        }
    } else if t0 == "disall"@ {
        Command::DisAll
    } else {
        Command::Unknown
    }
}

/// How a command changes the machine: only a well-formed `set` writes a
/// register; everything else leaves the machine alone.
pub open spec fn next_machine(c: Command, m: State) -> State {
    match c {
        Command::SetRegister(i, v) => if i < 8 {
            State { regs: m.regs.update(i as int, v), ..m }
        } else {
            m
        },
        _ => m,
    }
}

/// How a command changes the run-state: `stop` and `c` force it, nothing
/// else touches it.
pub open spec fn next_running(c: Command, running: bool) -> bool {
    match c {
        Command::Stop => false,
        Command::Continue => true,
        _ => running,
    }
}

/// How a command changes the breakpoint set.
pub open spec fn next_breakpoints(c: Command, bps: Seq<u16>) -> Seq<u16> {
    match c {
        Command::AddBreak(a) => bps.push(a),
        _ => bps,
    }
}

/// How a command changes the watchpoint set.
pub open spec fn next_watchpoints(c: Command, wps: Seq<u16>) -> Seq<u16> {
    match c {
        Command::AddWatch(v) => wps.push(v),
        _ => wps,
    }
}

/// Whether the command asks the caller to perform exactly one engine step.
pub open spec fn wants_step(c: Command) -> bool {
    c is Inspect
}

/// The answer a command produces, over the machine state it found.  `None`
/// only for `restore`, whose answer depends on the file read that
/// `finish_load` completes.
pub open spec fn answer_text(c: Command, m: State) -> Option<Seq<char>> {
    match c {
        Command::Checkpoint => Option::Some(
            "dumped to state.bin ("@ + dec_chars((2 * (0x8009 + m.stack.len())) as nat)
                + " bytes)"@,
        ),
        Command::Restore => Option::None,
        Command::SetRegister(i, v) => Option::Some(
            if i < 8 {
                "Set reg "@ + dec_chars(i as nat) + " to "@ + hex_0x(v as nat)
            } else {
                "Invalid set command!"@
            },
        ),
        Command::GetRegister(i) => Option::Some(
            if i < 8 {
                "reg["@ + dec_chars(i as nat) + "]="@ + hex_0x(m.regs[i as int] as nat)
            } else {
                "Invalid get command!"@
            },
        ),
        Command::Stop => Option::Some("stopped"@),
        Command::Continue => Option::Some("continued"@),
        Command::AddBreak(a) => Option::Some("breakpoint at "@ + hex_0x4(a as nat)),
        Command::AddWatch(v) => Option::Some("watchpoint on "@ + hex_0x4(v as nat)),
        Command::Inspect => Option::Some(
            if m.pc <= 0x7ffc {
                hex_0x4(m.pc as nat) + ": "@ + op_text(decode(m.mem, m.pc as int))
            } else {
                hex_0x4(m.pc as nat) + ": (end of memory)"@
            },
        ),
        Command::Dis(start, count) => Option::Some(dis_text(m.mem, start as int, count as int)),
        Command::DisAll => Option::Some(dis_text(m.mem, 0, 0x8000)),
        Command::InvalidSet => Option::Some("Invalid set command!"@),
        Command::InvalidGet => Option::Some("Invalid get command!"@),
        Command::InvalidDis => Option::Some("Invalid dis (dis start(hex) length(dec))"@),
        Command::InvalidBreak => Option::Some("Invalid break (break addr(hex))"@),
        Command::InvalidWatch => Option::Some("Invalid watch (watch value(hex))"@),
        Command::Unknown => Option::Some("Unknown command!"@),
    }
}

/// A breakpoint fires when the engine's current program counter is in the
/// breakpoint set.
pub open spec fn breakpoint_hit(bps: Seq<u16>, m: State) -> bool {
    bps.contains(m.pc)
}

/// A watchpoint fires when the instruction that would run next carries a
/// watched value among its raw operand words.  The comparison is over raw
/// operand words, not resolved values or effective addresses: a watched
/// value in the register-reference range fires on the reference itself.
/// Where the program counter sits too close to the end of memory to decode,
/// no operands exist and no watchpoint fires.
pub open spec fn watchpoint_hit(wps: Seq<u16>, m: State) -> bool {
    m.pc <= 0x7ffc && exists|i: int|
        0 <= i < operands(decode(m.mem, m.pc as int)).len() && wps.contains(
            #[trigger] operands(decode(m.mem, m.pc as int))[i],
        )
}

/// The debug session.  `running` is the run-state (`false` is `Stopped`,
/// the initial state); `checked_triggers` remembers whether breakpoints and
/// watchpoints were already consulted for the step currently proposed, so
/// that re-entries after `Again`/`Save`/`Load` do not re-evaluate them.
pub struct Debugger {
    pub tx: Sender<String>,
    pub rx: Receiver<String>,
    pub running: bool,
    pub breakpoints: Vec<u16>,
    pub watchpoints: Vec<u16>,
    pub checked_triggers: bool,
}

/// Whether a vector holds a word.
fn contains_u16(v: &Vec<u16>, x: u16) -> (r: bool)
    ensures
        r == v@.contains(x),
{
    let mut i: usize = 0;
    while i < v.len()
        invariant
            i <= v@.len(),
            forall|j: int| 0 <= j < i ==> v@[j] != x,
        decreases v@.len() - i,
    {
        if v[i] == x {
            return true;
        }
        i = i + 1;
    }
    false
}

/// The raw operand words of a decoded instruction.
fn op_operands(op: &crate::machine::Operation) -> (r: Vec<u16>)
    ensures
        r@ == operands(*op),
{
    let mut v: Vec<u16> = Vec::new();
    match *op {
        crate::machine::Operation::Halt()
        | crate::machine::Operation::Ret()
        | crate::machine::Operation::Noop()
        | crate::machine::Operation::Invalid() => {},
        crate::machine::Operation::Push(a)
        | crate::machine::Operation::Pop(a)
        | crate::machine::Operation::Jmp(a)
        | crate::machine::Operation::Call(a)
        | crate::machine::Operation::Out(a)
        | crate::machine::Operation::In(a) => {
            v.push(a);
        },
        crate::machine::Operation::SetReg(a, b)
        | crate::machine::Operation::Jt(a, b)
        | crate::machine::Operation::Jf(a, b)
        | crate::machine::Operation::Not(a, b)
        | crate::machine::Operation::Rmem(a, b)
        | crate::machine::Operation::Wmem(a, b) => {
            v.push(a);
            v.push(b);
        },
        crate::machine::Operation::Eq(a, b, c)
        | crate::machine::Operation::Gt(a, b, c)
        | crate::machine::Operation::Add(a, b, c)
        | crate::machine::Operation::Mult(a, b, c)
        | crate::machine::Operation::Mod(a, b, c)
        | crate::machine::Operation::And(a, b, c)
        | crate::machine::Operation::Or(a, b, c) => {
            v.push(a);
            v.push(b);
            v.push(c);
        },
    }
    proof {
        assert(v@ =~= operands(*op));
    }
    v
}

/// A sequence is a prefix of itself.
proof fn lemma_prefix_reflexive(s: Seq<u16>)
    ensures
        s.is_prefix_of(s),
{
    assert(s.subrange(0, s.len() as int) =~= s);
}

/// A sequence is a prefix of itself with one element appended.
proof fn lemma_prefix_push(s: Seq<u16>, x: u16)
    ensures
        s.is_prefix_of(s.push(x)),
{
    assert(s.push(x).subrange(0, s.len() as int) =~= s);
}

impl Debugger {
    /// A fresh session: `Stopped`, with no breakpoints and no watchpoints,
    /// attached to its command and answer channels.
    pub fn new(tx: Sender<String>, rx: Receiver<String>) -> (d: Debugger)
        ensures
            !d.running,
            d.breakpoints@ == Seq::<u16>::empty(),
            d.watchpoints@ == Seq::<u16>::empty(),
            !d.checked_triggers,
    {
        let d = Debugger {
            tx,
            rx,
            running: false,
            breakpoints: Vec::new(),
            watchpoints: Vec::new(),
            checked_triggers: false,
        };
        proof {
            assert(d.breakpoints@ =~= Seq::<u16>::empty());
            assert(d.watchpoints@ =~= Seq::<u16>::empty());
        }
        d
    }

    /// Evaluates the two trigger mechanisms against the proposed next step:
    /// the session ends up `Running` exactly when it was `Running` before
    /// and neither a breakpoint (current pc in the breakpoint set) nor a
    /// watchpoint (a watched value among the next instruction's raw operand
    /// words) fires.  A firing trigger overrides `Running`; nothing here
    /// ever starts the machine.
    pub fn check_triggers(&mut self, m: &Machine)
        requires
            m.wf(),
        ensures
            final(self).running == (old(self).running && !breakpoint_hit(
                old(self).breakpoints@,
                m@,
            ) && !watchpoint_hit(old(self).watchpoints@, m@)),
            final(self).breakpoints == old(self).breakpoints,
            final(self).watchpoints == old(self).watchpoints,
            final(self).checked_triggers == old(self).checked_triggers,
            final(self).tx == old(self).tx,
            final(self).rx == old(self).rx,
    {
        if contains_u16(&self.breakpoints, m.pc) {
            self.running = false;
        }
        if m.pc <= 0x7ffc {
            let op = m.fetch_at(m.pc);
            let ops = op_operands(&op);
            let mut i: usize = 0;
            while i < ops.len()
                invariant
                    ops@ == operands(decode(m@.mem, m@.pc as int)),
                    i <= ops@.len(),
                    self.breakpoints == old(self).breakpoints,
                    self.watchpoints == old(self).watchpoints,
                    self.checked_triggers == old(self).checked_triggers,
                    self.tx == old(self).tx,
                    self.rx == old(self).rx,
                    self.running == (old(self).running && !breakpoint_hit(
                        old(self).breakpoints@,
                        m@,
                    ) && !(exists|j: int|
                        0 <= j < i && old(self).watchpoints@.contains(#[trigger] ops@[j]))),
                decreases ops@.len() - i,
            {
                if contains_u16(&self.watchpoints, ops[i]) {
                    self.running = false;
                }
                i = i + 1;
            }
        }
    }
}


/// Parses one command line exactly as `parse_command` describes.
pub fn parse_line(line: &str) -> (c: Command)
    ensures
        c == parse_command(line@),
{
    let toks = split_spaces(line);
    proof {
        assert(tokens_of(line@).len() >= 1);
    }
    let t0 = &toks[0];
    if t0.as_str().unicode_len() == 0 {
        Command::Inspect
    } else if tok_is(t0, "dump") {
        Command::Checkpoint
    } else if tok_is(t0, "restore") {
        Command::Restore
    } else if tok_is(t0, "set") {
        if toks.len() == 3 {
            match (parse_dec_u16(toks[1].as_str()), parse_dec_u16(toks[2].as_str())) {
                (Some(i), Some(v)) => Command::SetRegister(i, v),
                _ => Command::InvalidSet,
            }
        } else {
            Command::InvalidSet
        }
    } else if tok_is(t0, "get") {
        if toks.len() == 2 {
            match parse_dec_u16(toks[1].as_str()) {
                Some(i) => Command::GetRegister(i),
                None => Command::InvalidGet,
            }
        } else {
            Command::InvalidGet
        }
    } else if tok_is(t0, "stop") {
        Command::Stop
    } else if tok_is(t0, "c") {
        Command::Continue
    } else if tok_is(t0, "break") {
        if toks.len() == 2 {
            match parse_hex_u16(toks[1].as_str()) {
                Some(a) => Command::AddBreak(a),
                None => Command::InvalidBreak,
            }
        } else {
            Command::InvalidBreak
        }
    } else if tok_is(t0, "watch") {
        if toks.len() == 2 {
            match parse_hex_u16(toks[1].as_str()) {
                Some(v) => Command::AddWatch(v),
                None => Command::InvalidWatch,
            }
        } else {
            Command::InvalidWatch
        }
    } else if tok_is(t0, "dis") {
        if toks.len() == 3 {
            match (parse_hex_u16(toks[1].as_str()), parse_dec_u16(toks[2].as_str())) {
                (Some(start), Some(count)) => Command::Dis(start, count),
                _ => Command::InvalidDis,
            }
        } else {
            Command::InvalidDis
        }
    } else if tok_is(t0, "disall") {
        Command::DisAll
    } else {
        Command::Unknown
    }
}

impl Debugger {
    /// Processes one command line to completion against the machine:
    /// parsing, dispatch, the state change, and the answer, exactly as the
    /// `parse_command` / `next_*` / `answer_text` functions describe.  The
    /// two snapshot commands additionally hand the caller a file request in
    /// `effect`; `restore` is the one command whose answer is deferred (to
    /// `finish_load`), since it depends on the file read.
    pub fn process_command(&mut self, line: &str, m: &mut Machine) -> (o: CmdOutcome)
        requires
            old(m).wf(),
        ensures
            final(m).wf(),
            final(m)@ == next_machine(parse_command(line@), old(m)@),
            final(self).running == next_running(parse_command(line@), old(self).running),
            final(self).breakpoints@ == next_breakpoints(
                parse_command(line@),
                old(self).breakpoints@,
            ),
            final(self).watchpoints@ == next_watchpoints(
                parse_command(line@),
                old(self).watchpoints@,
            ),
            final(self).checked_triggers == old(self).checked_triggers,
            final(self).tx == old(self).tx,
            final(self).rx == old(self).rx,
            o.single_step == wants_step(parse_command(line@)),
            (match o.answer {
                Option::Some(a) => answer_text(parse_command(line@), old(m)@) == Option::Some(a@),
                Option::None => answer_text(parse_command(line@), old(m)@) is None,
            }),
            (o.effect is Save <==> parse_command(line@) is Checkpoint),
            (o.effect is Load <==> parse_command(line@) is Restore),
            (o.effect matches CmdEffect::Save(b) ==> b@ == snapshot_bytes(old(m)@)),
    {
        let c = parse_line(line);
        match c {
            Command::Checkpoint => {
                let bytes = m.dump();
                let mut ans = String::from_str("dumped to state.bin (");
                push_dec(&mut ans, bytes.len() as u64);
                ans.append(" bytes)");
                proof {
                    assert(ans@ =~= "dumped to state.bin ("@ + dec_chars(
                        (2 * (0x8009 + old(m)@.stack.len())) as nat,
                    ) + " bytes)"@);
                }
                CmdOutcome { answer: Some(ans), single_step: false, effect: CmdEffect::Save(bytes) }
            },
            Command::Restore => CmdOutcome {
                answer: None,
                single_step: false,
                effect: CmdEffect::Load,
            },
            Command::SetRegister(i, v) => {
                if i < 8 {
                    m.set_reg(i as usize, v);
                    let mut ans = String::from_str("Set reg ");
                    push_dec(&mut ans, i as u64);
                    ans.append(" to ");
                    push_hex_0x(&mut ans, v);
                    proof {
                        assert(ans@ =~= "Set reg "@ + dec_chars(i as nat) + " to "@ + hex_0x(
                            v as nat,
                        ));
                    }
                    CmdOutcome { answer: Some(ans), single_step: false, effect: CmdEffect::Nothing }
                } else {
                    CmdOutcome {
                        answer: Some(String::from_str("Invalid set command!")),
                        single_step: false,
                        effect: CmdEffect::Nothing,
                    }
                }
            },
            Command::GetRegister(i) => {
                if i < 8 {
                    let val = m.get_register(i as usize);
                    let mut ans = String::from_str("reg[");
                    push_dec(&mut ans, i as u64);
                    ans.append("]=");
                    push_hex_0x(&mut ans, val);
                    proof {
                        assert(ans@ =~= "reg["@ + dec_chars(i as nat) + "]="@ + hex_0x(
                            old(m)@.regs[i as int] as nat,
                        ));
                    }
                    CmdOutcome { answer: Some(ans), single_step: false, effect: CmdEffect::Nothing }
                } else {
                    CmdOutcome {
                        answer: Some(String::from_str("Invalid get command!")),
                        single_step: false,
                        effect: CmdEffect::Nothing,
                    }
                }
            },
            Command::Stop => {
                self.running = false;
                CmdOutcome {
                    answer: Some(String::from_str("stopped")),
                    single_step: false,
                    effect: CmdEffect::Nothing,
                }
            },
            Command::Continue => {
                self.running = true;
                CmdOutcome {
                    answer: Some(String::from_str("continued")),
                    single_step: false,
                    effect: CmdEffect::Nothing,
                }
            },
            Command::AddBreak(a) => {
                self.breakpoints.push(a);
                let mut ans = String::from_str("breakpoint at ");
                push_hex_0x4(&mut ans, a);
                proof {
                    assert(ans@ =~= "breakpoint at "@ + hex_0x4(a as nat));
                }
                CmdOutcome { answer: Some(ans), single_step: false, effect: CmdEffect::Nothing }
            },
            Command::AddWatch(v) => {
                self.watchpoints.push(v);
                let mut ans = String::from_str("watchpoint on ");
                push_hex_0x4(&mut ans, v);
                proof {
                    assert(ans@ =~= "watchpoint on "@ + hex_0x4(v as nat));
                }
                CmdOutcome { answer: Some(ans), single_step: false, effect: CmdEffect::Nothing }
            },
            Command::Inspect => {
                let mut ans = String::new();
                push_hex_0x4(&mut ans, m.pc);
                ans.append(": ");
                if m.pc <= 0x7ffc {
                    let op = m.fetch();
                    push_op_text(&mut ans, &op);
                    proof {
                        assert(ans@ =~= hex_0x4(old(m)@.pc as nat) + ": "@ + op_text(
                            decode(old(m)@.mem, old(m)@.pc as int),
                        ));
                    }
                } else {
                    ans.append("(end of memory)");
                    proof {
                        reveal_strlit(": ");
                        reveal_strlit("(end of memory)");
                        reveal_strlit(": (end of memory)");
                        assert(ans@ =~= hex_0x4(old(m)@.pc as nat) + ": (end of memory)"@);
                    }
                }
                CmdOutcome { answer: Some(ans), single_step: true, effect: CmdEffect::Nothing }
            },
            Command::Dis(start, count) => CmdOutcome {
                answer: Some(m.disassemble_range(start, count)),
                single_step: false,
                effect: CmdEffect::Nothing,
            },
            Command::DisAll => CmdOutcome {
                answer: Some(m.disassemble_all()),
                single_step: false,
                effect: CmdEffect::Nothing,
            },
            Command::InvalidSet => CmdOutcome {
                answer: Some(String::from_str("Invalid set command!")),
                single_step: false,
                effect: CmdEffect::Nothing,
            },
            Command::InvalidGet => CmdOutcome {
                answer: Some(String::from_str("Invalid get command!")),
                single_step: false,
                effect: CmdEffect::Nothing,
            },
            Command::InvalidDis => CmdOutcome {
                answer: Some(String::from_str("Invalid dis (dis start(hex) length(dec))")),
                single_step: false,
                effect: CmdEffect::Nothing,
            },
            Command::InvalidBreak => CmdOutcome {
                answer: Some(String::from_str("Invalid break (break addr(hex))")),
                single_step: false,
                effect: CmdEffect::Nothing,
            },
            Command::InvalidWatch => CmdOutcome {
                answer: Some(String::from_str("Invalid watch (watch value(hex))")),
                single_step: false,
                effect: CmdEffect::Nothing,
            },
            Command::Unknown => CmdOutcome {
                answer: Some(String::from_str("Unknown command!")),
                single_step: false,
                effect: CmdEffect::Nothing,
            },
        }
    }

    /// Consults the session once for the step the caller proposes.  On the
    /// first consultation for a given step the breakpoint and watchpoint
    /// triggers are evaluated (`check_triggers`); re-entries after `Again`,
    /// `Save` or `Load` do not re-evaluate them.  Then, by run-state: while
    /// `Running`, one queued command is processed without blocking, and an
    /// empty queue yields `Proceed`; while `Stopped`, the session blocks for
    /// one command, and only the inspect/single-step command (or a command
    /// that sets the state `Running`, on a later consultation) yields
    /// `Proceed`.  A disconnected transport yields `Proceed` so the engine
    /// can run on.  Whatever arrives on the channel: the breakpoint and
    /// watchpoint sets only ever grow, and the machine changes at most by
    /// one single-register write; the program counter, memory, stack,
    /// halted flag and I/O buffers are never touched from here.
    pub fn debugger_step(&mut self, m: &mut Machine) -> (r: SessionReq)
        requires
            old(m).wf(),
        ensures
            final(m).wf(),
            final(m)@.pc == old(m)@.pc,
            final(m)@.mem == old(m)@.mem,
            final(m)@.stack == old(m)@.stack,
            final(m)@.halted == old(m)@.halted,
            final(m)@.input == old(m)@.input,
            final(m)@.output == old(m)@.output,
            old(self).breakpoints@.is_prefix_of(final(self).breakpoints@),
            old(self).watchpoints@.is_prefix_of(final(self).watchpoints@),
            final(m)@.regs == old(m)@.regs || (exists|i: int, v: u16|
                #![auto]
                0 <= i < 8 && final(m)@.regs == old(m)@.regs.update(i, v)),
            (r matches SessionReq::Save(b) ==> final(m)@ == old(m)@ && b@ == snapshot_bytes(
                old(m)@,
            )),
            (r is Load ==> final(m)@ == old(m)@),
            (r is Proceed ==> !final(self).checked_triggers),
            (r is Again ==> final(self).checked_triggers),
    {
        if !self.checked_triggers {
            self.check_triggers(m);
            self.checked_triggers = true;
        }
        if self.running {
            match try_recv_line(&self.rx) {
                None => {
                    self.checked_triggers = false;
                    proof {
                        lemma_prefix_reflexive(self.breakpoints@);
                        lemma_prefix_reflexive(self.watchpoints@);
                    }
                    SessionReq::Proceed
                },
                Some(line) => {
                    let o = self.process_command(line.as_str(), m);
                    if let Some(a) = o.answer {
                        send_line(&self.tx, a);
                    }
                    proof {
                        let c = parse_command(line@);
                        match c {
                            Command::SetRegister(i, v) => if i < 8 {
                                assert(m@.regs == old(m)@.regs.update(i as int, v));
                            },
                            Command::AddBreak(a) => lemma_prefix_push(
                                old(self).breakpoints@,
                                a,
                            ),
                            Command::AddWatch(v) => lemma_prefix_push(
                                old(self).watchpoints@,
                                v,
                            ),
                            _ => {},
                        }
                        lemma_prefix_reflexive(old(self).breakpoints@);
                        lemma_prefix_reflexive(old(self).watchpoints@);
                    }
                    match o.effect {
                        CmdEffect::Save(b) => SessionReq::Save(b),
                        CmdEffect::Load => SessionReq::Load,
                        CmdEffect::Nothing => SessionReq::Again,
                    }
                },
            }
        } else {
            match recv_line(&self.rx) {
                None => {
                    self.checked_triggers = false;
                    proof {
                        lemma_prefix_reflexive(self.breakpoints@);
                        lemma_prefix_reflexive(self.watchpoints@);
                    }
                    SessionReq::Proceed
                },
                Some(line) => {
                    let o = self.process_command(line.as_str(), m);
                    if let Some(a) = o.answer {
                        send_line(&self.tx, a);
                    }
                    proof {
                        let c = parse_command(line@);
                        match c {
                            Command::SetRegister(i, v) => if i < 8 {
                                assert(m@.regs == old(m)@.regs.update(i as int, v));
                            },
                            Command::AddBreak(a) => lemma_prefix_push(
                                old(self).breakpoints@,
                                a,
                            ),
                            Command::AddWatch(v) => lemma_prefix_push(
                                old(self).watchpoints@,
                                v,
                            ),
                            _ => {},
                        }
                        lemma_prefix_reflexive(old(self).breakpoints@);
                        lemma_prefix_reflexive(old(self).watchpoints@);
                    }
                    match o.effect {
                        CmdEffect::Save(b) => SessionReq::Save(b),
                        CmdEffect::Load => SessionReq::Load,
                        CmdEffect::Nothing => {
                            if o.single_step {
                                self.checked_triggers = false;
                                SessionReq::Proceed
                            } else {
                                SessionReq::Again
                            }
                        },
                    }
                },
            }
        }
    }

    /// Completes a `Load` request with the bytes the caller read from the
    /// snapshot location (`None` when it could not be read).  A readable,
    /// well-formed buffer restores the machine and answers with the byte
    /// count; an unreadable location leaves the machine alone and answers
    /// that the state cannot be read; a malformed buffer is the fatal case:
    /// the machine is left unchanged and the fault is returned.
    pub fn finish_load(&mut self, m: &mut Machine, data: Option<Vec<u8>>) -> (r: Result<(), Fault>)
        requires
            old(m).wf(),
        ensures
            final(m).wf(),
            final(self).running == old(self).running,
            final(self).breakpoints == old(self).breakpoints,
            final(self).watchpoints == old(self).watchpoints,
            final(self).checked_triggers == old(self).checked_triggers,
            (match data {
                Option::Some(b) => if snapshot_len_ok(b@) {
                    r is Ok && final(m)@ == restored_state(old(m)@, b@)
                } else {
                    r == Result::<(), Fault>::Err(Fault::MalformedSnapshot) && final(m)@ == old(
                        m,
                    )@
                },
                Option::None => r is Ok && final(m)@ == old(m)@,
            }),
    {
        match data {
            Some(bytes) => {
                match m.restore(bytes.as_slice()) {
                    Ok(()) => {
                        let mut ans = String::from_str("restored state.bin (");
                        push_dec(&mut ans, bytes.len() as u64);
                        ans.append(" bytes)");
                        send_line(&self.tx, ans);
                        Ok(())
                    },
                    Err(f) => Err(f),
                }
            },
            None => {
                send_line(&self.tx, String::from_str("Cant read state"));
                Ok(())
            },
        }
    }
}

} // verus!
