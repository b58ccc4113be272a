//! The execution engine: memory, registers, stack, program counter, and the
//! decode/execute semantics of every opcode, together with state persistence
//! (`dump` / `restore`).
//!
//! Words are 16-bit, but only values 0..=32775 are semantically valid: a word
//! below 32768 is a literal denoting itself, a word in 32768..=32775 denotes
//! register `word - 32768`, and anything larger is fatal to resolve.

use vstd::prelude::*;
use vstd::slice::slice_subrange;

verus! {

/// A decoded instruction: an opcode tag plus its raw (unresolved) operand
/// words.  Operand words are kept raw because literal-vs-register meaning
/// depends on the position within each opcode's semantics.  Opcode words
/// outside 0..=21 decode to `Invalid`; executing `Invalid` is fatal.
#[derive(Clone, Copy, Debug, PartialEq, Eq, Structural)]
pub enum Operation {
    Halt(),
    SetReg(u16, u16),
    Push(u16),
    Pop(u16),
    Eq(u16, u16, u16),
    Gt(u16, u16, u16),
    Jmp(u16),
    Jt(u16, u16),
    Jf(u16, u16),
    Add(u16, u16, u16),
    Mult(u16, u16, u16),
    Mod(u16, u16, u16),
    And(u16, u16, u16),
    Or(u16, u16, u16),
    Not(u16, u16),
    Rmem(u16, u16),
    Wmem(u16, u16),
    Call(u16),
    Ret(),
    Out(u16),
    In(u16),
    Noop(),
    Invalid(),
}

/// The fatal engine conditions: a corrupted or out-of-contract program image.
/// Each terminates the engine; none is recoverable within it.
#[derive(Clone, Copy, Debug, PartialEq, Eq, Structural)]
pub enum Fault {
    /// The opcode word at the program counter is outside 0..=21.
    InvalidOpcode,
    /// An operand that must denote a register (or be resolvable) is >= 32776.
    InvalidRegister,
    /// A memory access (including instruction fetch) outside 0..=32767.
    OutOfRangeAddress,
    /// `pop` on an empty stack (`ret` on an empty stack instead halts).
    StackUnderflow,
    /// `mod` with a zero divisor.
    DivisionByZero,
    /// An `out` operand whose resolved value does not fit in one byte.
    UnprintableValue,
    /// A snapshot buffer whose length does not match the fixed layout.
    MalformedSnapshot,
}

/// What a successful `step` did.
#[derive(Clone, Copy, Debug, PartialEq, Eq, Structural)]
pub enum StepOutcome {
    /// One instruction was executed (or the machine was already halted).
    Stepped,
    /// The next instruction is `in` and no input byte is buffered; the
    /// machine was left unchanged.  Push input and step again.
    NeedInput,
}

/// The mathematical model of a machine: the view of `Machine`.
#[verifier::ext_equal]
pub ghost struct State {
    pub pc: u16,
    pub regs: Seq<u16>,
    pub mem: Seq<u16>,
    pub stack: Seq<u16>,
    pub halted: bool,
    pub input: Seq<u8>,
    pub output: Seq<u8>,
}

impl State {
    /// Well-formedness: exactly 8 registers and 32768 memory words.
    pub open spec fn wf(self) -> bool {
        &&& self.regs.len() == 8
        &&& self.mem.len() == 0x8000
    }
}

/// A word below 32768 is a literal denoting itself.
pub open spec fn is_literal_word(w: u16) -> bool {
    w < 0x8000
}

/// A word in 32768..=32775 denotes a register.
pub open spec fn is_reg_word(w: u16) -> bool {
    0x8000 <= w < 0x8008
}

/// A word that `resolve` accepts: a literal or a register reference.
pub open spec fn is_valid_word(w: u16) -> bool {
    is_literal_word(w) || is_reg_word(w)
}

/// The register index denoted by a register-reference word.
pub open spec fn reg_idx(w: u16) -> int {
    w - 0x8000
}

/// Operand resolution: literals pass through, register references index the
/// register file.  Meaningful only when `is_valid_word(w)`.
pub open spec fn resolve(s: State, w: u16) -> u16 {
    if w < 0x8000 {
        w
    } else {
        s.regs[w - 0x8000]
    }
}

/// Decoding the instruction whose opcode word sits at `pos`.  The three
/// following words are read unconditionally as lookahead; opcodes with fewer
/// operands simply ignore the surplus.
pub open spec fn decode(mem: Seq<u16>, pos: int) -> Operation {
    let code = mem[pos];
    let a = mem[pos + 1];
    let b = mem[pos + 2];
    let c = mem[pos + 3];
    if code == 0 {
        Operation::Halt()
    } else if code == 1 {
        Operation::SetReg(a, b)
    } else if code == 2 {
        Operation::Push(a)
    } else if code == 3 {
        Operation::Pop(a)
    } else if code == 4 {
        Operation::Eq(a, b, c)
    } else if code == 5 {
        Operation::Gt(a, b, c)
    } else if code == 6 {
        Operation::Jmp(a)
    } else if code == 7 {
        Operation::Jt(a, b)
    } else if code == 8 {
        Operation::Jf(a, b)
    } else if code == 9 {
        Operation::Add(a, b, c)
    } else if code == 10 {
        Operation::Mult(a, b, c)
    } else if code == 11 {
        Operation::Mod(a, b, c)
    } else if code == 12 {
        Operation::And(a, b, c)
    } else if code == 13 {
        Operation::Or(a, b, c)
    } else if code == 14 {
        Operation::Not(a, b)
    } else if code == 15 {
        Operation::Rmem(a, b)
    } else if code == 16 {
        Operation::Wmem(a, b)
    } else if code == 17 {
        Operation::Call(a)
    } else if code == 18 {
        Operation::Ret()
    } else if code == 19 {
        Operation::Out(a)
    } else if code == 20 {
        Operation::In(a)
    } else if code == 21 {
        Operation::Noop()
    } else {
        Operation::Invalid()
    }
}

/// The word-length of an instruction: 1 + its arity.
pub open spec fn op_len(op: Operation) -> u16 {
    match op {
        Operation::Halt() => 1,
        Operation::SetReg(_, _) => 3,
        Operation::Push(_) => 2,
        Operation::Pop(_) => 2,
        Operation::Eq(_, _, _) => 4,
        Operation::Gt(_, _, _) => 4,
        Operation::Jmp(_) => 2,
        Operation::Jt(_, _) => 3,
        Operation::Jf(_, _) => 3,
        Operation::Add(_, _, _) => 4,
        Operation::Mult(_, _, _) => 4,
        Operation::Mod(_, _, _) => 4,
        Operation::And(_, _, _) => 4,
        Operation::Or(_, _, _) => 4,
        Operation::Not(_, _) => 3,
        Operation::Rmem(_, _) => 3,
        Operation::Wmem(_, _) => 3,
        Operation::Call(_) => 2,
        Operation::Ret() => 1,
        Operation::Out(_) => 2,
        Operation::In(_) => 2,
        Operation::Noop() => 1,
        Operation::Invalid() => 1,
    }
}

/// The raw operand words an instruction carries, in order.
pub open spec fn operands(op: Operation) -> Seq<u16> {
    match op {
        Operation::Halt() => seq![],
        Operation::SetReg(a, b) => seq![a, b],
        Operation::Push(a) => seq![a],
        Operation::Pop(a) => seq![a],
        Operation::Eq(a, b, c) => seq![a, b, c],
        Operation::Gt(a, b, c) => seq![a, b, c],
        Operation::Jmp(a) => seq![a],
        Operation::Jt(a, b) => seq![a, b],
        Operation::Jf(a, b) => seq![a, b],
        Operation::Add(a, b, c) => seq![a, b, c],
        Operation::Mult(a, b, c) => seq![a, b, c],
        Operation::Mod(a, b, c) => seq![a, b, c],
        Operation::And(a, b, c) => seq![a, b, c],
        Operation::Or(a, b, c) => seq![a, b, c],
        Operation::Not(a, b) => seq![a, b],
        Operation::Rmem(a, b) => seq![a, b],
        Operation::Wmem(a, b) => seq![a, b],
        Operation::Call(a) => seq![a],
        Operation::Ret() => seq![],
        Operation::Out(a) => seq![a],
        Operation::In(a) => seq![a],
        Operation::Noop() => seq![],
        Operation::Invalid() => seq![],
    }
}

impl Operation {
    /// The number of memory words the instruction occupies; the program
    /// counter advances by this much before the instruction's effect runs.
    pub fn len(&self) -> (l: u16)
        ensures
            l == op_len(*self),
            1 <= l <= 4,
    {
        match self {
            Operation::Halt() | Operation::Ret() | Operation::Noop() | Operation::Invalid() => 1,
            Operation::Push(_)
            | Operation::In(_)
            | Operation::Out(_)
            | Operation::Call(_)
            | Operation::Jmp(_)
            | Operation::Pop(_) => 2,
            Operation::SetReg(_, _)
            | Operation::Wmem(_, _)
            | Operation::Rmem(_, _)
            | Operation::Not(_, _)
            | Operation::Jf(_, _)
            | Operation::Jt(_, _) => 3,
            Operation::Eq(_, _, _)
            | Operation::Gt(_, _, _)
            | Operation::Add(_, _, _)
            | Operation::Mult(_, _, _)
            | Operation::Mod(_, _, _)
            | Operation::And(_, _, _)
            | Operation::Or(_, _, _) => 4,
        }
    }
}

/// The execution engine.  `memory` always holds exactly 32768 words and
/// `regfile` exactly 8; `in_buf` is the queue of input bytes not yet consumed
/// by `in` instructions, and `out_buf` accumulates every byte emitted by
/// `out` instructions until the caller drains it.
#[derive(Debug)]
pub struct Machine {
    pub memory: Vec<u16>,
    pub regfile: Vec<u16>,
    pub stack: Vec<u16>,
    pub pc: u16,
    pub halted: bool,
    pub in_buf: Vec<u8>,
    pub out_buf: Vec<u8>,
}

impl View for Machine {
    type V = State;

    open spec fn view(&self) -> State {
        State {
            pc: self.pc,
            regs: self.regfile@,
            mem: self.memory@,
            stack: self.stack@,
            halted: self.halted,
            input: self.in_buf@,
            output: self.out_buf@,
        }
    }
}

/// Combines two bytes little-endian into a word.
pub fn assemble_word(bc: &[u8]) -> (w: u16)
    requires
        bc@.len() == 2,
    ensures
        w == vstd::bytes::spec_u16_from_le_bytes(bc@),
{
    proof {
        vstd::bytes::lemma_auto_spec_u16_to_from_le_bytes();
    }
    vstd::bytes::u16_from_le_bytes(bc)
}

impl Machine {
    /// Well-formedness of the machine's representation.
    pub open spec fn wf(&self) -> bool {
        self@.wf()
    }

    /// A fresh machine: the program image is combined into words
    /// little-endian and loaded at address 0; everything else is
    /// zero-initialized.  The image must consist of whole words (no trailing
    /// odd byte) and fit in memory.
    pub fn new(prog: Vec<u8>) -> (m: Machine)
        requires
            prog@.len() % 2 == 0,
            prog@.len() <= 0x10000,
        ensures
            m.wf(),
            m@.pc == 0,
            !m@.halted,
            m@.stack =~= Seq::<u16>::empty(),
            m@.input =~= Seq::<u8>::empty(),
            m@.output =~= Seq::<u8>::empty(),
            forall|i: int| 0 <= i < 8 ==> m@.regs[i] == 0,
            forall|i: int|
                0 <= i < prog@.len() / 2 ==> m@.mem[i] == vstd::bytes::spec_u16_from_le_bytes(
                    prog@.subrange(2 * i, 2 * i + 2),
                ),
            forall|i: int| prog@.len() / 2 <= i < 0x8000 ==> m@.mem[i] == 0,
    {
        let mut mem: Vec<u16> = vec![0u16; 0x8000];
        let mut i: usize = 0;
        while 2 * i < prog.len()
            invariant
                prog@.len() % 2 == 0,
                prog@.len() <= 0x10000,
                2 * i <= prog@.len(),
                mem@.len() == 0x8000,
                forall|j: int|
                    0 <= j < i ==> mem@[j] == vstd::bytes::spec_u16_from_le_bytes(
                        prog@.subrange(2 * j, 2 * j + 2),
                    ),
                forall|j: int| i <= j < 0x8000 ==> mem@[j] == 0,
            decreases prog@.len() - 2 * i,
        {
            let w = assemble_word(&prog[2 * i..2 * i + 2]);
            mem[i] = w;
            i = i + 1;
        }
        Machine {
            memory: mem,
            regfile: vec![0u16; 8],
            stack: Vec::new(),
            pc: 0,
            halted: false,
            in_buf: Vec::new(),
            out_buf: Vec::new(),
        }
    }

    /// Whether the machine has halted.  Once set, the flag stays set.
    pub fn halted(&self) -> (h: bool)
        ensures
            h == self@.halted,
    {
        self.halted
    }

    /// Debugging access: overwrite one register.
    pub fn set_reg(&mut self, idx: usize, val: u16)
        requires
            old(self).wf(),
            idx < 8,
        ensures
            final(self).wf(),
            final(self)@ == (State { regs: old(self)@.regs.update(idx as int, val), ..old(self)@ }),
    {
        self.regfile[idx] = val;
    }

    /// Debugging access: read one register.
    pub fn get_register(&mut self, idx: usize) -> (val: u16)
        requires
            old(self).wf(),
            idx < 8,
        ensures
            *final(self) == *old(self),
            val == old(self)@.regs[idx as int],
    {
        self.regfile[idx]
    }

    /// Decodes the instruction at the program counter.
    pub fn fetch(&self) -> (op: Operation)
        requires
            self.wf(),
            self@.pc + 3 < 0x8000,
        ensures
            op == decode(self@.mem, self@.pc as int),
    {
        self.fetch_at(self.pc)
    }

    /// Decodes the instruction at `pos`, reading the opcode word and three
    /// lookahead words.
    pub fn fetch_at(&self, pos: u16) -> (op: Operation)
        requires
            self.wf(),
            pos + 3 < 0x8000,
        ensures
            op == decode(self@.mem, pos as int),
    {
        let code = self.memory[pos as usize];
        let a = self.memory[pos as usize + 1];
        let b = self.memory[pos as usize + 2];
        let c = self.memory[pos as usize + 3];
        match code {
            0 => Operation::Halt(),
            1 => Operation::SetReg(a, b),
            2 => Operation::Push(a),
            3 => Operation::Pop(a),
            4 => Operation::Eq(a, b, c),
            5 => Operation::Gt(a, b, c),
            6 => Operation::Jmp(a),
            7 => Operation::Jt(a, b),
            8 => Operation::Jf(a, b),
            9 => Operation::Add(a, b, c),
            10 => Operation::Mult(a, b, c),
            11 => Operation::Mod(a, b, c),
            12 => Operation::And(a, b, c),
            13 => Operation::Or(a, b, c),
            14 => Operation::Not(a, b),
            15 => Operation::Rmem(a, b),
            16 => Operation::Wmem(a, b),
            17 => Operation::Call(a),
            18 => Operation::Ret(),
            19 => Operation::Out(a),
            20 => Operation::In(a),
            21 => Operation::Noop(),
            _ => Operation::Invalid(),
        }
    }

    /// Resolves an operand word: a literal denotes itself, a register
    /// reference denotes the register's current content.
    fn get_val(&self, a: u16) -> (v: u16)
        requires
            self.wf(),
            is_valid_word(a),
        ensures
            v == resolve(self@, a),
    {
        if a < 0x8000 {
            a
        } else {
            self.regfile[self.get_reg(a)]
        }
    }

    /// The register index denoted by a register-reference word.
    fn get_reg(&self, a: u16) -> (i: usize)
        requires
            is_reg_word(a),
        ensures
            i == reg_idx(a),
            i < 8,
    {
        (a - 0x8000) as usize
    }

    /// Queues one byte for consumption by a later `in` instruction.
    pub fn push_input(&mut self, b: u8)
        ensures
            final(self)@ == (State { input: old(self)@.input.push(b), ..old(self)@ }),
    {
        self.in_buf.push(b);
    }

    /// Drains and returns everything `out` instructions have emitted since
    /// the last drain.
    pub fn take_output(&mut self) -> (out: Vec<u8>)
        ensures
            out@ == old(self)@.output,
            final(self)@ == (State { output: Seq::<u8>::empty(), ..old(self)@ }),
    {
        let mut out: Vec<u8> = Vec::new();
        core::mem::swap(&mut out, &mut self.out_buf);
        out
    }
}


/// The fatal condition (if any) that executing `op` in state `s` would hit.
/// Checks run before any effect, so a faulting instruction changes nothing.
/// The program counter plays no part: the result is the same before and
/// after the pre-execution advance.
pub open spec fn op_fault(s: State, op: Operation) -> Option<Fault> {
    match op {
        Operation::Halt() | Operation::Ret() | Operation::Noop() => Option::None,
        Operation::SetReg(a, b) => if !is_reg_word(a) || !is_valid_word(b) {
            Option::Some(Fault::InvalidRegister)
        } else {
            Option::None
        },
        Operation::Push(a) => if !is_valid_word(a) {
            Option::Some(Fault::InvalidRegister)
        } else {
            Option::None
        },
        Operation::Pop(a) => if !is_reg_word(a) {
            Option::Some(Fault::InvalidRegister)
        } else if s.stack.len() == 0 {
            Option::Some(Fault::StackUnderflow)
        } else {
            Option::None
        },
        Operation::Eq(a, b, c) | Operation::Gt(a, b, c) | Operation::Add(a, b, c)
        | Operation::Mult(a, b, c) | Operation::And(a, b, c) | Operation::Or(a, b, c) => {
            if !is_reg_word(a) || !is_valid_word(b) || !is_valid_word(c) {
                Option::Some(Fault::InvalidRegister)
            } else {
                Option::None
            }
        },
        Operation::Mod(a, b, c) => if !is_reg_word(a) || !is_valid_word(b) || !is_valid_word(c) {
            Option::Some(Fault::InvalidRegister)
        } else if resolve(s, c) == 0 {
            Option::Some(Fault::DivisionByZero)
        } else {
            Option::None
        },
        Operation::Jmp(a) => if !is_valid_word(a) {
            Option::Some(Fault::InvalidRegister)
        } else {
            Option::None
        },
        Operation::Jt(a, b) => if !is_valid_word(a) {
            Option::Some(Fault::InvalidRegister)
        } else if resolve(s, a) != 0 && !is_valid_word(b) {
            Option::Some(Fault::InvalidRegister)
        } else {
            Option::None
        },
        Operation::Jf(a, b) => if !is_valid_word(a) {
            Option::Some(Fault::InvalidRegister)
        } else if resolve(s, a) == 0 && !is_valid_word(b) {
            Option::Some(Fault::InvalidRegister)
        } else {
            Option::None
        },
        Operation::Not(a, b) => if !is_reg_word(a) || !is_valid_word(b) {
            Option::Some(Fault::InvalidRegister)
        } else {
            Option::None
        },
        Operation::Rmem(a, b) => if !is_reg_word(a) || !is_valid_word(b) {
            Option::Some(Fault::InvalidRegister)
        } else if resolve(s, b) >= 0x8000 {
            Option::Some(Fault::OutOfRangeAddress)
        } else {
            Option::None
        },
        Operation::Wmem(a, b) => if !is_valid_word(a) || !is_valid_word(b) {
            Option::Some(Fault::InvalidRegister)
        } else if resolve(s, a) >= 0x8000 {
            Option::Some(Fault::OutOfRangeAddress)
        } else {
            Option::None
        },
        Operation::Call(a) => if !is_valid_word(a) {
            Option::Some(Fault::InvalidRegister)
        } else {
            Option::None
        },
        Operation::Out(a) => if !is_valid_word(a) {
            Option::Some(Fault::InvalidRegister)
        } else if resolve(s, a) > 255 {
            Option::Some(Fault::UnprintableValue)
        } else {
            Option::None
        },
        Operation::In(a) => if !is_reg_word(a) {
            Option::Some(Fault::InvalidRegister)
        } else {
            Option::None
        },
        Operation::Invalid() => Option::Some(Fault::InvalidOpcode),
    }
}

/// The pre-execution program-counter advance: pc moves past the instruction
/// before the instruction's effect runs.  `call` therefore pushes the
/// already-advanced return address, and the jumps overwrite the advanced pc.
pub open spec fn advance(s: State, op: Operation) -> State {
    State { pc: ((s.pc + op_len(op)) as u16), ..s }
}

/// The effect of `op` on the already-advanced state `s`.  Meaningful only
/// when `op_fault` found nothing and, for `in`, when input is available.
pub open spec fn apply_op(s: State, op: Operation) -> State {
    match op {
        Operation::Halt() => State { halted: true, ..s },
        Operation::SetReg(a, b) => State { regs: s.regs.update(reg_idx(a), resolve(s, b)), ..s },
        Operation::Push(a) => State { stack: s.stack.push(resolve(s, a)), ..s },
        Operation::Pop(a) => State {
            regs: s.regs.update(reg_idx(a), s.stack.last()),
            stack: s.stack.drop_last(),
            ..s
        },
        Operation::Eq(a, b, c) => State {
            regs: s.regs.update(reg_idx(a), if resolve(s, b) == resolve(s, c) { 1u16 } else { 0u16 }),
            ..s
        },
        Operation::Gt(a, b, c) => State {
            regs: s.regs.update(reg_idx(a), if resolve(s, b) > resolve(s, c) { 1u16 } else { 0u16 }),
            ..s
        },
        Operation::Jmp(a) => State { pc: resolve(s, a), ..s },
        Operation::Jt(a, b) => if resolve(s, a) != 0 {
            State { pc: resolve(s, b), ..s }
        } else {
            s
        },
        Operation::Jf(a, b) => if resolve(s, a) == 0 {
            State { pc: resolve(s, b), ..s }
        } else {
            s
        },
        Operation::Add(a, b, c) => State {
            regs: s.regs.update(reg_idx(a), (((resolve(s, b) + resolve(s, c)) % 0x8000) as u16)),
            ..s
        },
        Operation::Mult(a, b, c) => State {
            regs: s.regs.update(reg_idx(a), (((resolve(s, b) * resolve(s, c)) % 0x8000) as u16)),
            ..s
        },
        Operation::Mod(a, b, c) => State {
            regs: s.regs.update(reg_idx(a), ((resolve(s, b) % resolve(s, c)) as u16)),
            ..s
        },
        Operation::And(a, b, c) => State {
            regs: s.regs.update(reg_idx(a), resolve(s, b) & resolve(s, c)),
            ..s
        },
        Operation::Or(a, b, c) => State {
            regs: s.regs.update(reg_idx(a), resolve(s, b) | resolve(s, c)),
            ..s
        },
        Operation::Not(a, b) => State {
            regs: s.regs.update(reg_idx(a), (!resolve(s, b)) & 0x7fff),
            ..s
        },
        Operation::Rmem(a, b) => State {
            regs: s.regs.update(reg_idx(a), s.mem[resolve(s, b) as int]),
            ..s
        },
        Operation::Wmem(a, b) => State { mem: s.mem.update(resolve(s, a) as int, resolve(s, b)), ..s },
        Operation::Call(a) => State { stack: s.stack.push(s.pc), pc: resolve(s, a), ..s },
        Operation::Ret() => if s.stack.len() == 0 {
            State { halted: true, ..s }
        } else {
            State { pc: s.stack.last(), stack: s.stack.drop_last(), ..s }
        },
        Operation::Out(a) => State { output: s.output.push(resolve(s, a) as u8), ..s },
        Operation::In(a) => State {
            regs: s.regs.update(reg_idx(a), s.input[0] as u16),
            input: s.input.drop_first(),
            ..s
        },
        Operation::Noop() => s,
        Operation::Invalid() => s,
    }
}

/// One proposed engine step, as a function of the machine state alone: the
/// resulting state together with what `step` reports.  A halted machine is
/// left untouched; a fatal condition leaves the state unchanged and reports
/// the fault; an `in` instruction with no buffered input leaves the state
/// unchanged and asks for input; otherwise the program counter advances by
/// the instruction's word-length and the instruction's effect applies.
pub open spec fn spec_step(s: State) -> (State, Result<StepOutcome, Fault>) {
    if s.halted {
        (s, Result::Ok(StepOutcome::Stepped))
    } else if s.pc > 0x7ffc {
        (s, Result::Err(Fault::OutOfRangeAddress))
    } else {
        let op = decode(s.mem, s.pc as int);
        match op_fault(s, op) {
            Option::Some(f) => (s, Result::Err(f)),
            Option::None => if op is In && s.input.len() == 0 {
                (s, Result::Ok(StepOutcome::NeedInput))
            } else {
                (apply_op(advance(s, op), op), Result::Ok(StepOutcome::Stepped))
            },
        }
    }
}

impl Machine {
    /// Reports the fatal condition `op` would hit in the current state, if
    /// any, without changing anything.
    fn check_op(&self, op: &Operation) -> (r: Result<(), Fault>)
        requires
            self.wf(),
        ensures
            r == (match op_fault(self@, *op) {
                Option::Some(f) => Result::<(), Fault>::Err(f),
                Option::None => Result::<(), Fault>::Ok(()),
            }),
    {
        match *op {
            Operation::Halt() | Operation::Ret() | Operation::Noop() => Ok(()),
            Operation::SetReg(a, b) => if !(0x8000 <= a && a < 0x8008) || !(b < 0x8008) {
                Err(Fault::InvalidRegister)
            } else {
                Ok(())
            },
            Operation::Push(a) => if !(a < 0x8008) {
                Err(Fault::InvalidRegister)
            } else {
                Ok(())
            },
            Operation::Pop(a) => if !(0x8000 <= a && a < 0x8008) {
                Err(Fault::InvalidRegister)
            } else if self.stack.len() == 0 {
                Err(Fault::StackUnderflow)
            } else {
                Ok(())
            },
            Operation::Eq(a, b, c)
            | Operation::Gt(a, b, c)
            | Operation::Add(a, b, c)
            | Operation::Mult(a, b, c)
            | Operation::And(a, b, c)
            | Operation::Or(a, b, c) => {
                if !(0x8000 <= a && a < 0x8008) || !(b < 0x8008) || !(c < 0x8008) {
                    Err(Fault::InvalidRegister)
                } else {
                    Ok(())
                }
            },
            Operation::Mod(a, b, c) => if !(0x8000 <= a && a < 0x8008) || !(b < 0x8008) || !(c
                < 0x8008) {
                Err(Fault::InvalidRegister)
            } else if self.get_val(c) == 0 {
                Err(Fault::DivisionByZero)
            } else {
                Ok(())
            },
            Operation::Jmp(a) => if !(a < 0x8008) {
                Err(Fault::InvalidRegister)
            } else {
                Ok(())
            },
            Operation::Jt(a, b) => if !(a < 0x8008) {
                Err(Fault::InvalidRegister)
            } else if self.get_val(a) != 0 && !(b < 0x8008) {
                Err(Fault::InvalidRegister)
            } else {
                Ok(())
            },
            Operation::Jf(a, b) => if !(a < 0x8008) {
                Err(Fault::InvalidRegister)
            } else if self.get_val(a) == 0 && !(b < 0x8008) {
                Err(Fault::InvalidRegister)
            } else {
                Ok(())
            },
            Operation::Not(a, b) => if !(0x8000 <= a && a < 0x8008) || !(b < 0x8008) {
                Err(Fault::InvalidRegister)
            } else {
                Ok(())
            },
            Operation::Rmem(a, b) => if !(0x8000 <= a && a < 0x8008) || !(b < 0x8008) {
                Err(Fault::InvalidRegister)
            } else if self.get_val(b) >= 0x8000 {
                Err(Fault::OutOfRangeAddress)
            } else {
                Ok(())
            },
            Operation::Wmem(a, b) => if !(a < 0x8008) || !(b < 0x8008) {
                Err(Fault::InvalidRegister)
            } else if self.get_val(a) >= 0x8000 {
                Err(Fault::OutOfRangeAddress)
            } else {
                Ok(())
            },
            Operation::Call(a) => if !(a < 0x8008) {
                Err(Fault::InvalidRegister)
            } else {
                Ok(())
            },
            Operation::Out(a) => if !(a < 0x8008) {
                Err(Fault::InvalidRegister)
            } else if self.get_val(a) > 255 {
                Err(Fault::UnprintableValue)
            } else {
                Ok(())
            },
            Operation::In(a) => if !(0x8000 <= a && a < 0x8008) {
                Err(Fault::InvalidRegister)
            } else {
                Ok(())
            },
            Operation::Invalid() => Err(Fault::InvalidOpcode),
        }
    }

    fn halt(&mut self)
        ensures
            final(self)@ == apply_op(old(self)@, Operation::Halt()),
    {
        self.halted = true;
        proof {
            assert(self@ =~= apply_op(old(self)@, Operation::Halt()));
        }
    }

    fn set(&mut self, a: u16, b: u16)
        requires
            old(self).wf(),
            is_reg_word(a),
            is_valid_word(b),
        ensures
            final(self)@ == apply_op(old(self)@, Operation::SetReg(a, b)),
    {
        let v = self.get_val(b);
        let i = self.get_reg(a);
        self.regfile[i] = v;
        proof {
            assert(self@ =~= apply_op(old(self)@, Operation::SetReg(a, b)));
        }
    }

    fn push(&mut self, a: u16)
        requires
            old(self).wf(),
            is_valid_word(a),
        ensures
            final(self)@ == apply_op(old(self)@, Operation::Push(a)),
    {
        let v = self.get_val(a);
        self.stack.push(v);
        proof {
            assert(self@ =~= apply_op(old(self)@, Operation::Push(a)));
        }
    }

    fn pop(&mut self, a: u16)
        requires
            old(self).wf(),
            is_reg_word(a),
            old(self)@.stack.len() > 0,
        ensures
            final(self)@ == apply_op(old(self)@, Operation::Pop(a)),
    {
        let v = match self.stack.pop() {
            Some(v) => v,
            None => 0,
        };
        let i = self.get_reg(a);
        self.regfile[i] = v;
        proof {
            assert(self@ =~= apply_op(old(self)@, Operation::Pop(a)));
        }
    }

    /// `eq` stores exactly 1 when the resolved operands are equal and
    /// exactly 0 otherwise: never any other word.
    fn eq(&mut self, a: u16, b: u16, c: u16)
        requires
            old(self).wf(),
            is_reg_word(a),
            is_valid_word(b),
            is_valid_word(c),
        ensures
            final(self)@ == apply_op(old(self)@, Operation::Eq(a, b, c)),
            final(self)@.regs[reg_idx(a)] == (if resolve(old(self)@, b) == resolve(old(self)@, c) {
                1u16
            } else {
                0u16
            }),
            final(self)@.regs[reg_idx(a)] == 0 || final(self)@.regs[reg_idx(a)] == 1,
    {
        let vb = self.get_val(b);
        let vc = self.get_val(c);
        let i = self.get_reg(a);
        self.regfile[i] = if vb == vc { 1 } else { 0 };
        proof {
            assert(self@ =~= apply_op(old(self)@, Operation::Eq(a, b, c)));
        }
    }

    /// `gt` stores exactly 1 when the first resolved operand is greater and
    /// exactly 0 otherwise: never any other word.
    fn gt(&mut self, a: u16, b: u16, c: u16)
        requires
            old(self).wf(),
            is_reg_word(a),
            is_valid_word(b),
            is_valid_word(c),
        ensures
            final(self)@ == apply_op(old(self)@, Operation::Gt(a, b, c)),
            final(self)@.regs[reg_idx(a)] == (if resolve(old(self)@, b) > resolve(old(self)@, c) {
                1u16
            } else {
                0u16
            }),
            final(self)@.regs[reg_idx(a)] == 0 || final(self)@.regs[reg_idx(a)] == 1,
    {
        let vb = self.get_val(b);
        let vc = self.get_val(c);
        let i = self.get_reg(a);
        self.regfile[i] = if vb > vc { 1 } else { 0 };
        proof {
            assert(self@ =~= apply_op(old(self)@, Operation::Gt(a, b, c)));
        }
    }

    fn jump(&mut self, a: u16)
        requires
            old(self).wf(),
            is_valid_word(a),
        ensures
            final(self)@ == apply_op(old(self)@, Operation::Jmp(a)),
    {
        let target = self.get_val(a);
        self.pc = target;
        proof {
            assert(self@ =~= apply_op(old(self)@, Operation::Jmp(a)));
        }
    }

    fn jump_true(&mut self, a: u16, b: u16)
        requires
            old(self).wf(),
            is_valid_word(a),
            resolve(old(self)@, a) != 0 ==> is_valid_word(b),
        ensures
            final(self)@ == apply_op(old(self)@, Operation::Jt(a, b)),
    {
        if self.get_val(a) != 0 {
            self.jump(b);
        }
        proof {
            assert(self@ =~= apply_op(old(self)@, Operation::Jt(a, b)));
        }
    }

    fn jump_false(&mut self, a: u16, b: u16)
        requires
            old(self).wf(),
            is_valid_word(a),
            resolve(old(self)@, a) == 0 ==> is_valid_word(b),
        ensures
            final(self)@ == apply_op(old(self)@, Operation::Jf(a, b)),
    {
        if self.get_val(a) == 0 {
            self.jump(b);
        }
        proof {
            assert(self@ =~= apply_op(old(self)@, Operation::Jf(a, b)));
        }
    }

    /// `add` wraps modulo 32768.
    fn add(&mut self, a: u16, b: u16, c: u16)
        requires
            old(self).wf(),
            is_reg_word(a),
            is_valid_word(b),
            is_valid_word(c),
        ensures
            final(self)@ == apply_op(old(self)@, Operation::Add(a, b, c)),
            final(self)@.regs[reg_idx(a)] == (resolve(old(self)@, b) + resolve(old(self)@, c))
                % 0x8000,
    {
        let vb = self.get_val(b);
        let vc = self.get_val(c);
        let i = self.get_reg(a);
        let v = ((vb as u32 + vc as u32) % 0x8000) as u16;
        self.regfile[i] = v;
        proof {
            assert(self@ =~= apply_op(old(self)@, Operation::Add(a, b, c)));
        }
    }

    /// `mod` stores the true remainder of the resolved operands.
    fn modulo(&mut self, a: u16, b: u16, c: u16)
        requires
            old(self).wf(),
            is_reg_word(a),
            is_valid_word(b),
            is_valid_word(c),
            resolve(old(self)@, c) != 0,
        ensures
            final(self)@ == apply_op(old(self)@, Operation::Mod(a, b, c)),
            final(self)@.regs[reg_idx(a)] == resolve(old(self)@, b) % resolve(old(self)@, c),
    {
        let vb = self.get_val(b);
        let vc = self.get_val(c);
        let i = self.get_reg(a);
        self.regfile[i] = vb % vc;
        proof {
            assert(self@ =~= apply_op(old(self)@, Operation::Mod(a, b, c)));
        }
    }

    /// `mult` wraps modulo 32768.
    fn mult(&mut self, a: u16, b: u16, c: u16)
        requires
            old(self).wf(),
            is_reg_word(a),
            is_valid_word(b),
            is_valid_word(c),
        ensures
            final(self)@ == apply_op(old(self)@, Operation::Mult(a, b, c)),
            final(self)@.regs[reg_idx(a)] == (resolve(old(self)@, b) * resolve(old(self)@, c))
                % 0x8000,
    {
        let vb = self.get_val(b);
        let vc = self.get_val(c);
        let i = self.get_reg(a);
        proof {
            assert(vb * vc <= 0xffff * 0xffff) by (nonlinear_arith)
                requires
                    vb <= 0xffff,
                    vc <= 0xffff,
            ;
        }
        let v = ((vb as u32 * vc as u32) % 0x8000) as u16;
        self.regfile[i] = v;
        proof {
            assert(self@ =~= apply_op(old(self)@, Operation::Mult(a, b, c)));
        }
    }

    /// `and` is bitwise over the resolved operands.
    fn and(&mut self, a: u16, b: u16, c: u16)
        requires
            old(self).wf(),
            is_reg_word(a),
            is_valid_word(b),
            is_valid_word(c),
        ensures
            final(self)@ == apply_op(old(self)@, Operation::And(a, b, c)),
            final(self)@.regs[reg_idx(a)] == resolve(old(self)@, b) & resolve(old(self)@, c),
    {
        let vb = self.get_val(b);
        let vc = self.get_val(c);
        let i = self.get_reg(a);
        self.regfile[i] = vb & vc;
        proof {
            assert(self@ =~= apply_op(old(self)@, Operation::And(a, b, c)));
        }
    }

    /// `or` is bitwise over the resolved operands.
    fn or(&mut self, a: u16, b: u16, c: u16)
        requires
            old(self).wf(),
            is_reg_word(a),
            is_valid_word(b),
            is_valid_word(c),
        ensures
            final(self)@ == apply_op(old(self)@, Operation::Or(a, b, c)),
            final(self)@.regs[reg_idx(a)] == (resolve(old(self)@, b) | resolve(old(self)@, c)),
    {
        let vb = self.get_val(b);
        let vc = self.get_val(c);
        let i = self.get_reg(a);
        self.regfile[i] = vb | vc;
        proof {
            assert(self@ =~= apply_op(old(self)@, Operation::Or(a, b, c)));
        }
    }

    /// `not` is the bitwise complement masked to 15 bits.
    fn not(&mut self, a: u16, b: u16)
        requires
            old(self).wf(),
            is_reg_word(a),
            is_valid_word(b),
        ensures
            final(self)@ == apply_op(old(self)@, Operation::Not(a, b)),
            final(self)@.regs[reg_idx(a)] == (!resolve(old(self)@, b)) & 0x7fff,
    {
        let vb = self.get_val(b);
        let i = self.get_reg(a);
        self.regfile[i] = (!vb) & 0x7fff;
        proof {
            assert(self@ =~= apply_op(old(self)@, Operation::Not(a, b)));
        }
    }

    fn rmem(&mut self, a: u16, b: u16)
        requires
            old(self).wf(),
            is_reg_word(a),
            is_valid_word(b),
            resolve(old(self)@, b) < 0x8000,
        ensures
            final(self)@ == apply_op(old(self)@, Operation::Rmem(a, b)),
    {
        let addr = self.get_val(b);
        let v = self.memory[addr as usize];
        let i = self.get_reg(a);
        self.regfile[i] = v;
        proof {
            assert(self@ =~= apply_op(old(self)@, Operation::Rmem(a, b)));
        }
    }

    fn wmem(&mut self, a: u16, b: u16)
        requires
            old(self).wf(),
            is_valid_word(a),
            is_valid_word(b),
            resolve(old(self)@, a) < 0x8000,
        ensures
            final(self)@ == apply_op(old(self)@, Operation::Wmem(a, b)),
    {
        let addr = self.get_val(a);
        let v = self.get_val(b);
        self.memory[addr as usize] = v;
        proof {
            assert(self@ =~= apply_op(old(self)@, Operation::Wmem(a, b)));
        }
    }

    /// `call` pushes the already-advanced return address, then jumps.
    fn call(&mut self, a: u16)
        requires
            old(self).wf(),
            is_valid_word(a),
        ensures
            final(self)@ == apply_op(old(self)@, Operation::Call(a)),
    {
        let pc = self.pc;
        self.stack.push(pc);
        let target = self.get_val(a);
        self.pc = target;
        proof {
            assert(self@ =~= apply_op(old(self)@, Operation::Call(a)));
        }
    }

    /// `ret` on an empty stack halts gracefully instead of failing.
    fn ret(&mut self)
        ensures
            final(self)@ == apply_op(old(self)@, Operation::Ret()),
    {
        match self.stack.pop() {
            Some(target) => {
                self.pc = target;
            },
            None => {
                self.halted = true;
            },
        }
        proof {
            assert(self@ =~= apply_op(old(self)@, Operation::Ret()));
        }
    }

    fn out(&mut self, a: u16)
        requires
            old(self).wf(),
            is_valid_word(a),
            resolve(old(self)@, a) <= 255,
        ensures
            final(self)@ == apply_op(old(self)@, Operation::Out(a)),
    {
        let v = self.get_val(a);
        self.out_buf.push(v as u8);
        proof {
            assert(self@ =~= apply_op(old(self)@, Operation::Out(a)));
        }
    }

    /// `in` consumes the oldest buffered input byte, zero-extended into the
    /// target register.  `step` never dispatches here with an empty buffer:
    /// it reports `NeedInput` instead.
    fn inp(&mut self, a: u16)
        requires
            old(self).wf(),
            is_reg_word(a),
            old(self)@.input.len() > 0,
        ensures
            final(self)@ == apply_op(old(self)@, Operation::In(a)),
    {
        let b = self.in_buf.remove(0);
        let i = self.get_reg(a);
        self.regfile[i] = b as u16;
        proof {
            assert(self@ =~= apply_op(old(self)@, Operation::In(a)));
        }
    }

    fn noop(&self) {
    }

    /// Dispatches an already-checked operation to its effect.
    fn execute(&mut self, op: &Operation)
        requires
            old(self).wf(),
            op_fault(old(self)@, *op) is None,
            *op is In ==> old(self)@.input.len() > 0,
        ensures
            final(self)@ == apply_op(old(self)@, *op),
    {
        match *op {
            Operation::Halt() => self.halt(),
            Operation::SetReg(a, b) => self.set(a, b),
            Operation::Push(a) => self.push(a),
            Operation::Pop(a) => self.pop(a),
            Operation::Eq(a, b, c) => self.eq(a, b, c),
            Operation::Gt(a, b, c) => self.gt(a, b, c),
            Operation::Jmp(a) => self.jump(a),
            Operation::Jt(a, b) => self.jump_true(a, b),
            Operation::Jf(a, b) => self.jump_false(a, b),
            Operation::Add(a, b, c) => self.add(a, b, c),
            Operation::Mult(a, b, c) => self.mult(a, b, c),
            Operation::Mod(a, b, c) => self.modulo(a, b, c),
            Operation::And(a, b, c) => self.and(a, b, c),
            Operation::Or(a, b, c) => self.or(a, b, c),
            Operation::Not(a, b) => self.not(a, b),
            Operation::Rmem(a, b) => self.rmem(a, b),
            Operation::Wmem(a, b) => self.wmem(a, b),
            Operation::Call(a) => self.call(a),
            Operation::Ret() => self.ret(),
            Operation::Out(a) => self.out(a),
            Operation::In(a) => self.inp(a),
            Operation::Noop() => self.noop(),
            Operation::Invalid() => self.noop(),
        }
    }

    /// One engine step.  A halted machine is left untouched.  Otherwise the
    /// instruction at the program counter is decoded and checked; if it
    /// would hit a fatal condition the machine is unchanged and the fault is
    /// reported, if it is `in` with no buffered input the machine is
    /// unchanged and `NeedInput` is reported, and otherwise the program
    /// counter advances by the instruction's word-length first and the
    /// instruction's effect runs.  The halted flag is monotonic.
    pub fn step(&mut self) -> (r: Result<StepOutcome, Fault>)
        requires
            old(self).wf(),
        ensures
            final(self).wf(),
            final(self)@ == spec_step(old(self)@).0,
            r == spec_step(old(self)@).1,
            old(self)@.halted ==> final(self)@.halted,
            r is Err ==> final(self)@ == old(self)@,
    {
        if self.halted {
            return Ok(StepOutcome::Stepped);
        }
        if self.pc > 0x7ffc {
            return Err(Fault::OutOfRangeAddress);
        }
        let op = self.fetch();
        if let Err(f) = self.check_op(&op) {
            return Err(f);
        }
        if let Operation::In(_) = op {
            if self.in_buf.len() == 0 {
                return Ok(StepOutcome::NeedInput);
            }
        }
        let l = op.len();
        self.pc = self.pc + l;
        proof {
            assert(self@ =~= advance(old(self)@, op));
        }
        self.execute(&op);
        Ok(StepOutcome::Stepped)
    }
}


/// A word sequence flattened to bytes, each word little-endian.
pub open spec fn words_to_bytes(ws: Seq<u16>) -> Seq<u8> {
    Seq::new(2 * ws.len(), |i: int| vstd::bytes::spec_u16_to_le_bytes(ws[i / 2])[i % 2])
}

/// A byte sequence combined into words, two bytes little-endian each.
/// A trailing odd byte is ignored; `restore` rejects such input up front.
pub open spec fn bytes_to_words(b: Seq<u8>) -> Seq<u16> {
    Seq::new(b.len() / 2, |i: int| vstd::bytes::spec_u16_from_le_bytes(b.subrange(2 * i, 2 * i + 2)))
}

/// The snapshot word layout: pc, the 8 registers in index order, the 32768
/// memory words in address order, then the stack bottom-to-top.
pub open spec fn snapshot_words(s: State) -> Seq<u16> {
    seq![s.pc] + s.regs + s.mem + s.stack
}

/// The snapshot byte layout: `snapshot_words`, each word little-endian.
pub open spec fn snapshot_bytes(s: State) -> Seq<u8> {
    words_to_bytes(snapshot_words(s))
}

/// A snapshot buffer is well-formed when it is an even number of bytes and
/// holds at least the fixed pc + registers + memory header.
pub open spec fn snapshot_len_ok(b: Seq<u8>) -> bool {
    b.len() % 2 == 0 && b.len() >= 2 * 0x8009
}

/// The state a machine in state `s` reaches by restoring the buffer `b`:
/// pc, registers, memory and stack come from the buffer, everything else
/// (halted flag, input and output buffers) is untouched.
pub open spec fn restored_state(s: State, b: Seq<u8>) -> State {
    let ws = bytes_to_words(b);
    State {
        pc: ws[0],
        regs: ws.subrange(1, 9),
        mem: ws.subrange(9, 0x8009),
        stack: ws.subrange(0x8009, ws.len() as int),
        ..s
    }
}

/// Flattening one more word appends exactly its two little-endian bytes.
proof fn lemma_words_to_bytes_step(ws: Seq<u16>, k: int)
    requires
        0 <= k < ws.len(),
    ensures
        words_to_bytes(ws.take(k + 1)) =~= words_to_bytes(ws.take(k))
            + vstd::bytes::spec_u16_to_le_bytes(ws[k]),
{
    vstd::bytes::lemma_auto_spec_u16_to_from_le_bytes();
    let lhs = words_to_bytes(ws.take(k + 1));
    let rhs = words_to_bytes(ws.take(k)) + vstd::bytes::spec_u16_to_le_bytes(ws[k]);
    assert(lhs.len() == rhs.len());
    assert forall|i: int| 0 <= i < lhs.len() implies lhs[i] == rhs[i] by {
        if i < 2 * k {
        } else {
            assert(i / 2 == k && i % 2 == i - 2 * k);
        }
    }
}

/// Combining a flattened word sequence gives the words back.
proof fn lemma_bytes_to_words_of_words(ws: Seq<u16>)
    ensures
        bytes_to_words(words_to_bytes(ws)) =~= ws,
{
    vstd::bytes::lemma_auto_spec_u16_to_from_le_bytes();
    let b = words_to_bytes(ws);
    assert(b.len() == 2 * ws.len());
    assert forall|i: int| 0 <= i < ws.len() implies bytes_to_words(b)[i] == ws[i] by {
        let pair = b.subrange(2 * i, 2 * i + 2);
        assert forall|j: int| 0 <= j < 2 implies pair[j] == vstd::bytes::spec_u16_to_le_bytes(
            ws[i],
        )[j] by {
            assert((2 * i + j) / 2 == i && (2 * i + j) % 2 == j);
        }
        assert(pair =~= vstd::bytes::spec_u16_to_le_bytes(ws[i]));
    }
}

/// Round trip: restoring a dump of state `s` into any machine reproduces
/// the pc, all 8 registers, all 32768 memory words, and the full stack of
/// `s`, while the target machine's halted flag and I/O buffers stay its own.
pub proof fn lemma_snapshot_roundtrip(s: State, t: State)
    requires
        s.wf(),
    ensures
        restored_state(t, snapshot_bytes(s)).pc == s.pc,
        restored_state(t, snapshot_bytes(s)).regs =~= s.regs,
        restored_state(t, snapshot_bytes(s)).mem =~= s.mem,
        restored_state(t, snapshot_bytes(s)).stack =~= s.stack,
        restored_state(t, snapshot_bytes(s)).halted == t.halted,
        restored_state(t, snapshot_bytes(s)).input =~= t.input,
        restored_state(t, snapshot_bytes(s)).output =~= t.output,
{
    let ws = snapshot_words(s);
    lemma_bytes_to_words_of_words(ws);
    assert(bytes_to_words(snapshot_bytes(s)) =~= ws);
    assert(ws.subrange(1, 9) =~= s.regs);
    assert(ws.subrange(9, 0x8009) =~= s.mem);
    assert(ws.subrange(0x8009, ws.len() as int) =~= s.stack);
}

/// Appends the two little-endian bytes of `w`.
fn push_word_bytes(bytes: &mut Vec<u8>, w: u16)
    ensures
        final(bytes)@ == old(bytes)@ + vstd::bytes::spec_u16_to_le_bytes(w),
{
    proof {
        vstd::bytes::lemma_auto_spec_u16_to_from_le_bytes();
    }
    let le = vstd::bytes::u16_to_le_bytes(w);
    bytes.push(le[0]);
    bytes.push(le[1]);
    proof {
        assert(bytes@ =~= old(bytes)@ + vstd::bytes::spec_u16_to_le_bytes(w));
    }
}

impl Machine {
    /// Serializes the machine state in the fixed snapshot layout:
    /// little-endian words for pc, registers 0..=7, all memory, then the
    /// stack bottom-to-top.  Total length: 2 * (1 + 8 + 32768 + stack depth).
    pub fn dump(&self) -> (bytes: Vec<u8>)
        requires
            self.wf(),
        ensures
            bytes@ == snapshot_bytes(self@),
            bytes@.len() == 2 * (0x8009 + self@.stack.len()),
    {
        let ghost gws = snapshot_words(self@);
        let mut ws: Vec<u16> = Vec::new();
        ws.push(self.pc);
        let mut i: usize = 0;
        while i < 8
            invariant
                self.wf(),
                i <= 8,
                ws@ =~= seq![self@.pc] + self@.regs.take(i as int),
            decreases 8 - i,
        {
            ws.push(self.regfile[i]);
            i = i + 1;
        }
        let mut i: usize = 0;
        while i < 0x8000
            invariant
                self.wf(),
                i <= 0x8000,
                ws@ =~= seq![self@.pc] + self@.regs + self@.mem.take(i as int),
            decreases 0x8000 - i,
        {
            ws.push(self.memory[i]);
            i = i + 1;
        }
        let mut i: usize = 0;
        while i < self.stack.len()
            invariant
                self.wf(),
                i <= self@.stack.len(),
                ws@ =~= seq![self@.pc] + self@.regs + self@.mem + self@.stack.take(i as int),
            decreases self@.stack.len() - i,
        {
            ws.push(self.stack[i]);
            i = i + 1;
        }
        proof {
            assert(ws@ =~= gws);
        }
        let mut bytes: Vec<u8> = Vec::new();
        let mut i: usize = 0;
        while i < ws.len()
            invariant
                ws@ == gws,
                i <= gws.len(),
                bytes@ =~= words_to_bytes(gws.take(i as int)),
            decreases gws.len() - i,
        {
            push_word_bytes(&mut bytes, ws[i]);
            proof {
                lemma_words_to_bytes_step(gws, i as int);
            }
            i = i + 1;
        }
        proof {
            assert(gws.take(gws.len() as int) =~= gws);
            vstd::bytes::lemma_auto_spec_u16_to_from_le_bytes();
        }
        bytes
    }

    /// Restores the machine from a snapshot buffer in the layout `dump`
    /// produces; the stack is whatever follows the fixed header.  A buffer
    /// with an odd length or one too short for the header is rejected
    /// unchanged.  The halted flag and the I/O buffers are not part of a
    /// snapshot and stay as they are.
    pub fn restore(&mut self, bytes: &[u8]) -> (r: Result<(), Fault>)
        requires
            old(self).wf(),
        ensures
            final(self).wf(),
            r is Ok <==> snapshot_len_ok(bytes@),
            r is Ok ==> final(self)@ == restored_state(old(self)@, bytes@),
            r is Err ==> final(self)@ == old(self)@ && r == Err::<(), Fault>(
                Fault::MalformedSnapshot,
            ),
    {
        if bytes.len() % 2 != 0 || bytes.len() < 2 * 0x8009 {
            return Err(Fault::MalformedSnapshot);
        }
        let ghost ws = bytes_to_words(bytes@);
        self.pc = assemble_word(slice_subrange(bytes, 0, 2));
        let mut i: usize = 0;
        while i < 8
            invariant
                self.wf(),
                i <= 8,
                bytes@.len() % 2 == 0,
                bytes@.len() >= 2 * 0x8009,
                ws == bytes_to_words(bytes@),
                self@.pc == ws[0],
                forall|j: int| 0 <= j < i ==> self@.regs[j] == ws[1 + j],
                self@.mem == old(self)@.mem,
                self@.stack == old(self)@.stack,
                self@.halted == old(self)@.halted,
                self@.input == old(self)@.input,
                self@.output == old(self)@.output,
            decreases 8 - i,
        {
            let w = assemble_word(slice_subrange(bytes, 2 + 2 * i, 4 + 2 * i));
            proof {
                assert(bytes@.subrange(2 + 2 * i as int, 4 + 2 * i as int) == bytes@.subrange(
                    2 * (1 + i as int),
                    2 * (1 + i as int) + 2,
                ));
            }
            self.regfile[i] = w;
            i = i + 1;
        }
        let mut i: usize = 0;
        while i < 0x8000
            invariant
                self.wf(),
                i <= 0x8000,
                bytes@.len() % 2 == 0,
                bytes@.len() >= 2 * 0x8009,
                ws == bytes_to_words(bytes@),
                self@.pc == ws[0],
                forall|j: int| 0 <= j < 8 ==> self@.regs[j] == ws[1 + j],
                forall|j: int| 0 <= j < i ==> self@.mem[j] == ws[9 + j],
                self@.stack == old(self)@.stack,
                self@.halted == old(self)@.halted,
                self@.input == old(self)@.input,
                self@.output == old(self)@.output,
            decreases 0x8000 - i,
        {
            let w = assemble_word(slice_subrange(bytes, 18 + 2 * i, 20 + 2 * i));
            proof {
                assert(bytes@.subrange(18 + 2 * i as int, 20 + 2 * i as int) == bytes@.subrange(
                    2 * (9 + i as int),
                    2 * (9 + i as int) + 2,
                ));
            }
            self.memory[i] = w;
            i = i + 1;
        }
        let count: usize = (bytes.len() - 2 * 0x8009) / 2;
        proof {
            assert(2 * count == bytes@.len() - 2 * 0x8009);
        }
        let mut stack: Vec<u16> = Vec::new();
        let mut i: usize = 0;
        while i < count
            invariant
                i <= count,
                count == (bytes@.len() - 2 * 0x8009) / 2,
                2 * count == bytes@.len() - 2 * 0x8009,
                bytes@.len() <= usize::MAX,
                bytes@.len() % 2 == 0,
                bytes@.len() >= 2 * 0x8009,
                ws == bytes_to_words(bytes@),
                stack@.len() == i,
                forall|j: int| 0 <= j < i ==> stack@[j] == ws[0x8009 + j],
            decreases count - i,
        {
            let w = assemble_word(slice_subrange(bytes, 2 * 0x8009 + 2 * i, 2 * 0x8009 + 2 * i + 2));
            proof {
                assert(bytes@.subrange(
                    2 * 0x8009 + 2 * i as int,
                    2 * 0x8009 + 2 * i as int + 2,
                ) == bytes@.subrange(2 * (0x8009 + i as int), 2 * (0x8009 + i as int) + 2));
            }
            stack.push(w);
            i = i + 1;
        }
        self.stack = stack;
        proof {
            assert(self@.regs =~= ws.subrange(1, 9));
            assert(self@.mem =~= ws.subrange(9, 0x8009));
            assert(ws.len() == bytes@.len() / 2);
            assert(self@.stack =~= ws.subrange(0x8009, ws.len() as int));
            assert(self@ =~= restored_state(old(self)@, bytes@));
        }
        Ok(())
    }
}


/// The arithmetic and logic laws, for all resolved operand pairs: `add` and
/// `mult` store their result modulo 32768, `mod` stores the true remainder
/// (a zero divisor is fatal and never reaches the effect), `and` and `or`
/// are bitwise over the 15-bit operands, and `not` is the complement masked
/// to 15 bits.  Each effect is exactly one register write: no other
/// register, no memory word, stack entry, program counter, halted flag or
/// I/O buffer changes.  Results land back in the 15-bit value range: always
/// for `add`, `mult` and `not`; below the divisor for `mod`; and for `and`
/// and `or` whenever the operands are 15-bit values.
pub proof fn lemma_alu_laws(s: State, a: u16, b: u16, c: u16)
    requires
        s.wf(),
        is_reg_word(a),
        is_valid_word(b),
        is_valid_word(c),
    ensures
        apply_op(s, Operation::Add(a, b, c)) == (State {
            regs: s.regs.update(reg_idx(a), ((resolve(s, b) + resolve(s, c)) % 0x8000) as u16),
            ..s
        }),
        apply_op(s, Operation::Add(a, b, c)).regs[reg_idx(a)] == (resolve(s, b) + resolve(s, c))
            % 0x8000 < 0x8000,
        apply_op(s, Operation::Mult(a, b, c)) == (State {
            regs: s.regs.update(reg_idx(a), ((resolve(s, b) * resolve(s, c)) % 0x8000) as u16),
            ..s
        }),
        apply_op(s, Operation::Mult(a, b, c)).regs[reg_idx(a)] == (resolve(s, b) * resolve(s, c))
            % 0x8000 < 0x8000,
        apply_op(s, Operation::Mod(a, b, c)) == (State {
            regs: s.regs.update(reg_idx(a), (resolve(s, b) % resolve(s, c)) as u16),
            ..s
        }),
        resolve(s, c) != 0 ==> apply_op(s, Operation::Mod(a, b, c)).regs[reg_idx(a)] == resolve(
            s,
            b,
        ) % resolve(s, c) < resolve(s, c),
        apply_op(s, Operation::And(a, b, c)) == (State {
            regs: s.regs.update(reg_idx(a), resolve(s, b) & resolve(s, c)),
            ..s
        }),
        apply_op(s, Operation::And(a, b, c)).regs[reg_idx(a)] == (resolve(s, b) & resolve(s, c)),
        resolve(s, b) < 0x8000 ==> apply_op(s, Operation::And(a, b, c)).regs[reg_idx(a)] < 0x8000,
        apply_op(s, Operation::Or(a, b, c)) == (State {
            regs: s.regs.update(reg_idx(a), resolve(s, b) | resolve(s, c)),
            ..s
        }),
        apply_op(s, Operation::Or(a, b, c)).regs[reg_idx(a)] == (resolve(s, b) | resolve(s, c)),
        resolve(s, b) < 0x8000 && resolve(s, c) < 0x8000 ==> apply_op(
            s,
            Operation::Or(a, b, c),
        ).regs[reg_idx(a)] < 0x8000,
        apply_op(s, Operation::Not(a, b)) == (State {
            regs: s.regs.update(reg_idx(a), (!resolve(s, b)) & 0x7fff),
            ..s
        }),
        apply_op(s, Operation::Not(a, b)).regs[reg_idx(a)] == ((!resolve(s, b)) & 0x7fff)
            < 0x8000,
{
    let x = resolve(s, b);
    let y = resolve(s, c);
    assert((x & y) <= x) by (bit_vector);
    assert(x < 0x8000 && y < 0x8000 ==> (x | y) < 0x8000) by (bit_vector);
    assert(((!x) & 0x7fff) < 0x8000) by (bit_vector);
}

/// The comparison laws: `eq` and `gt` store exactly 0 or 1, never any
/// other word, store 1 exactly when the comparison of the resolved operands
/// holds, and change nothing besides that one register.
pub proof fn lemma_flag_laws(s: State, a: u16, b: u16, c: u16)
    requires
        s.wf(),
        is_reg_word(a),
        is_valid_word(b),
        is_valid_word(c),
    ensures
        apply_op(s, Operation::Eq(a, b, c)) == (State {
            regs: s.regs.update(
                reg_idx(a),
                if resolve(s, b) == resolve(s, c) {
                    1u16
                } else {
                    0u16
                },
            ),
            ..s
        }),
        apply_op(s, Operation::Gt(a, b, c)) == (State {
            regs: s.regs.update(
                reg_idx(a),
                if resolve(s, b) > resolve(s, c) {
                    1u16
                } else {
                    0u16
                },
            ),
            ..s
        }),
        apply_op(s, Operation::Eq(a, b, c)).regs[reg_idx(a)] == 0 || apply_op(
            s,
            Operation::Eq(a, b, c),
        ).regs[reg_idx(a)] == 1,
        apply_op(s, Operation::Gt(a, b, c)).regs[reg_idx(a)] == 0 || apply_op(
            s,
            Operation::Gt(a, b, c),
        ).regs[reg_idx(a)] == 1,
{
}

} // verus!
