//! The disassembler: renders decoded instructions as text over an address
//! range, advancing by each instruction's own word-length.  Each line has the
//! shape `0xADDR: mnemonic operand...` with the address zero-padded to four
//! hex digits and every raw operand right-aligned in four columns of
//! lowercase hex.  Nothing here mutates engine state.

use vstd::prelude::*;
use vstd::string::StringExecFns;
use crate::machine::Machine;
use crate::machine::Operation;
use crate::machine::decode;
use crate::machine::op_len;
use crate::machine::operands;
use crate::text::hex_0x4;
use crate::text::hex_sp4;
use crate::text::push_hex_0x4;
use crate::text::push_hex_sp4;

verus! {

/// The mnemonic, left-justified and space-padded to four columns.  An
/// undecodable opcode renders as `????`.
pub open spec fn padded_mnemonic(op: Operation) -> Seq<char> {
    match op {
        Operation::Halt() => "halt"@,
        Operation::SetReg(_, _) => "set "@,
        Operation::Push(_) => "push"@,
        Operation::Pop(_) => "pop "@,
        Operation::Eq(_, _, _) => "eq  "@,
        Operation::Gt(_, _, _) => "gt  "@,
        Operation::Jmp(_) => "jmp "@,
        Operation::Jt(_, _) => "jt  "@,
        Operation::Jf(_, _) => "jf  "@,
        Operation::Add(_, _, _) => "add "@,
        Operation::Mult(_, _, _) => "mult"@,
        Operation::Mod(_, _, _) => "mod "@,
        Operation::And(_, _, _) => "and "@,
        Operation::Or(_, _, _) => "or  "@,
        Operation::Not(_, _) => "not "@,
        Operation::Rmem(_, _) => "rmem"@,
        Operation::Wmem(_, _) => "wmem"@,
        Operation::Call(_) => "call"@,
        Operation::Ret() => "ret "@,
        Operation::Out(_) => "out "@,
        Operation::In(_) => "in  "@,
        Operation::Noop() => "noop"@,
        Operation::Invalid() => "????"@,
    }
}

/// The raw operand words, each rendered as a space plus four right-aligned
/// columns of hex.
pub open spec fn operands_text(ws: Seq<u16>) -> Seq<char>
    decreases ws.len(),
{
    if ws.len() == 0 {
        seq![]
    } else {
        " "@ + hex_sp4(ws.first() as nat) + operands_text(ws.drop_first())
    }
}

/// One rendered instruction: padded mnemonic plus its raw operands.
pub open spec fn op_text(op: Operation) -> Seq<char> {
    padded_mnemonic(op) + operands_text(operands(op))
}

/// One disassembly line: `0xADDR: ` plus the instruction plus a newline.
pub open spec fn line_text(mem: Seq<u16>, pos: int) -> Seq<char> {
    hex_0x4(pos as nat) + ": "@ + op_text(decode(mem, pos)) + "\n"@
}

/// A disassembly of up to `count` instructions starting at `pos`, stopping
/// early where the next instruction's four-word read would leave the
/// address space.
pub open spec fn dis_text(mem: Seq<u16>, pos: int, count: int) -> Seq<char>
    decreases count,
{
    if count <= 0 || pos < 0 || pos > 0x7ffc {
        seq![]
    } else {
        line_text(mem, pos) + dis_text(mem, pos + op_len(decode(mem, pos)), count - 1)
    }
}

fn push_arg(s: &mut String, a: u16)
    ensures
        final(s)@ == old(s)@ + (" "@ + hex_sp4(a as nat)),
{
    s.append(" ");
    push_hex_sp4(s, a);
    proof {
        assert(s@ =~= old(s)@ + (" "@ + hex_sp4(a as nat)));
    }
}

/// Appends the rendering of one decoded instruction.
#[verifier::rlimit(50)]
pub fn push_op_text(s: &mut String, op: &Operation)
    ensures
        final(s)@ == old(s)@ + op_text(*op),
{
    match *op {
        Operation::Halt() => s.append("halt"),
        Operation::SetReg(a, b) => {
            s.append("set ");
            push_arg(s, a);
            push_arg(s, b);
        },
        Operation::Push(a) => {
            s.append("push");
            push_arg(s, a);
        },
        Operation::Pop(a) => {
            s.append("pop ");
            push_arg(s, a);
        },
        Operation::Eq(a, b, c) => {
            s.append("eq  ");
            push_arg(s, a);
            push_arg(s, b);
            push_arg(s, c);
        },
        Operation::Gt(a, b, c) => {
            s.append("gt  ");
            push_arg(s, a);
            push_arg(s, b);
            push_arg(s, c);
        },
        Operation::Jmp(a) => {
            s.append("jmp ");
            push_arg(s, a);
        },
        Operation::Jt(a, b) => {
            s.append("jt  ");
            push_arg(s, a);
            push_arg(s, b);
        },
        Operation::Jf(a, b) => {
            s.append("jf  ");
            push_arg(s, a);
            push_arg(s, b);
        },
        Operation::Add(a, b, c) => {
            s.append("add ");
            push_arg(s, a);
            push_arg(s, b);
            push_arg(s, c);
        },
        Operation::Mult(a, b, c) => {
            s.append("mult");
            push_arg(s, a);
            push_arg(s, b);
            push_arg(s, c);
        },
        Operation::Mod(a, b, c) => {
            s.append("mod ");
            push_arg(s, a);
            push_arg(s, b);
            push_arg(s, c);
        },
        Operation::And(a, b, c) => {
            s.append("and ");
            push_arg(s, a);
            push_arg(s, b);
            push_arg(s, c);
        },
        Operation::Or(a, b, c) => {
            s.append("or  ");
            push_arg(s, a);
            push_arg(s, b);
            push_arg(s, c);
        },
        Operation::Not(a, b) => {
            s.append("not ");
            push_arg(s, a);
            push_arg(s, b);
        },
        Operation::Rmem(a, b) => {
            s.append("rmem");
            push_arg(s, a);
            push_arg(s, b);
        },
        Operation::Wmem(a, b) => {
            s.append("wmem");
            push_arg(s, a);
            push_arg(s, b);
        },
        Operation::Call(a) => {
            s.append("call");
            push_arg(s, a);
        },
        Operation::Ret() => s.append("ret "),
        Operation::Out(a) => {
            s.append("out ");
            push_arg(s, a);
        },
        Operation::In(a) => {
            s.append("in  ");
            push_arg(s, a);
        },
        Operation::Noop() => s.append("noop"),
        Operation::Invalid() => s.append("????"),
    }
    proof {
        lemma_operands_text(operands(*op));
        assert(s@ =~= old(s)@ + op_text(*op));
    }
}

/// Unfolds `operands_text` over the at-most-three operand words.
proof fn lemma_operands_text(ws: Seq<u16>)
    ensures
        ws.len() == 0 ==> operands_text(ws) =~= Seq::<char>::empty(),
        ws.len() == 1 ==> operands_text(ws) =~= " "@ + hex_sp4(ws[0] as nat),
        ws.len() == 2 ==> operands_text(ws) =~= " "@ + hex_sp4(ws[0] as nat) + (" "@ + hex_sp4(
            ws[1] as nat,
        )),
        ws.len() == 3 ==> operands_text(ws) =~= " "@ + hex_sp4(ws[0] as nat) + (" "@ + hex_sp4(
            ws[1] as nat,
        )) + (" "@ + hex_sp4(ws[2] as nat)),
{
    reveal_with_fuel(operands_text, 4);
    if ws.len() == 1 {
        assert(ws.drop_first() =~= Seq::<u16>::empty());
    } else if ws.len() == 2 {
        let t = ws.drop_first();
        assert(t.drop_first() =~= Seq::<u16>::empty());
        assert(operands_text(t) =~= " "@ + hex_sp4(t[0] as nat));
        assert(t[0] == ws[1]);
        assert(operands_text(ws) =~= " "@ + hex_sp4(ws[0] as nat) + (" "@ + hex_sp4(ws[1] as nat)));
    } else if ws.len() == 3 {
        let t = ws.drop_first();
        let u = t.drop_first();
        assert(u.drop_first() =~= Seq::<u16>::empty());
        assert(operands_text(u) =~= " "@ + hex_sp4(u[0] as nat));
        assert(operands_text(t) =~= " "@ + hex_sp4(t[0] as nat) + (" "@ + hex_sp4(t[1] as nat)));
        assert(t[0] == ws[1] && t[1] == ws[2]);
        assert(operands_text(ws) =~= " "@ + hex_sp4(ws[0] as nat) + (" "@ + hex_sp4(ws[1] as nat))
            + (" "@ + hex_sp4(ws[2] as nat)));
    }
}

impl Machine {
    /// Renders `count` consecutive instructions beginning at `start`, each
    /// on its own line, advancing by each instruction's own word-length.
    /// Rendering stops early where the next decode would read past the end
    /// of memory.
    pub fn disassemble_range(&self, start: u16, count: u16) -> (r: String)
        requires
            self.wf(),
        ensures
            r@ == dis_text(self@.mem, start as int, count as int),
    {
        let mut out = String::new();
        let mut pos = start;
        let mut remaining = count;
        while remaining > 0 && pos <= 0x7ffc
            invariant
                self.wf(),
                dis_text(self@.mem, start as int, count as int) =~= out@ + dis_text(
                    self@.mem,
                    pos as int,
                    remaining as int,
                ),
            decreases remaining,
        {
            let op = self.fetch_at(pos);
            let ghost before = out@;
            push_hex_0x4(&mut out, pos);
            out.append(": ");
            push_op_text(&mut out, &op);
            out.append("\n");
            proof {
                assert(out@ =~= before + line_text(self@.mem, pos as int));
            }
            pos = pos + op.len();
            remaining = remaining - 1;
        }
        out
    }

    /// Renders the entire address space: the same walk bounded by the full
    /// instruction capacity of memory rather than an explicit count.
    pub fn disassemble_all(&self) -> (r: String)
        requires
            self.wf(),
        ensures
            r@ == dis_text(self@.mem, 0, 0x8000),
    {
        self.disassemble_range(0, 0x8000)
    }
}

} // verus!
