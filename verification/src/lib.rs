//! A verified virtual machine for a fixed 16-bit-word instruction set, with
//! state persistence, a disassembler, and an interactive debugging session.
//!
//! The execution engine (`machine`) reproduces exact 15-bit arithmetic
//! semantics, the literal/register operand encoding, and the precise
//! program-counter update order, and serializes its state to the fixed
//! snapshot layout.  The debugging session (`debugger`) evaluates
//! breakpoints and watchpoints before every proposed engine step and
//! processes text commands arriving over a pair of message channels
//! (`channel`).  The disassembler (`disasm`) and the number/token helpers
//! (`text`) render and parse the protocol's text; `teleport` holds the
//! machine's memoized teleporter self-check recurrence.

pub mod channel;
pub mod debugger;
pub mod disasm;
pub mod machine;
pub mod teleport;
pub mod text;
