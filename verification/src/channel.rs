//! The session's side of the two one-directional message channels that link
//! it to the external transport: commands in, answers out.  The channel
//! types and operations come from the standard library and are taken on
//! trust; nothing is assumed about what arrives, so the session logic is
//! verified for every possible command line.

use vstd::prelude::*;
use std::sync::mpsc::Receiver;
use std::sync::mpsc::Sender;

verus! {

#[verifier::external_type_specification]
#[verifier::external_body]
#[verifier::reject_recursive_types(T)]
pub struct ExSender<T>(Sender<T>);

#[verifier::external_type_specification]
#[verifier::external_body]
#[verifier::reject_recursive_types(T)]
pub struct ExReceiver<T>(Receiver<T>);

/// Relies on std::sync::mpsc::Sender::send: queues one answer line for the
/// transport.  Sending fails only when the receiving end is gone; the
/// answer is then dropped, as no client is left to read it.
#[verifier::external_body]
pub(crate) fn send_line(tx: &Sender<String>, line: String) {
    let _ = tx.send(line);
}

/// Relies on std::sync::mpsc::Receiver::recv: blocks until the transport
/// queues a command line, and returns `None` once the sending end is gone.
#[verifier::external_body]
pub(crate) fn recv_line(rx: &Receiver<String>) -> Option<String> {
    rx.recv().ok()
}

/// Relies on std::sync::mpsc::Receiver::try_recv: returns a queued command
/// line without blocking, or `None` when the queue is empty or the sending
/// end is gone.
#[verifier::external_body]
pub(crate) fn try_recv_line(rx: &Receiver<String>) -> Option<String> {
    rx.try_recv().ok()
}

} // verus!
