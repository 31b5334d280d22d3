//! The per-session outbound queue, provided by tokio.

use vstd::prelude::*;
use tokio::sync::mpsc::UnboundedSender;

verus! {

/// tokio's sending half of an unbounded queue, carried opaquely so that a
/// session's handle can hold it.
#[verifier::external_type_specification]
#[verifier::external_body]
#[verifier::reject_recursive_types(T)]
pub struct ExUnboundedSender<T>(UnboundedSender<T>);

/// Relies on tokio's `UnboundedSender::send`: it never waits, and it hands
/// the frame to the queue unless the receiving half is gone. Whether that
/// half is gone is decided elsewhere, so nothing is promised of the result.
#[verifier::external_body]
pub(crate) fn enqueue(tx: &UnboundedSender<String>, frame: String) -> (delivered: bool) {
    tx.send(frame).is_ok()
}

} // verus!
