//! The `futures_channel` channels over which answers travel from the
//! connection's background task to the callers, and the calls made on them.
//!
//! Whether a value reaches the other end depends on whether that end is still
//! alive and, for a bounded channel, on how full it is: nothing of that is
//! known here, so the calls report the outcome and claim nothing more.

use futures_channel::{mpsc, oneshot};
use vstd::prelude::*;

verus! {

#[verifier::external_type_specification]
#[verifier::external_body]
#[verifier::reject_recursive_types(T)]
pub struct ExOneshotSender<T>(oneshot::Sender<T>);

#[verifier::external_type_specification]
#[verifier::external_body]
#[verifier::reject_recursive_types(T)]
pub struct ExMpscSender<T>(mpsc::Sender<T>);

#[verifier::external_type_specification]
#[verifier::external_body]
#[verifier::reject_recursive_types(T)]
pub struct ExMpscReceiver<T>(mpsc::Receiver<T>);

#[verifier::external_type_specification]
#[verifier::external_body]
#[verifier::reject_recursive_types(T)]
pub struct ExUnboundedSender<T>(mpsc::UnboundedSender<T>);

/// Calls `mpsc::UnboundedSender::unbounded_send`, which queues the value
/// unless the receiver was dropped. Returns whether it was queued.
#[verifier::external_body]
pub fn unbounded_send<T>(tx: &mpsc::UnboundedSender<T>, value: T) -> (queued: bool) {
    tx.unbounded_send(value).is_ok()
}

/// Calls `mpsc::channel`, which makes a bounded channel with `buffer` slots
/// shared by its senders. It panics when `buffer` is not below a quarter of
/// `usize::MAX`, so such sizes are not accepted.
#[verifier::external_body]
pub fn bounded_channel<T>(buffer: usize) -> (pair: (mpsc::Sender<T>, mpsc::Receiver<T>))
    requires
        buffer < usize::MAX / 4,
{
    mpsc::channel(buffer)
}

} // verus!
