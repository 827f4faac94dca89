//! The channels that carry work to the pool and results back.

use crossbeam_channel::{Receiver, RecvError, Sender};
use vstd::prelude::*;

verus! {

/// `crossbeam_channel::Sender`, the sending end of a channel, as a value that
/// is carried through: nothing of what is in the channel is visible.
#[verifier::external_type_specification]
#[verifier::external_body]
#[verifier::reject_recursive_types(T)]
pub struct ExSender<T>(Sender<T>);

/// `crossbeam_channel::Receiver`, the receiving end of a channel, carried
/// through in the same way.
#[verifier::external_type_specification]
#[verifier::external_body]
#[verifier::reject_recursive_types(T)]
pub struct ExReceiver<T>(Receiver<T>);

/// `crossbeam_channel::RecvError`, the error of a receive on a channel that
/// is empty and has no sender left.
#[verifier::external_type_specification]
#[verifier::external_body]
pub struct ExRecvError(RecvError);

/// Calls `crossbeam_channel::bounded`, which makes a channel that buffers at
/// most `cap` messages and gives its two ends. With `cap == 0` a send
/// completes only when a receive takes the message over. The call fails on a
/// capacity too large to allocate; the library asks for 0 and 1 only. Nothing
/// is claimed of the ends.
#[verifier::external_body]
pub(crate) fn bounded<T>(cap: usize) -> (ends: (Sender<T>, Receiver<T>))
    requires
        cap <= 1,
{
    crossbeam_channel::bounded(cap)
}

/// Calls `Sender::send`, which blocks until the message is taken or buffered,
/// or until every receiver of the channel is gone, and in that case gives the
/// message back within its error. Which of the two happens depends on the
/// other threads; what is claimed is that a message that comes back is the
/// one that was handed in.
#[verifier::external_body]
pub(crate) fn send<T>(to: &Sender<T>, msg: T) -> (sent: Result<(), T>)
    ensures
        sent matches Err(back) ==> back == msg,
{
    match to.send(msg) {
        Ok(()) => Ok(()),
        Err(unsent) => Err(unsent.0),
    }
}

/// Calls `Receiver::recv`, which blocks until a message arrives, or until the
/// channel is empty and every sender is gone. Nothing is claimed of the
/// message.
#[verifier::external_body]
pub(crate) fn recv<T>(from: &Receiver<T>) -> (got: Result<T, RecvError>) {
    from.recv()
}

/// Calls `Receiver::clone`, which gives another receiving end of the same
/// channel. Nothing is claimed of it.
#[verifier::external_body]
pub(crate) fn share<T>(of: &Receiver<T>) -> (other: Receiver<T>) {
    of.clone()
}

} // verus!
