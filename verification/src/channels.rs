//! The channels of the `futures` crate through which the server's tasks talk:
//! one-shot replies and bounded or unbounded command queues.

use vstd::prelude::*;
use std::sync::Arc;
use futures::sync::{mpsc, oneshot};

verus! {

#[verifier::external_type_specification]
#[verifier::external_body]
#[verifier::reject_recursive_types(T)]
pub struct ExOneshotSender<T>(futures::sync::oneshot::Sender<T>);

#[verifier::external_type_specification]
#[verifier::external_body]
#[verifier::reject_recursive_types(T)]
pub struct ExOneshotReceiver<T>(futures::sync::oneshot::Receiver<T>);

#[verifier::external_type_specification]
#[verifier::external_body]
#[verifier::reject_recursive_types(T)]
pub struct ExMpscSender<T>(futures::sync::mpsc::Sender<T>);

#[verifier::external_type_specification]
#[verifier::external_body]
#[verifier::reject_recursive_types(T)]
pub struct ExMpscReceiver<T>(futures::sync::mpsc::Receiver<T>);

#[verifier::external_type_specification]
#[verifier::external_body]
#[verifier::reject_recursive_types(T)]
pub struct ExMpscUnboundedSender<T>(futures::sync::mpsc::UnboundedSender<T>);

#[verifier::external_type_specification]
#[verifier::external_body]
#[verifier::reject_recursive_types(T)]
pub struct ExMpscUnboundedReceiver<T>(futures::sync::mpsc::UnboundedReceiver<T>);

/// `futures::sync::mpsc::Sender` is `Clone`: a clone is another sender into
/// the same channel. Nothing is claimed about the clone.
pub assume_specification<T>[ <mpsc::Sender<T> as Clone>::clone ](s: &mpsc::Sender<T>) -> mpsc::Sender<T>;

/// Calls `futures::sync::mpsc::channel`, which makes a bounded channel; it
/// asserts that `buffer` is below `usize::MAX >> 2`, which `requires` keeps.
#[verifier::external_body]
pub(crate) fn bounded_channel<T>(buffer: usize) -> (pair: (mpsc::Sender<T>, mpsc::Receiver<T>))
    requires
        buffer < usize::MAX / 4,
{
    mpsc::channel(buffer)
}

/// Calls `futures::sync::mpsc::unbounded`, which makes an unbounded channel.
#[verifier::external_body]
pub(crate) fn unbounded_channel<T>() -> (pair: (mpsc::UnboundedSender<T>, mpsc::UnboundedReceiver<T>)) {
    mpsc::unbounded()
}

/// Calls `futures::sync::oneshot::channel`, which makes a one-shot channel:
/// what is sent on the sender can be received once on the receiver.
#[verifier::external_body]
pub(crate) fn oneshot_channel<T>() -> (pair: (oneshot::Sender<T>, oneshot::Receiver<T>)) {
    oneshot::channel()
}

/// Calls `futures::sync::oneshot::Sender::is_canceled`: whether the receiving
/// end has been dropped, which depends on that end alone.
#[verifier::external_body]
pub(crate) fn is_canceled<T>(tx: &oneshot::Sender<T>) -> (canceled: bool) {
    tx.is_canceled()
}

/// Calls `std::sync::Arc::try_unwrap`, which gives back the value held when
/// this was the only strong reference to it, and nothing otherwise (the
/// reference is then dropped); which of the two holds depends on the other
/// references, so only what comes back when it succeeds is stated.
#[verifier::external_body]
pub(crate) fn arc_try_unwrap<T>(arc: Arc<T>) -> (value: Option<T>)
    ensures
        value matches Some(v) ==> v == *arc,
{
    Arc::try_unwrap(arc).ok()
}

} // verus!
