//! The wake-up signals between the two sides of the pipeline.
use flume::{Receiver, Sender};
use vstd::prelude::*;

verus! {

/// The sending end of a signal channel.
#[verifier::external_type_specification]
#[verifier::external_body]
#[verifier::reject_recursive_types(T)]
pub struct ExSender<T>(Sender<T>);

/// The receiving end of a signal channel.
#[verifier::external_type_specification]
#[verifier::external_body]
#[verifier::reject_recursive_types(T)]
pub struct ExReceiver<T>(Receiver<T>);

/// `flume::bounded`: the two ends of a channel that holds at most `cap`
/// signals.
#[verifier::external_body]
pub(crate) fn signal_channel(cap: usize) -> (ends: (Sender<()>, Receiver<()>)) {
    flume::bounded(cap)
}

/// `Sender::try_send` of one signal. Whether the signal went in depends
/// on what the channel holds and on whether its receiver lives; it
/// never waits.
#[verifier::external_body]
pub(crate) fn signal(tx: &Sender<()>) -> (sent: bool) {
    tx.try_send(()).is_ok()
}

/// `Sender::clone`: another handle to the same channel.
#[verifier::external_body]
pub(crate) fn signal_handle(tx: &Sender<()>) -> (handle: Sender<()>) {
    tx.clone()
}

} // verus!
