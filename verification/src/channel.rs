//! The trusted boundary to crossbeam's multi-producer/multi-consumer FIFO
//! channels. The channels are shared by threads running concurrently, so
//! nothing can be stated of which message a receive yields or of whether a
//! send finds a receiver still alive; the verified callers state what holds
//! of their own accumulators whatever the channel does.

use vstd::prelude::*;

verus! {

#[verifier::external_type_specification]
#[verifier::external_body]
#[verifier::reject_recursive_types(T)]
pub struct ExSender<T>(crossbeam::channel::Sender<T>);

#[verifier::external_type_specification]
#[verifier::external_body]
#[verifier::reject_recursive_types(T)]
pub struct ExReceiver<T>(crossbeam::channel::Receiver<T>);

/// Relies on crossbeam's Sender::send: on an unbounded channel it never
/// blocks, delivers the message unless every receiver is gone, and fails
/// only in that case. Delivery cannot be spoken of here, so nothing is
/// stated of the result.
#[verifier::external_body]
pub(crate) fn channel_send<T>(sender: &crossbeam::channel::Sender<T>, value: T) -> (delivered:
    bool) {
    sender.send(value).is_ok()
}

/// Relies on crossbeam's Receiver::recv: it blocks until a message is
/// available, and returns none only when the channel is empty and every
/// sender is gone. Which message arrives depends on the other threads, so
/// nothing is stated of the result.
#[verifier::external_body]
pub(crate) fn channel_recv<T>(receiver: &crossbeam::channel::Receiver<T>) -> (msg: Option<T>) {
    receiver.recv().ok()
}

} // verus!
