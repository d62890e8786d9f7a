//! The grain handoff queue between the scheduler and the audio callback:
//! an unbounded multi-producer channel carrying finished grain buffers.
//!
//! The channel itself is outside code; its two endpoint types are
//! declared opaquely and the three calls the engine makes are wrapped.
//! Nothing is promised of what a receive yields: the mixer is verified
//! for every sequence of grains the queue may hand it.

use vstd::prelude::*;

verus! {

#[verifier::external_type_specification]
#[verifier::external_body]
#[verifier::reject_recursive_types(T)]
pub struct ExSender<T>(crossbeam_channel::Sender<T>);

#[verifier::external_type_specification]
#[verifier::external_body]
#[verifier::reject_recursive_types(T)]
pub struct ExReceiver<T>(crossbeam_channel::Receiver<T>);

/// Relies on crossbeam_channel::unbounded: a fresh connected pair of
/// channel endpoints.
#[verifier::external_body]
pub(crate) fn channel_unbounded() -> (pair: (
    crossbeam_channel::Sender<Vec<i32>>,
    crossbeam_channel::Receiver<Vec<i32>>,
))
{
    crossbeam_channel::unbounded()
}

/// Relies on crossbeam_channel::Sender::send. A send error (the receiver
/// is gone) is ignored, as the engine drops grains without a consumer.
#[verifier::external_body]
pub(crate) fn send_grain(sender: &crossbeam_channel::Sender<Vec<i32>>, grain: Vec<i32>) {
    let _ = sender.send(grain);
}

/// Relies on crossbeam_channel::Receiver::try_recv: the next queued
/// grain if one is waiting, nothing otherwise; it never blocks.
#[verifier::external_body]
pub(crate) fn try_recv_grain(receiver: &crossbeam_channel::Receiver<Vec<i32>>) -> (g: Option<
    Vec<i32>,
>)
{
    receiver.try_recv().ok()
}

} // verus!
