//! One-shot completion signals, built on crossbeam channels.
//!
//! The caller that computes a key's value holds the sending end; every caller
//! that waits for that key holds a receiving end. Dropping the sending end,
//! whether after publishing the value or while unwinding from a failed
//! computation, wakes every waiter.

use crossbeam_channel::{Receiver, Sender};
use vstd::prelude::*;

verus! {

#[verifier::external_type_specification]
#[verifier::external_body]
#[verifier::reject_recursive_types(T)]
pub struct ExSender<T>(Sender<T>);

#[verifier::external_type_specification]
#[verifier::external_body]
#[verifier::reject_recursive_types(T)]
pub struct ExReceiver<T>(Receiver<T>);

/// Relies on crossbeam_channel::unbounded: a fresh channel, whose receivers
/// see it disconnected once every sender has been dropped.
#[verifier::external_body]
pub(crate) fn new_signal() -> (Sender<()>, Receiver<()>) {
    crossbeam_channel::unbounded()
}

/// Relies on `Clone for crossbeam_channel::Receiver`: another receiving end
/// of the same channel.
#[verifier::external_body]
pub(crate) fn share_signal(r: &Receiver<()>) -> Receiver<()> {
    r.clone()
}

/// Relies on crossbeam_channel::Receiver::recv: blocks until a message
/// arrives or the channel is empty and disconnected.
#[verifier::external_body]
pub(crate) fn wait_signal(r: &Receiver<()>) {
    let _ = r.recv();
}

} // verus!
