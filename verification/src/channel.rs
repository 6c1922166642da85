//! The channel that commands arrive on: the one place where the synthesizer
//! meets another thread.

use std::sync::mpsc::{Receiver, TryRecvError};
use vstd::prelude::*;

verus! {

/// What one look at a channel found.
pub enum Polled<T> {
    /// The message that waited longest.
    Message(T),
    /// Nothing is waiting.
    Empty,
    /// Nothing is waiting and every sender is gone.
    Closed,
}

/// The receiving end of a channel of the standard library,
/// `std::sync::mpsc::Receiver`, as a value that is carried through and never
/// looked into.
#[verifier::external_type_specification]
#[verifier::external_body]
#[verifier::reject_recursive_types(T)]
pub struct ExReceiver<T>(Receiver<T>);

/// Looks once at a channel, without waiting: a call of
/// `std::sync::mpsc::Receiver::try_recv`. What comes back depends on what the
/// senders did, so nothing is claimed of it.
#[verifier::external_body]
pub(crate) fn poll<T>(trigger: &Receiver<T>) -> (r: Polled<T>) {
    match trigger.try_recv() {
        Ok(message) => Polled::Message(message),
        Err(TryRecvError::Empty) => Polled::Empty,
        Err(TryRecvError::Disconnected) => Polled::Closed,
    }
}

} // verus!
