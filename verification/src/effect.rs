//! Effects that shape the gain of a signal.

pub mod envelope;

pub use envelope::{Envelope, EnvelopeState};
