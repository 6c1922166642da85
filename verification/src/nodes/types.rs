//! Plain values that run through the graph.

use vstd::prelude::*;

verus! {

/// The shape of the wave that an oscillator produces.
#[derive(Debug, Clone, Copy, PartialEq, Eq, Structural)]
pub enum Wave {
    Sine,
    Square,
    Saw,
    Triangle,
}

} // verus!
