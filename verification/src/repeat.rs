//! How often an animation sequence is played.

use vstd::prelude::*;

verus! {

/// Repeat behavior for an animation sequence.
#[derive(Clone, Copy, Debug, PartialEq, Eq, Structural)]
pub enum Repeat {
    /// Play the sequence once plus `count` repeats.
    Count(usize),
    /// Loop forever.
    Infinite,
}

impl Default for Repeat {
    /// No repeats: the sequence plays once.
    fn default() -> (repeat: Self)
        ensures
            repeat == Repeat::Count(0),
    {
        Repeat::Count(0)
    }
}

} // verus!
