//! The HTML element that wraps the animated text.

use vstd::prelude::*;

verus! {

/// HTML wrapper element of the animated text.
#[derive(Clone, Copy, Debug, PartialEq, Eq, Structural)]
pub enum Wrapper {
    P,
    Div,
    Span,
    Strong,
    A,
    H1,
    H2,
    H3,
    H4,
    H5,
    H6,
    B,
}

impl Default for Wrapper {
    /// `Wrapper::Span`.
    fn default() -> (wrapper: Self)
        ensures
            wrapper == Wrapper::Span,
    {
        Wrapper::Span
    }
}

} // verus!
