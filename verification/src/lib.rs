//! Typewriter animation logic: the text edits that turn one string into
//! another, the keystrokes of a transition, and the state machine that walks
//! an animation sequence of texts, delays and callbacks.

pub mod animation;
pub mod animator;
pub mod class_name;
pub mod component;
pub mod keystrokes;
pub mod laws;
pub mod repeat;
pub mod sequence;
pub mod speed;
pub mod units;
pub mod wrapper;

pub use repeat::Repeat;
pub use sequence::SequenceElement;
pub use speed::Speed;
pub use wrapper::Wrapper;

use vstd::prelude::*;

verus! {

/// Class of the wrapper element that draws the blinking cursor.
pub const CURSOR_CLASS: &'static str = "dioxus-type-animation__type";

/// Stylesheet of the blinking cursor, to include where `cursor` is enabled.
pub const CURSOR_CSS: &'static str = r#"
.dioxus-type-animation__type::after {
  content: '|';
  animation: dioxus-type-animation__cursor 1.1s infinite step-start;
}

@keyframes dioxus-type-animation__cursor {
  50% {
    opacity: 0;
  }
}
"#;

} // verus!
