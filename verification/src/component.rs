//! What the animation component derives from its properties: the settings of
//! the run, the text shown before the first keystroke, and the attributes of
//! the wrapper element.

use vstd::prelude::*;
use crate::animator::AnimationConfig;
use crate::class_name::{class_name_spec, final_class_name, optional_text};
use crate::repeat::Repeat;
use crate::sequence::{first_string, first_text, SequenceElement};
use crate::speed::{normalize_speed, speed_delay, Speed};

verus! {

/// The deletion speed in effect: the one given, or else the typing speed.
pub open spec fn effective_deletion_speed(speed: Speed, deletion_speed: Option<Speed>) -> Speed {
    match deletion_speed {
        Some(d) => d,
        None => speed,
    }
}

/// The settings of a run: both speeds normalized to base delays, the deletion
/// speed falling back to the typing speed.
pub fn animation_config(
    repeat: Repeat,
    speed: Speed,
    deletion_speed: Option<Speed>,
    omit_deletion_animation: bool,
) -> (config: AnimationConfig)
    ensures
        config.repeat == repeat,
        config.speed == speed_delay(speed),
        config.deletion_speed == speed_delay(effective_deletion_speed(speed, deletion_speed)),
        deletion_speed matches Some(d) ==> config.deletion_speed == speed_delay(d),
        deletion_speed is None ==> config.deletion_speed == config.speed,
        config.omit_deletion_animation == omit_deletion_animation,
{
    let deletion = match deletion_speed {
        Some(d) => d,
        None => speed,
    };
    AnimationConfig {
        repeat,
        speed: normalize_speed(speed),
        deletion_speed: normalize_speed(deletion),
        omit_deletion_animation,
    }
}

/// The text shown before the animation starts: the first text of the
/// sequence when it is pre-rendered and there is one, otherwise nothing.
pub open spec fn initial_text_spec<C>(
    pre_render_first_string: bool,
    sequence: Seq<SequenceElement<C>>,
) -> Seq<char> {
    if pre_render_first_string {
        match first_text(sequence) {
            Some(t) => t,
            None => Seq::empty(),
        }
    } else {
        Seq::empty()
    }
}

/// The text shown before the animation starts.
pub fn initial_text<C>(pre_render_first_string: bool, sequence: &Vec<SequenceElement<C>>) -> (text: String)
    ensures
        text@ == initial_text_spec(pre_render_first_string, sequence@),
        !pre_render_first_string ==> text@ == Seq::<char>::empty(),
{
    if pre_render_first_string {
        match first_string(sequence) {
            Some(t) => t,
            None => String::new(),
        }
    } else {
        String::new()
    }
}

/// The characters of an optional string, or nothing.
pub open spec fn text_or_empty(text: Option<String>) -> Seq<char> {
    match text {
        Some(t) => t@,
        None => Seq::empty(),
    }
}

/// An optional string, or the empty string.
fn unwrap_or_empty(text: Option<String>) -> (s: String)
    ensures
        s@ == text_or_empty(text),
{
    match text {
        Some(t) => t,
        None => String::new(),
    }
}

/// What the wrapper element is rendered with.
pub struct RenderData {
    pub text: String,
    pub class: String,
    pub style: String,
    pub aria_label: String,
    pub aria_hidden: String,
    pub role: String,
    /// Render the text inside an inner `aria-hidden="true"` span.
    pub use_inner_accessibility_span: bool,
}

/// The attributes of the wrapper element: the class from the cursor setting
/// and the custom class, each other attribute or the empty string, and an
/// inner hidden span exactly when an `aria-label` is given and not empty.
pub fn render_data(
    text: String,
    cursor: bool,
    class: Option<&str>,
    style: Option<String>,
    aria_label: Option<String>,
    aria_hidden: Option<String>,
    role: Option<String>,
) -> (data: RenderData)
    ensures
        data.text == text,
        data.class@ == class_name_spec(cursor, optional_text(class)),
        data.style@ == text_or_empty(style),
        data.aria_label@ == text_or_empty(aria_label),
        data.aria_hidden@ == text_or_empty(aria_hidden),
        data.role@ == text_or_empty(role),
        data.use_inner_accessibility_span == (text_or_empty(aria_label).len() > 0),
{
    let class = final_class_name(cursor, class);
    let aria_label = unwrap_or_empty(aria_label);
    let use_inner_accessibility_span = !aria_label.as_str().is_empty();
    RenderData {
        text,
        class,
        style: unwrap_or_empty(style),
        aria_label,
        aria_hidden: unwrap_or_empty(aria_hidden),
        role: unwrap_or_empty(role),
        use_inner_accessibility_span,
    }
}

} // verus!
