//! Typing and deletion speeds.

use vstd::prelude::*;

verus! {

/// The speed value of `Speed::default()`.
pub const DEFAULT_SPEED: u64 = 40;

/// Speed configuration: a preset on the `1..=99` scale, or a direct delay.
#[derive(Clone, Copy, Debug, PartialEq, Eq, Structural)]
pub enum Speed {
    /// Speed value, normally `1..=99`, normalized to `abs(value - 100)`
    /// milliseconds per keystroke.
    Preset(u64),
    /// Direct keystroke delay in milliseconds.
    KeyStrokeDelayInMs(u64),
}

impl Default for Speed {
    /// `Speed::Preset(40)`.
    fn default() -> (speed: Self)
        ensures
            speed == Speed::Preset(DEFAULT_SPEED),
    {
        Speed::Preset(DEFAULT_SPEED)
    }
}

impl From<u64> for Speed {
    fn from(value: u64) -> (speed: Self) {
        Speed::Preset(value)
    }
}

impl vstd::std_specs::convert::FromSpecImpl<u64> for Speed {
    open spec fn obeys_from_spec() -> bool {
        true
    }

    open spec fn from_spec(v: u64) -> Self {
        Speed::Preset(v)
    }
}

impl From<usize> for Speed {
    fn from(value: usize) -> (speed: Self) {
        Speed::Preset(value as u64)
    }
}

impl vstd::std_specs::convert::FromSpecImpl<usize> for Speed {
    open spec fn obeys_from_spec() -> bool {
        true
    }

    open spec fn from_spec(v: usize) -> Self {
        Speed::Preset(v as u64)
    }
}

/// The base keystroke delay, in milliseconds, that a speed stands for.
pub open spec fn speed_delay(speed: Speed) -> int {
    match speed {
        Speed::Preset(value) => if value >= 100 {
            value - 100
        } else {
            100 - value
        },
        Speed::KeyStrokeDelayInMs(value) => value as int,
    }
}

/// Normalizes a speed to its base keystroke delay in milliseconds:
/// `abs(value - 100)` for a preset, the value itself for a direct delay.
pub fn normalize_speed(speed: Speed) -> (delay: u64)
    ensures
        delay == speed_delay(speed),
        speed matches Speed::KeyStrokeDelayInMs(v) ==> delay == v,
        speed matches Speed::Preset(v) ==> (delay == v - 100 || delay == 100 - v),
{
    match speed {
        Speed::Preset(value) => if value >= 100 {
            value - 100
        } else {
            100 - value
        },
        Speed::KeyStrokeDelayInMs(value) => value,
    }
}

} // verus!
