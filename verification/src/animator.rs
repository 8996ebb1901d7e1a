//! The animation as a state machine: each step decides what happens next
//! (show a snippet, wait, run a callback, start the sequence over, or stop),
//! and the caller carries that out before asking for the next step.

use vstd::prelude::*;
use crate::animation::{
    edits_for_transition, omit_deletion_edits, omit_deletions_spec, splits_any, splits_into,
    transition_edits_spec,
};
use crate::keystrokes::{keystroke_view, keystrokes, keystrokes_spec, Keystroke, Operation};
use crate::repeat::Repeat;
use crate::sequence::SequenceElement;
use crate::units::units_view;

verus! {

/// The timer duration of a wait of `ms` milliseconds: `ms`, capped at the
/// largest duration a timer takes.
pub fn timeout_millis(ms: u64) -> (millis: u32)
    ensures
        millis == if ms <= u32::MAX as u64 {
            ms
        } else {
            u32::MAX as u64
        },
{
    if ms <= u32::MAX as u64 {
        ms as u32
    } else {
        u32::MAX
    }
}

/// The settings that drive an animation run.
#[derive(Clone, Copy, Debug, PartialEq, Eq, Structural)]
pub struct AnimationConfig {
    pub repeat: Repeat,
    /// Base delay after a typing keystroke, in milliseconds.
    pub speed: u64,
    /// Base delay after a deleting keystroke, in milliseconds.
    pub deletion_speed: u64,
    /// Skip the animated deletion steps of each transition.
    pub omit_deletion_animation: bool,
}

/// The base delay that follows a keystroke of the given operation.
pub open spec fn delay_for(config: AnimationConfig, operation: Operation) -> u64 {
    match operation {
        Operation::Writing => config.speed,
        Operation::Deletion => config.deletion_speed,
    }
}

/// The keystrokes of a transition from the text `from`, given how it and the
/// new text split into units: the transition's edits, without the deletion
/// steps when those are not animated, each marked relative to the text shown
/// before it.
pub open spec fn transition_keystrokes(
    config: AnimationConfig,
    from: Seq<char>,
    from_units: Seq<Seq<char>>,
    to_units: Seq<Seq<char>>,
) -> Seq<(Seq<char>, Operation)> {
    let edits = transition_edits_spec(from_units, to_units);
    keystrokes_spec(
        from,
        if config.omit_deletion_animation {
            omit_deletions_spec(from, edits)
        } else {
            edits
        },
    )
}

/// What the caller does after a step.
#[derive(Debug)]
pub enum Action {
    /// Show `text`, then wait about `base_delay` milliseconds.
    Show { text: String, base_delay: u64 },
    /// Wait `ms` milliseconds.
    Wait { ms: u64 },
    /// Run the callback of the sequence item at `index`.
    Invoke { index: usize },
    /// The sequence starts over; nothing to do.
    Restart,
    /// Nothing to do; ask for the next step.
    Proceed,
    /// The animation is over.
    Finished,
}

/// An action, with the characters of the text it shows.
pub ghost enum ActionView {
    Show { text: Seq<char>, base_delay: u64 },
    Wait { ms: u64 },
    Invoke { index: int },
    Restart,
    Proceed,
    Finished,
}

impl View for Action {
    type V = ActionView;

    open spec fn view(&self) -> ActionView {
        match self {
            Action::Show { text, base_delay } => ActionView::Show {
                text: text@,
                base_delay: *base_delay,
            },
            Action::Wait { ms } => ActionView::Wait { ms: *ms },
            Action::Invoke { index } => ActionView::Invoke { index: *index as int },
            Action::Restart => ActionView::Restart,
            Action::Proceed => ActionView::Proceed,
            Action::Finished => ActionView::Finished,
        }
    }
}

/// The state of an animation run.
pub ghost struct AnimatorView {
    /// The text as of the last transition that started.
    pub text: Seq<char>,
    /// The position of the next sequence item.
    pub next_item: int,
    /// How many times the sequence has started over.
    pub repeats_done: int,
    /// The keystrokes of the current transition that are still to be shown.
    pub pending: Seq<(Seq<char>, Operation)>,
}

/// One step of the animation. `from_units` and `to_units` are how the current
/// text and the text of the next item split into units; they matter only
/// where a transition starts.
pub open spec fn step_spec<C>(
    sequence: Seq<SequenceElement<C>>,
    config: AnimationConfig,
    s: AnimatorView,
    from_units: Seq<Seq<char>>,
    to_units: Seq<Seq<char>>,
) -> (AnimatorView, ActionView) {
    if s.pending.len() > 0 {
        (
            AnimatorView { pending: s.pending.drop_first(), ..s },
            ActionView::Show {
                text: s.pending[0].0,
                base_delay: delay_for(config, s.pending[0].1),
            },
        )
    } else if 0 <= s.next_item < sequence.len() {
        let advanced = AnimatorView { next_item: s.next_item + 1, ..s };
        match sequence[s.next_item] {
            SequenceElement::Text(t) => (
                AnimatorView {
                    text: t@,
                    pending: transition_keystrokes(config, s.text, from_units, to_units),
                    ..advanced
                },
                ActionView::Proceed,
            ),
            SequenceElement::Delay(ms) => (advanced, ActionView::Wait { ms }),
            SequenceElement::Callback(_) => (advanced, ActionView::Invoke { index: s.next_item }),
        }
    } else {
        match config.repeat {
            Repeat::Count(n) => if s.repeats_done >= n {
                (s, ActionView::Finished)
            } else {
                (
                    AnimatorView { next_item: 0, repeats_done: s.repeats_done + 1, ..s },
                    ActionView::Restart,
                )
            },
            Repeat::Infinite => (AnimatorView { next_item: 0, ..s }, ActionView::Restart),
        }
    }
}

/// The state of a run that starts from `text`, before the first item.
pub open spec fn start_view(text: Seq<char>) -> AnimatorView {
    AnimatorView { text, next_item: 0, repeats_done: 0, pending: Seq::empty() }
}

/// The step from `s` starts a transition.
pub open spec fn starts_transition<C>(sequence: Seq<SequenceElement<C>>, s: AnimatorView) -> bool {
    s.pending.len() == 0 && 0 <= s.next_item < sequence.len() && sequence[s.next_item] is Text
}

/// The text of the `Text` item at position `i`.
pub open spec fn text_at<C>(sequence: Seq<SequenceElement<C>>, i: int) -> Seq<char> {
    match sequence[i] {
        SequenceElement::Text(t) => t@,
        _ => Seq::empty(),
    }
}

/// A run of the animation over `sequence`.
pub struct Animator<C> {
    sequence: Vec<SequenceElement<C>>,
    config: AnimationConfig,
    current_text: String,
    next_item: usize,
    repeats_done: usize,
    keystrokes: Vec<Keystroke>,
    keystroke_pos: usize,
}

impl<C> View for Animator<C> {
    type V = AnimatorView;

    closed spec fn view(&self) -> AnimatorView {
        AnimatorView {
            text: self.current_text@,
            next_item: self.next_item as int,
            repeats_done: self.repeats_done as int,
            pending: self.keystrokes@.skip(self.keystroke_pos as int).map_values(
                |k: Keystroke| keystroke_view(k),
            ),
        }
    }
}

impl<C> Animator<C> {
    /// The sequence being animated.
    pub closed spec fn spec_sequence(&self) -> Seq<SequenceElement<C>> {
        self.sequence@
    }

    /// The settings of the run.
    pub closed spec fn spec_config(&self) -> AnimationConfig {
        self.config
    }

    /// The run's bookkeeping is consistent.
    pub closed spec fn wf(&self) -> bool {
        &&& self.next_item <= self.sequence.len()
        &&& self.keystroke_pos <= self.keystrokes.len()
        &&& self.config.repeat matches Repeat::Count(n) ==> self.repeats_done <= n
    }

    /// A run that starts from `initial_text`, before the first item of `sequence`.
    pub fn new(sequence: Vec<SequenceElement<C>>, config: AnimationConfig, initial_text: String) -> (animator: Self)
        ensures
            animator.wf(),
            animator.spec_sequence() == sequence@,
            animator.spec_config() == config,
            animator@ == start_view(initial_text@),
    {
        let animator = Animator {
            sequence,
            config,
            current_text: initial_text,
            next_item: 0,
            repeats_done: 0,
            keystrokes: Vec::new(),
            keystroke_pos: 0,
        };
        assert(animator@.pending =~= Seq::<(Seq<char>, Operation)>::empty());
        animator
    }

    /// The text as of the last transition that started.
    pub fn current_text(&self) -> (text: &String)
        ensures
            text@ == self@.text,
    {
        &self.current_text
    }

    /// The callback of the sequence item at `index`, if that item is a callback.
    pub fn callback_at(&self, index: usize) -> (callback: Option<&C>)
        ensures
            match callback {
                Some(c) => index < self.spec_sequence().len() && self.spec_sequence()[index as int]
                    == SequenceElement::<C>::Callback(*c),
                None => index >= self.spec_sequence().len() || !(self.spec_sequence()[index as int] is Callback),
            },
    {
        if index < self.sequence.len() {
            match &self.sequence[index] {
                SequenceElement::Callback(c) => Some(c),
                _ => None,
            }
        } else {
            None
        }
    }

    /// Decides the next thing to do and advances the run past it.
    ///
    /// A transition to a new text is planned with `splitter`, which is called
    /// on the current text and on the new one.
    pub fn step<F: Fn(&str) -> Vec<String>>(&mut self, splitter: &F) -> (action: Action)
        requires
            old(self).wf(),
            splits_any(*splitter),
        ensures
            final(self).wf(),
            final(self).spec_sequence() == old(self).spec_sequence(),
            final(self).spec_config() == old(self).spec_config(),
            action is Restart ==> final(self)@.text == old(self)@.text && final(self)@.next_item
                == 0,
            !starts_transition(old(self).spec_sequence(), old(self)@) ==> final(self)@.text == old(
                self,
            )@.text,
            exists|from_units: Seq<Seq<char>>, to_units: Seq<Seq<char>>|
                #![trigger step_spec(old(self).spec_sequence(), old(self).spec_config(), old(self)@, from_units, to_units)]
                {
                    &&& starts_transition(old(self).spec_sequence(), old(self)@) ==> {
                        &&& splits_into(*splitter, old(self)@.text, from_units)
                        &&& splits_into(
                            *splitter,
                            text_at(old(self).spec_sequence(), old(self)@.next_item),
                            to_units,
                        )
                    }
                    &&& (final(self)@, action@) == step_spec(
                        old(self).spec_sequence(),
                        old(self).spec_config(),
                        old(self)@,
                        from_units,
                        to_units,
                    )
                },
    {
        let ghost s = self@;
        let ghost sequence = self.sequence@;
        let ghost mut from_units: Seq<Seq<char>> = Seq::empty();
        let ghost mut to_units: Seq<Seq<char>> = Seq::empty();
        let pos = self.keystroke_pos;
        let action = if pos < self.keystrokes.len() {
            let base_delay = match self.keystrokes[pos].operation {
                Operation::Writing => self.config.speed,
                Operation::Deletion => self.config.deletion_speed,
            };
            let text = self.keystrokes[pos].text.clone();
            self.keystroke_pos = pos + 1;
            assert(self@.pending =~= s.pending.drop_first());
            Action::Show { text, base_delay }
        } else if self.next_item < self.sequence.len() {
            let index = self.next_item;
            self.next_item = index + 1;
            match &self.sequence[index] {
                SequenceElement::Text(target) => {
                    let from = self.current_text.as_str();
                    let to = target.as_str();
                    let edits = edits_for_transition(from, to, splitter);
                    let shown = if self.config.omit_deletion_animation {
                        omit_deletion_edits(from, &edits)
                    } else {
                        edits
                    };
                    let strokes = keystrokes(from, &shown);
                    proof {
                        let (fu, tu) = choose|fu: Seq<Seq<char>>, tu: Seq<Seq<char>>|
                            {
                                &&& splits_into(*splitter, from@, fu)
                                &&& splits_into(*splitter, to@, tu)
                                &&& units_view(edits@) == transition_edits_spec(fu, tu)
                            };
                        from_units = fu;
                        to_units = tu;
                    }
                    self.keystrokes = strokes;
                    self.keystroke_pos = 0;
                    self.current_text = target.clone();
                    assert(self@.pending =~= transition_keystrokes(
                        self.config,
                        s.text,
                        from_units,
                        to_units,
                    ));
                    Action::Proceed
                },
                SequenceElement::Delay(ms) => Action::Wait { ms: *ms },
                SequenceElement::Callback(_) => Action::Invoke { index },
            }
        } else {
            match self.config.repeat {
                Repeat::Count(n) => {
                    if self.repeats_done >= n {
                        Action::Finished
                    } else {
                        self.repeats_done = self.repeats_done + 1;
                        self.next_item = 0;
                        Action::Restart
                    }
                },
                Repeat::Infinite => {
                    self.next_item = 0;
                    Action::Restart
                },
            }
        };
        assert((self@, action@) == step_spec(
            old(self).spec_sequence(),
            old(self).spec_config(),
            old(self)@,
            from_units,
            to_units,
        ));
        action
    }
}

} // verus!
