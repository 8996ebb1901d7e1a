# dioxus-type-animation

A typewriter animation: a sequence of texts, delays and callbacks is played
by deleting the current text down to what it shares with the next one and
typing the rest, one unit (by default one character) at a time.

## Layout

- `src/` — the verified library (Verus).
  - `units.rs` — texts as sequences of units; splitting into characters,
    joining leading units.
  - `animation.rs` — the overlap of two texts, the deletion and typing
    snippets, the edits of a transition, skipping animated deletions, the
    default splitter.
  - `keystrokes.rs` — snippets marked as typing or deleting.
  - `animator.rs` — the animation as a state machine: each `step` says what
    to do next (show a snippet, wait, run a callback, start over, stop).
  - `component.rs`, `class_name.rs` — what the component derives from its
    properties: run settings, initial text, wrapper attributes.
  - `sequence.rs`, `repeat.rs`, `speed.rs`, `wrapper.rs` — the public types.
  - `laws.rs` — properties of transitions and runs, proved.
- `app/` — the Dioxus component: it renders the wrapper element and runs the
  state machine with timers, a signal and the user's callbacks and splitter.
- `tests/` — tests of the library.
