//! Properties of transitions and animation runs.

use vstd::prelude::*;
use crate::animation::{
    deletion_snippets, deletions_from, joins_back, lemma_joins_back,
    lemma_overlap_is_longest_common_prefix, lemma_splits_chars, omit_deletions_spec,
    omit_point_from, overlap, splits_chars, splits_into, transition_edits_spec,
    writing_snippets,
};
use crate::animator::{
    delay_for, start_view, starts_transition, step_spec, text_at, transition_keystrokes,
    ActionView, AnimationConfig, AnimatorView,
};
use crate::keystrokes::{keystrokes_spec, operation_spec, Operation};
use crate::class_name::class_name_spec;
use crate::component::{effective_deletion_speed, initial_text_spec, text_or_empty};
use crate::CURSOR_CLASS;
use crate::sequence::{is_first_text, lemma_first_text_unique, SequenceElement};
use crate::speed::{speed_delay, Speed};
use crate::units::{char_units, lemma_char_units_joined};

verus! {

/// A sequence overlaps itself completely.
pub proof fn lemma_overlap_self<T>(a: Seq<T>)
    ensures
        overlap(a, a) == a.len(),
{
    lemma_overlap_is_longest_common_prefix(a, a);
}

/// Two texts split into characters have as many leading units in common as
/// the texts have leading characters in common.
pub proof fn lemma_overlap_char_units(a: Seq<char>, b: Seq<char>)
    ensures
        overlap(char_units(a), char_units(b)) == overlap(a, b),
{
    lemma_overlap_is_longest_common_prefix(a, b);
    lemma_overlap_is_longest_common_prefix(char_units(a), char_units(b));
    let n = overlap(a, b);
    let m = overlap(char_units(a), char_units(b));
    if m < n {
        assert(a.take(n)[m] == b.take(n)[m]);
        assert(char_units(a)[m] == seq![a[m]]);
    } else if n < m {
        assert(char_units(a).take(m)[n] == char_units(b).take(m)[n]);
        assert(seq![a[n]][0] == seq![b[n]][0]);
    }
}

/// The edits of a transition between two texts split into characters.
pub open spec fn char_transition(a: Seq<char>, b: Seq<char>) -> Seq<Seq<char>> {
    transition_edits_spec(char_units(a), char_units(b))
}

/// With character splitting, a transition from `a` to `b` first shows `a`
/// shortened by one character at a time down to the common prefix, then the
/// common prefix grown by one character of `b` at a time up to all of `b`.
pub proof fn lemma_char_transition(a: Seq<char>, b: Seq<char>)
    ensures
        ({
            let e = char_transition(a, b);
            let n = overlap(a, b);
            &&& e.len() == (a.len() - n) + (b.len() - n)
            &&& forall|i: int| 0 <= i < a.len() - n ==> #[trigger] e[i] == a.take(a.len() - 1 - i)
            &&& forall|i: int|
                0 <= i < b.len() - n ==> #[trigger] e[a.len() - n + i] == b.take(n + i + 1)
        }),
{
    lemma_overlap_is_longest_common_prefix(a, b);
    lemma_overlap_char_units(a, b);
    let n = overlap(a, b);
    let e = char_transition(a, b);
    let del = deletion_snippets(char_units(a), n);
    let wri = writing_snippets(char_units(b), n);
    assert forall|i: int| 0 <= i < a.len() - n implies #[trigger] e[i] == a.take(a.len() - 1 - i) by {
        lemma_char_units_joined(a, a.len() - 1 - i);
        assert(e[i] == del[i]);
    }
    assert forall|i: int| 0 <= i < b.len() - n implies #[trigger] e[a.len() - n + i] == b.take(
        n + i + 1,
    ) by {
        lemma_char_units_joined(b, n + i + 1);
        assert(e[a.len() - n + i] == wri[i]);
    }
}

/// Whatever the units, a transition between differently split texts ends
/// showing the new text joined from its units, and a transition between
/// identically split texts shows nothing.
pub proof fn lemma_transition_ends_at_target(from_units: Seq<Seq<char>>, to_units: Seq<Seq<char>>)
    ensures
        from_units != to_units ==> transition_edits_spec(from_units, to_units).len() > 0
            && transition_edits_spec(from_units, to_units).last() == to_units.flatten(),
        from_units == to_units ==> transition_edits_spec(from_units, to_units).len() == 0,
{
    lemma_overlap_is_longest_common_prefix(from_units, to_units);
    let n = overlap(from_units, to_units);
    let del = deletion_snippets(from_units, n);
    let wri = writing_snippets(to_units, n);
    let e = transition_edits_spec(from_units, to_units);
    if from_units == to_units {
        lemma_overlap_self(from_units);
    } else if to_units.len() > n {
        assert(e.last() == wri[to_units.len() - n - 1]);
        assert(to_units.take(to_units.len() as int) =~= to_units);
    } else {
        if from_units.len() == n {
            assert(from_units =~= from_units.take(n));
            assert(to_units =~= to_units.take(n));
        }
        assert(e.last() == del[from_units.len() - n - 1]);
        assert(to_units =~= to_units.take(n));
    }
}

proof fn lemma_deletions_from(previous: Seq<char>, edits: Seq<Seq<char>>, j: int)
    requires
        0 <= j <= edits.len(),
    ensures
        j <= deletions_from(previous, edits, j) <= edits.len(),
    decreases edits.len() - j,
{
    if j < edits.len() && operation_spec(
        if j == 0 {
            previous
        } else {
            edits[j - 1]
        },
        edits[j],
    ) == Operation::Deletion {
        lemma_deletions_from(previous, edits, j + 1);
    }
}

proof fn lemma_omit_point_from(edits: Seq<Seq<char>>, i: int)
    requires
        1 <= i,
    ensures
        omit_point_from(edits, i) == 0 || (i <= omit_point_from(edits, i) < edits.len()),
    decreases edits.len() - i,
{
    if i < edits.len() {
        if !(edits[i].len() > edits[i - 1].len() || edits[i].len() == 0) {
            lemma_omit_point_from(edits, i + 1);
        }
    }
}

/// Skipping the animated deletions keeps a suffix of the edits, and never
/// changes the text that a transition ends on.
pub proof fn lemma_omit_keeps_final_text(previous: Seq<char>, edits: Seq<Seq<char>>)
    ensures
        exists|k: int|
            0 <= k <= edits.len() && omit_deletions_spec(previous, edits) == edits.skip(k),
        edits.len() > 0 ==> omit_deletions_spec(previous, edits).len() > 0
            && omit_deletions_spec(previous, edits).last() == edits.last(),
{
    lemma_deletions_from(previous, edits, 0);
    lemma_omit_point_from(edits, 1);
    let d = deletions_from(previous, edits, 0);
    let k = if d == 0 {
        0
    } else if d >= edits.len() {
        edits.len() - 1
    } else {
        omit_point_from(edits, 1)
    };
    assert(0 <= k <= edits.len());
    assert(omit_deletions_spec(previous, edits) == edits.skip(k));
}

/// With character splitting, the keystrokes of a transition from `a` to `b`
/// delete for as long as the text shrinks towards the common prefix, and type
/// from then on: each deletion is paced by the deletion speed and each typed
/// character by the typing speed.
pub proof fn lemma_char_transition_operations(a: Seq<char>, b: Seq<char>)
    ensures
        ({
            let e = char_transition(a, b);
            let k = keystrokes_spec(a, e);
            let d = a.len() - overlap(a, b);
            &&& k.len() == e.len()
            &&& forall|j: int|
                0 <= j < k.len() ==> (#[trigger] k[j]).0 == e[j] && k[j].1 == (if j < d {
                    Operation::Deletion
                } else {
                    Operation::Writing
                })
        }),
{
    lemma_char_transition(a, b);
    lemma_overlap_is_longest_common_prefix(a, b);
    let e = char_transition(a, b);
    let k = keystrokes_spec(a, e);
    let n = overlap(a, b);
    let d = a.len() - n;
    assert forall|j: int| 0 <= j < k.len() implies (#[trigger] k[j]).0 == e[j] && k[j].1 == (if j
        < d {
        Operation::Deletion
    } else {
        Operation::Writing
    }) by {
        if j < d {
            assert(e[j] == a.take(a.len() - 1 - j));
            if j > 0 {
                assert(e[j - 1] == a.take(a.len() - 1 - (j - 1)));
            }
        } else {
            let i = j - d;
            assert(e[d + i] == b.take(n + i + 1));
            if i > 0 {
                assert(e[a.len() - n + (i - 1)] == b.take(n + (i - 1) + 1));
            } else if d > 0 {
                assert(e[d - 1] == a.take(a.len() - 1 - (d - 1)));
            }
        }
    }
}

proof fn lemma_deletions_count(previous: Seq<char>, edits: Seq<Seq<char>>, j: int, d: int)
    requires
        0 <= j <= d <= edits.len(),
        forall|i: int|
            j <= i < d ==> operation_spec(
                if i == 0 {
                    previous
                } else {
                    edits[i - 1]
                },
                #[trigger] edits[i],
            ) == Operation::Deletion,
        d < edits.len() ==> operation_spec(
            if d == 0 {
                previous
            } else {
                edits[d - 1]
            },
            edits[d],
        ) != Operation::Deletion,
    ensures
        deletions_from(previous, edits, j) == d,
    decreases d - j,
{
    if j < d {
        assert(operation_spec(
            if j == 0 {
                previous
            } else {
                edits[j - 1]
            },
            edits[j],
        ) == Operation::Deletion);
        lemma_deletions_count(previous, edits, j + 1, d);
    }
}

proof fn lemma_omit_point_skips(edits: Seq<Seq<char>>, i: int, stop: int)
    requires
        1 <= i <= stop < edits.len(),
        forall|j: int|
            i <= j < stop ==> !((#[trigger] edits[j]).len() > edits[j - 1].len() || edits[j].len()
                == 0),
    ensures
        omit_point_from(edits, i) == omit_point_from(edits, stop),
    decreases stop - i,
{
    if i < stop {
        lemma_omit_point_skips(edits, i + 1, stop);
    }
}

/// With character splitting and deletions not animated, a transition shows
/// no deletion step but the jump to its end state: one that only types shows
/// every typed snippet; one that only deletes shows the new text at once; one
/// that deletes and types shows every typed snippet, preceded by the empty
/// text when the two texts share no prefix and the old one has more than one
/// character.
pub proof fn lemma_omit_char_transition(a: Seq<char>, b: Seq<char>)
    ensures
        ({
            let e = char_transition(a, b);
            let n = overlap(a, b);
            let d = a.len() - n;
            let w = b.len() - n;
            let omitted = omit_deletions_spec(a, e);
            let jumps_to_empty = n == 0 && a.len() >= 2;
            &&& d == 0 ==> omitted == e
            &&& d > 0 && w == 0 ==> omitted == seq![b]
            &&& d > 0 && w > 0 ==> omitted == (if jumps_to_empty {
                e.skip(d - 1)
            } else {
                e.skip(d)
            })
            &&& d > 0 && w > 0 && jumps_to_empty ==> e[d - 1].len() == 0
        }),
{
    lemma_char_transition(a, b);
    lemma_char_transition_operations(a, b);
    lemma_overlap_is_longest_common_prefix(a, b);
    let e = char_transition(a, b);
    let k = keystrokes_spec(a, e);
    let n = overlap(a, b);
    let d = a.len() - n;
    let w = b.len() - n;
    assert forall|i: int| 0 <= i < d implies operation_spec(
        if i == 0 {
            a
        } else {
            e[i - 1]
        },
        #[trigger] e[i],
    ) == Operation::Deletion by {
        assert(k[i].1 == Operation::Deletion);
    }
    if d < e.len() {
        assert(k[d].1 == Operation::Writing);
    }
    lemma_deletions_count(a, e, 0, d);
    if d > 0 && w == 0 {
        assert(e[d - 1] == a.take(a.len() - 1 - (d - 1)));
        assert(b =~= b.take(n));
        assert(e.skip(e.len() - 1) =~= seq![b]);
    }
    if d > 0 && w > 0 {
        let jumps_to_empty = n == 0 && a.len() >= 2;
        assert(e[d - 1] == a.take(a.len() - 1 - (d - 1)));
        assert(e[a.len() - n + 0] == b.take(n + 0 + 1));
        let stop = if jumps_to_empty {
            d - 1
        } else {
            d
        };
        assert forall|j: int| 1 <= j < stop implies !((#[trigger] e[j]).len() > e[j - 1].len()
            || e[j].len() == 0) by {
            assert(e[j] == a.take(a.len() - 1 - j));
            assert(e[j - 1] == a.take(a.len() - 1 - (j - 1)));
        }
        lemma_omit_point_skips(e, 1, stop);
        if jumps_to_empty {
            assert(e[d - 2] == a.take(a.len() - 1 - (d - 2)));
        }
    }
    if d == 0 {
        assert(e.skip(0) =~= e);
    }
}

/// Splitting every text into its characters, as a function.
pub open spec fn char_split() -> spec_fn(Seq<char>) -> Seq<Seq<char>> {
    |t: Seq<char>| char_units(t)
}

/// One step of a run in which every text splits into units by `split`.
pub open spec fn split_step<C>(
    sequence: Seq<SequenceElement<C>>,
    config: AnimationConfig,
    split: spec_fn(Seq<char>) -> Seq<Seq<char>>,
    s: AnimatorView,
) -> (AnimatorView, ActionView) {
    step_spec(sequence, config, s, split(s.text), split(text_at(sequence, s.next_item)))
}

/// The state reached and the actions taken in `k` steps from `s`, in a run in
/// which every text splits into units by `split`.
pub open spec fn run<C>(
    sequence: Seq<SequenceElement<C>>,
    config: AnimationConfig,
    split: spec_fn(Seq<char>) -> Seq<Seq<char>>,
    s: AnimatorView,
    k: nat,
) -> (AnimatorView, Seq<ActionView>)
    decreases k,
{
    if k == 0 {
        (s, Seq::empty())
    } else {
        let (before, actions) = run(sequence, config, split, s, (k - 1) as nat);
        let (after, action) = split_step(sequence, config, split, before);
        (after, actions.push(action))
    }
}

/// How many times a list of actions starts the sequence over.
pub open spec fn restarts(actions: Seq<ActionView>) -> nat
    decreases actions.len(),
{
    if actions.len() == 0 {
        0
    } else {
        restarts(actions.drop_last()) + if actions.last() is Restart {
            1nat
        } else {
            0nat
        }
    }
}

/// With `Repeat::Count(n)`, a run counts its restarts, never starts over more
/// than `n` times, finishes only once it has started over exactly `n` times
/// (it has then played the sequence `n + 1` times), and after finishing keeps
/// reporting that it is finished.
pub proof fn lemma_count_repeats<C>(
    sequence: Seq<SequenceElement<C>>,
    config: AnimationConfig,
    split: spec_fn(Seq<char>) -> Seq<Seq<char>>,
    text: Seq<char>,
    k: nat,
)
    requires
        config.repeat is Count,
    ensures
        ({
            let (s, actions) = run(sequence, config, split, start_view(text), k);
            let n = config.repeat->Count_0;
            &&& actions.len() == k
            &&& s.repeats_done == restarts(actions)
            &&& restarts(actions) <= n
            &&& forall|j: int|
                0 <= j < k && (#[trigger] actions[j]) is Finished ==> restarts(actions.take(j))
                    == n
            &&& forall|i: int, j: int|
                0 <= i < j < k && (#[trigger] actions[i]) is Finished ==> (#[trigger] actions[j]) is Finished
        }),
    decreases k,
{
    let n = config.repeat->Count_0;
    if k > 0 {
        lemma_count_repeats(sequence, config, split, text, (k - 1) as nat);
        let (before, prior) = run(sequence, config, split, start_view(text), (k - 1) as nat);
        let (after, action) = split_step(sequence, config, split, before);
        let actions = prior.push(action);
        assert(actions.drop_last() =~= prior);
        assert forall|j: int| 0 <= j < k && (#[trigger] actions[j]) is Finished implies restarts(
            actions.take(j),
        ) == n by {
            if j < k - 1 {
                assert(actions.take(j) =~= prior.take(j));
            } else {
                assert(actions.take(j) =~= prior);
            }
        }
        assert forall|i: int, j: int|
            0 <= i < j < k && (#[trigger] actions[i]) is Finished implies (#[trigger] actions[j]) is Finished by {
            if j == k - 1 {
                assert(prior[i] is Finished);
                if i < k - 2 {
                    assert(prior[k - 2] is Finished);
                }
                let (b2, p2) = run(sequence, config, split, start_view(text), (k - 2) as nat);
                assert(p2.push(prior[k - 2]) == prior);
                assert(split_step(sequence, config, split, b2) == (before, prior[k - 2]));
            }
        }
    }
}

/// With `Repeat::Infinite`, a run never finishes.
pub proof fn lemma_infinite_never_finishes<C>(
    sequence: Seq<SequenceElement<C>>,
    config: AnimationConfig,
    split: spec_fn(Seq<char>) -> Seq<Seq<char>>,
    s: AnimatorView,
    k: nat,
)
    requires
        config.repeat is Infinite,
    ensures
        run(sequence, config, split, s, k).1.len() == k,
        forall|j: int| 0 <= j < k ==> !(#[trigger] run(sequence, config, split, s, k).1[j] is Finished),
    decreases k,
{
    if k > 0 {
        lemma_infinite_never_finishes(sequence, config, split, s, (k - 1) as nat);
        let (before, prior) = run(sequence, config, split, s, (k - 1) as nat);
        let (after, action) = split_step(sequence, config, split, before);
        assert(run(sequence, config, split, s, k).1 == prior.push(action));
        assert(!(action is Finished));
    }
}

/// Whatever the splitter, as long as the units of each text join back into
/// it, the step that reaches a `Text` item makes that text the current one
/// and plans keystrokes that end showing it: none when the text is already
/// shown and split the same way, otherwise a last keystroke that shows exactly
/// that text, whether or not deletions are animated.
pub proof fn lemma_text_step_reaches_text<C>(
    sequence: Seq<SequenceElement<C>>,
    config: AnimationConfig,
    s: AnimatorView,
    from_units: Seq<Seq<char>>,
    to_units: Seq<Seq<char>>,
)
    requires
        starts_transition(sequence, s),
        from_units.flatten() == s.text,
        to_units.flatten() == text_at(sequence, s.next_item),
    ensures
        ({
            let target = text_at(sequence, s.next_item);
            let (after, action) = step_spec(sequence, config, s, from_units, to_units);
            &&& action is Proceed
            &&& after.text == target
            &&& after.next_item == s.next_item + 1
            &&& s.text != target ==> after.pending.len() > 0
            &&& after.pending.len() == 0 ==> s.text == target
            &&& after.pending.len() > 0 ==> after.pending.last().0 == target
        }),
{
    let target = text_at(sequence, s.next_item);
    let e = transition_edits_spec(from_units, to_units);
    lemma_transition_ends_at_target(from_units, to_units);
    lemma_omit_keeps_final_text(s.text, e);
    let shown = if config.omit_deletion_animation {
        omit_deletions_spec(s.text, e)
    } else {
        e
    };
    let p = transition_keystrokes(config, s.text, from_units, to_units);
    assert(p == keystrokes_spec(s.text, shown));
    if shown.len() > 0 {
        assert(p.last().0 == shown.last());
    }
    if e.len() == 0 {
        assert(omit_deletions_spec(s.text, e) =~= e);
    }
}

/// A step of an animator whose splitter joins every text back from its units
/// reaches the text of a `Text` item: whatever units the splitter gave, the
/// planned keystrokes end showing exactly that text (see
/// `lemma_text_step_reaches_text`).
pub proof fn lemma_joining_splitter_step<C, F: Fn(&str) -> Vec<String>>(
    splitter: F,
    sequence: Seq<SequenceElement<C>>,
    config: AnimationConfig,
    s: AnimatorView,
    from_units: Seq<Seq<char>>,
    to_units: Seq<Seq<char>>,
)
    requires
        joins_back(splitter),
        starts_transition(sequence, s),
        splits_into(splitter, s.text, from_units),
        splits_into(splitter, text_at(sequence, s.next_item), to_units),
    ensures
        ({
            let target = text_at(sequence, s.next_item);
            let (after, action) = step_spec(sequence, config, s, from_units, to_units);
            &&& action is Proceed
            &&& after.text == target
            &&& s.text != target ==> after.pending.len() > 0
            &&& after.pending.len() > 0 ==> after.pending.last().0 == target
        }),
{
    lemma_joins_back(splitter, s.text, from_units);
    lemma_joins_back(splitter, text_at(sequence, s.next_item), to_units);
    lemma_text_step_reaches_text(sequence, config, s, from_units, to_units);
}

/// A step taken with a splitter that splits every text into its characters
/// is the step of the character-split run.
pub proof fn lemma_char_splitter_step<C, F: Fn(&str) -> Vec<String>>(
    splitter: F,
    sequence: Seq<SequenceElement<C>>,
    config: AnimationConfig,
    s: AnimatorView,
    from_units: Seq<Seq<char>>,
    to_units: Seq<Seq<char>>,
)
    requires
        splits_chars(splitter),
        starts_transition(sequence, s) ==> {
            &&& splits_into(splitter, s.text, from_units)
            &&& splits_into(splitter, text_at(sequence, s.next_item), to_units)
        },
    ensures
        step_spec(sequence, config, s, from_units, to_units) == split_step(
            sequence,
            config,
            char_split(),
            s,
        ),
{
    if starts_transition(sequence, s) {
        lemma_splits_chars(splitter, s.text, from_units);
        lemma_splits_chars(splitter, text_at(sequence, s.next_item), to_units);
    }
}

/// A run of `k + 1` steps is its first step followed by a run of `k` steps.
pub proof fn lemma_run_first_step<C>(
    sequence: Seq<SequenceElement<C>>,
    config: AnimationConfig,
    split: spec_fn(Seq<char>) -> Seq<Seq<char>>,
    s: AnimatorView,
    k: nat,
)
    ensures
        ({
            let (next, first) = split_step(sequence, config, split, s);
            let (end, rest) = run(sequence, config, split, next, k);
            run(sequence, config, split, s, k + 1) == (end, seq![first] + rest)
        }),
    decreases k,
{
    let (next, first) = split_step(sequence, config, split, s);
    if k > 0 {
        lemma_run_first_step(sequence, config, split, s, (k - 1) as nat);
        let (mid, rest) = run(sequence, config, split, next, (k - 1) as nat);
        let (end, last) = split_step(sequence, config, split, mid);
        assert(run(sequence, config, split, s, k) == (mid, seq![first] + rest));
        assert(run(sequence, config, split, next, k) == (end, rest.push(last)));
        assert(run(sequence, config, split, s, k + 1) == (end, (seq![first] + rest).push(last)));
        assert(seq![first] + rest.push(last) =~= (seq![first] + rest).push(last));
    } else {
        assert(run(sequence, config, split, s, 0) == (s, Seq::<ActionView>::empty()));
        assert(run(sequence, config, split, s, 1) == (next, Seq::<ActionView>::empty().push(first)));
        assert(seq![first] + Seq::<ActionView>::empty() =~= Seq::<ActionView>::empty().push(first));
    }
}

/// Steps from a state with pending keystrokes show them one by one.
proof fn lemma_run_shows_pending<C>(
    sequence: Seq<SequenceElement<C>>,
    config: AnimationConfig,
    split: spec_fn(Seq<char>) -> Seq<Seq<char>>,
    s: AnimatorView,
    j: nat,
)
    requires
        j <= s.pending.len(),
    ensures
        run(sequence, config, split, s, j).0 == (AnimatorView { pending: s.pending.skip(j as int), ..s }),
        run(sequence, config, split, s, j).1 == Seq::new(
            j,
            |i: int|
                ActionView::Show { text: s.pending[i].0, base_delay: delay_for(config, s.pending[i].1) },
        ),
    decreases j,
{
    if j == 0 {
        assert(s.pending.skip(0) =~= s.pending);
        assert(run(sequence, config, split, s, 0).1 =~= Seq::new(
            0,
            |i: int|
                ActionView::Show { text: s.pending[i].0, base_delay: delay_for(config, s.pending[i].1) },
        ));
    } else {
        lemma_run_shows_pending(sequence, config, split, s, (j - 1) as nat);
        let before = run(sequence, config, split, s, (j - 1) as nat).0;
        assert(before.pending =~= s.pending.skip(j - 1));
        assert(before.pending.drop_first() =~= s.pending.skip(j as int));
        assert(run(sequence, config, split, s, j).1 =~= Seq::new(
            j,
            |i: int|
                ActionView::Show { text: s.pending[i].0, base_delay: delay_for(config, s.pending[i].1) },
        ));
    }
}

/// In a run whose splitting joins every text back from its units, reaching a
/// `Text` item that differs from the current text leads, through the
/// transition's keystrokes, to showing exactly that text: the step that
/// reaches the item is followed by one `Show` per keystroke, the last of which
/// shows the item's text, and the run then stands after the item with nothing
/// pending.
pub proof fn lemma_transition_ends_showing_text<C>(
    sequence: Seq<SequenceElement<C>>,
    config: AnimationConfig,
    split: spec_fn(Seq<char>) -> Seq<Seq<char>>,
    s: AnimatorView,
)
    requires
        forall|t: Seq<char>| (#[trigger] split(t)).flatten() == t,
        starts_transition(sequence, s),
        s.text != text_at(sequence, s.next_item),
    ensures
        ({
            let target = text_at(sequence, s.next_item);
            let m = split_step(sequence, config, split, s).0.pending.len();
            let (end, actions) = run(sequence, config, split, s, m + 1);
            &&& m > 0
            &&& actions.len() == m + 1
            &&& actions[0] is Proceed
            &&& forall|i: int| 1 <= i <= m ==> (#[trigger] actions[i]) is Show
            &&& actions[m as int] == (ActionView::Show {
                text: target,
                base_delay: delay_for(config, split_step(sequence, config, split, s).0.pending.last().1),
            })
            &&& end.text == target
            &&& end.next_item == s.next_item + 1
            &&& end.pending.len() == 0
        }),
{
    let target = text_at(sequence, s.next_item);
    assert(split(s.text).flatten() == s.text);
    assert(split(target).flatten() == target);
    lemma_text_step_reaches_text(sequence, config, s, split(s.text), split(target));
    let (next, first) = split_step(sequence, config, split, s);
    let m = next.pending.len();
    lemma_run_first_step(sequence, config, split, s, m);
    lemma_run_shows_pending(sequence, config, split, next, m);
    let (end, actions) = run(sequence, config, split, s, m + 1);
    let rest = run(sequence, config, split, next, m).1;
    assert(actions == seq![first] + rest);
    assert(next.pending.skip(m as int) =~= Seq::<(Seq<char>, Operation)>::empty());
    assert forall|i: int| 1 <= i <= m implies (#[trigger] actions[i]) is Show by {
        assert(actions[i] == rest[i - 1]);
    }
    assert(actions[m as int] == rest[m - 1]);
}

/// Nothing is shown before the animation starts unless the first string is
/// pre-rendered; then the text of the first `Text` item is shown, or nothing
/// when the sequence holds no text.
pub proof fn lemma_initial_text<C>(sequence: Seq<SequenceElement<C>>)
    ensures
        initial_text_spec(false, sequence) == Seq::<char>::empty(),
        forall|i: int|
            0 <= i < sequence.len() && #[trigger] sequence[i] is Text && (forall|j: int|
                0 <= j < i ==> !(sequence[j] is Text)) ==> initial_text_spec(true, sequence)
                == sequence[i]->Text_0@,
        (forall|i: int| 0 <= i < sequence.len() ==> !(#[trigger] sequence[i] is Text))
            ==> initial_text_spec(true, sequence) == Seq::<char>::empty(),
{
    assert forall|i: int|
        0 <= i < sequence.len() && #[trigger] sequence[i] is Text && (forall|j: int|
            0 <= j < i ==> !(sequence[j] is Text)) implies initial_text_spec(true, sequence)
        == sequence[i]->Text_0@ by {
        assert(is_first_text(sequence, i));
        let k = choose|k: int| is_first_text(sequence, k);
        lemma_first_text_unique(sequence, i, k);
    }
    if forall|i: int| 0 <= i < sequence.len() ==> !(#[trigger] sequence[i] is Text) {
        assert(!exists|k: int| is_first_text(sequence, k));
    }
}

/// A direct keystroke delay is taken as it is; a preset is its distance
/// from 100.
pub proof fn lemma_speed_delay(v: u64)
    ensures
        speed_delay(Speed::KeyStrokeDelayInMs(v)) == v,
        speed_delay(Speed::Preset(v)) >= 0,
        speed_delay(Speed::Preset(v)) == v - 100 || speed_delay(Speed::Preset(v)) == 100 - v,
{
}

/// The deletion delay is the delay of the deletion speed when one is given,
/// normalized exactly as the typing speed is, and the typing delay otherwise.
pub proof fn lemma_deletion_speed(speed: Speed, deletion: Speed)
    ensures
        speed_delay(effective_deletion_speed(speed, Some(deletion))) == speed_delay(deletion),
        speed_delay(effective_deletion_speed(speed, None)) == speed_delay(speed),
{
}

/// Starting the sequence over keeps the current text, for a finite as for an
/// infinite repeat: the next pass starts its first transition from the text
/// the previous pass ended on. More generally, only a step that starts a
/// transition changes the current text.
pub proof fn lemma_restart_keeps_text<C>(
    sequence: Seq<SequenceElement<C>>,
    config: AnimationConfig,
    s: AnimatorView,
    from_units: Seq<Seq<char>>,
    to_units: Seq<Seq<char>>,
)
    ensures
        ({
            let (after, action) = step_spec(sequence, config, s, from_units, to_units);
            &&& action is Restart ==> after.text == s.text && after.next_item == 0 && after.pending
                == s.pending
            &&& !starts_transition(sequence, s) ==> after.text == s.text
        }),
{
}

proof fn lemma_deletions_from_first(previous: Seq<char>, edits: Seq<Seq<char>>, j: int)
    requires
        0 <= j <= edits.len(),
    ensures
        ({
            let r = deletions_from(previous, edits, j);
            &&& j <= r <= edits.len()
            &&& forall|k: int|
                j <= k < r ==> operation_spec(
                    if k == 0 {
                        previous
                    } else {
                        edits[k - 1]
                    },
                    #[trigger] edits[k],
                ) == Operation::Deletion
            &&& r < edits.len() ==> operation_spec(
                if r == 0 {
                    previous
                } else {
                    edits[r - 1]
                },
                edits[r],
            ) != Operation::Deletion
        }),
    decreases edits.len() - j,
{
    if j < edits.len() && operation_spec(
        if j == 0 {
            previous
        } else {
            edits[j - 1]
        },
        edits[j],
    ) == Operation::Deletion {
        lemma_deletions_from_first(previous, edits, j + 1);
    }
}

/// An edit of `edits`, shown after `previous`, deletes: it is empty or shorter
/// than the text before it.
pub open spec fn deletes_at(previous: Seq<char>, edits: Seq<Seq<char>>, j: int) -> bool {
    edits[j].len() == 0 || (if j == 0 {
        previous
    } else {
        edits[j - 1]
    }).len() > edits[j].len()
}

/// The edit at `j` grows the text shown before it, by any amount, or empties it.
pub open spec fn grows_or_empties(edits: Seq<Seq<char>>, j: int) -> bool {
    edits[j].len() > edits[j - 1].len() || edits[j].len() == 0
}

/// When deletions are not animated and the first edit types, every edit is kept.
pub proof fn lemma_omit_when_first_types(previous: Seq<char>, edits: Seq<Seq<char>>)
    requires
        edits.len() > 0,
        !deletes_at(previous, edits, 0),
    ensures
        omit_deletions_spec(previous, edits) == edits,
{
    lemma_deletions_from_first(previous, edits, 0);
    assert(deletions_from(previous, edits, 0) == 0);
    assert(edits.skip(0) =~= edits);
}

/// When deletions are not animated and every edit deletes, only the last one
/// is kept: the transition jumps to its end state.
pub proof fn lemma_omit_when_all_delete(previous: Seq<char>, edits: Seq<Seq<char>>)
    requires
        edits.len() > 0,
        forall|j: int| 0 <= j < edits.len() ==> #[trigger] deletes_at(previous, edits, j),
    ensures
        omit_deletions_spec(previous, edits) == seq![edits.last()],
{
    lemma_deletions_from_first(previous, edits, 0);
    let d = deletions_from(previous, edits, 0);
    if d < edits.len() {
        assert(deletes_at(previous, edits, d));
    }
    assert(d == edits.len());
    assert(edits.skip(edits.len() - 1) =~= seq![edits.last()]);
}

/// When deletions are not animated and the first edit deletes while a later
/// one types, the kept edits start at the first edit after the start that
/// grows the text before it, by any amount, or empties it; all are kept if
/// there is none.
pub proof fn lemma_omit_when_deleting_then_typing(
    previous: Seq<char>,
    edits: Seq<Seq<char>>,
    w: int,
)
    requires
        0 <= w < edits.len(),
        deletes_at(previous, edits, 0),
        !deletes_at(previous, edits, w),
    ensures
        forall|p: int|
            1 <= p < edits.len() && #[trigger] grows_or_empties(edits, p) && (forall|j: int|
                1 <= j < p ==> !grows_or_empties(edits, j)) ==> omit_deletions_spec(
                previous,
                edits,
            ) == edits.skip(p),
        (forall|j: int| 1 <= j < edits.len() ==> !#[trigger] grows_or_empties(edits, j))
            ==> omit_deletions_spec(previous, edits) == edits,
{
    lemma_deletions_from_first(previous, edits, 0);
    let d = deletions_from(previous, edits, 0);
    assert(d >= 1);
    if d > w {
        assert(deletes_at(previous, edits, w));
    }
    assert(0 < d < edits.len());
    assert forall|p: int|
        1 <= p < edits.len() && #[trigger] grows_or_empties(edits, p) && (forall|j: int|
            1 <= j < p ==> !grows_or_empties(edits, j)) implies omit_deletions_spec(
        previous,
        edits,
    ) == edits.skip(p) by {
        assert forall|j: int| 1 <= j < p implies !((#[trigger] edits[j]).len() > edits[j
            - 1].len() || edits[j].len() == 0) by {
            assert(!grows_or_empties(edits, j));
        }
        lemma_omit_point_skips(edits, 1, p);
    }
    if forall|j: int| 1 <= j < edits.len() ==> !#[trigger] grows_or_empties(edits, j) {
        assert forall|j: int| 1 <= j < edits.len() implies !((#[trigger] edits[j]).len()
            > edits[j - 1].len() || edits[j].len() == 0) by {
            assert(!grows_or_empties(edits, j));
        }
        lemma_omit_point_all(edits, 1);
        assert(edits.skip(0) =~= edits);
    }
}

proof fn lemma_omit_point_all(edits: Seq<Seq<char>>, i: int)
    requires
        1 <= i,
        forall|j: int|
            i <= j < edits.len() ==> !((#[trigger] edits[j]).len() > edits[j - 1].len()
                || edits[j].len() == 0),
    ensures
        omit_point_from(edits, i) == 0,
    decreases edits.len() - i,
{
    if i < edits.len() {
        lemma_omit_point_all(edits, i + 1);
    }
}

/// The wrapper's class: nothing without cursor or custom class, the cursor
/// class alone, the custom class alone, or the cursor class, a space and the
/// custom class; an empty custom class counts as none.
pub proof fn lemma_class_name(class: Seq<char>)
    ensures
        class_name_spec(false, None) == Seq::<char>::empty(),
        class_name_spec(true, None) == CURSOR_CLASS@,
        class_name_spec(false, Some(Seq::<char>::empty())) == Seq::<char>::empty(),
        class_name_spec(true, Some(Seq::<char>::empty())) == CURSOR_CLASS@,
        class.len() > 0 ==> class_name_spec(false, Some(class)) == class,
        class.len() > 0 ==> class_name_spec(true, Some(class)) == CURSOR_CLASS@ + seq![' ']
            + class,
{
}

/// An optional attribute renders as its text, or as the empty string.
pub proof fn lemma_text_or_empty(text: String)
    ensures
        text_or_empty(Some(text)) == text@,
        text_or_empty(None) == Seq::<char>::empty(),
{
}

/// An edit deletes exactly when it is empty or shorter than the text shown
/// before it, and types otherwise.
pub proof fn lemma_operation(before: Seq<char>, snippet: Seq<char>)
    ensures
        snippet.len() == 0 ==> operation_spec(before, snippet) == Operation::Deletion,
        before.len() > snippet.len() ==> operation_spec(before, snippet) == Operation::Deletion,
        snippet.len() > 0 && before.len() <= snippet.len() ==> operation_spec(before, snippet)
            == Operation::Writing,
{
}

/// The steps that do not start a transition: a pending keystroke is shown and
/// followed by the typing delay when it types and the deletion delay when it
/// deletes; a `Delay` item waits its milliseconds; a `Callback` item asks for
/// its own position to be invoked; each moves on by exactly one keystroke or
/// one item.
pub proof fn lemma_plain_steps<C>(
    sequence: Seq<SequenceElement<C>>,
    config: AnimationConfig,
    s: AnimatorView,
    from_units: Seq<Seq<char>>,
    to_units: Seq<Seq<char>>,
)
    ensures
        ({
            let (after, action) = step_spec(sequence, config, s, from_units, to_units);
            &&& s.pending.len() > 0 ==> {
                &&& action == (ActionView::Show {
                    text: s.pending[0].0,
                    base_delay: if s.pending[0].1 == Operation::Writing {
                        config.speed
                    } else {
                        config.deletion_speed
                    },
                })
                &&& after.pending == s.pending.subrange(1, s.pending.len() as int)
                &&& after.next_item == s.next_item
                &&& after.repeats_done == s.repeats_done
            }
            &&& s.pending.len() == 0 && 0 <= s.next_item < sequence.len()
                && sequence[s.next_item] is Delay ==> {
                &&& action == (ActionView::Wait { ms: sequence[s.next_item]->Delay_0 })
                &&& after.next_item == s.next_item + 1
                &&& after.pending.len() == 0
            }
            &&& s.pending.len() == 0 && 0 <= s.next_item < sequence.len()
                && sequence[s.next_item] is Callback ==> {
                &&& action == (ActionView::Invoke { index: s.next_item })
                &&& after.next_item == s.next_item + 1
                &&& after.pending.len() == 0
            }
        }),
{
}

} // verus!
