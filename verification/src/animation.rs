//! The text edits of a transition between two strings.

use vstd::prelude::*;
use crate::units::{
    char_count, char_units, chars_of, join_prefix, joined_prefix, lemma_char_units_joined,
    split_chars, units_view,
};
use crate::keystrokes::{operation_spec, Operation};

verus! {

/// The length of the common prefix of `a` and `b`, counted on from position `i`.
pub open spec fn common_prefix_from<T>(a: Seq<T>, b: Seq<T>, i: int) -> int
    decreases a.len() - i,
{
    if 0 <= i < a.len() && i < b.len() && a[i] == b[i] {
        common_prefix_from(a, b, i + 1)
    } else {
        i
    }
}

/// The number of leading items (characters, or units) that `a` and `b` have
/// in common.
pub open spec fn overlap<T>(a: Seq<T>, b: Seq<T>) -> int {
    common_prefix_from(a, b, 0)
}

proof fn lemma_common_prefix_from<T>(a: Seq<T>, b: Seq<T>, i: int)
    requires
        0 <= i <= a.len(),
        i <= b.len(),
        forall|j: int| 0 <= j < i ==> a[j] == b[j],
    ensures
        i <= common_prefix_from(a, b, i) <= a.len(),
        common_prefix_from(a, b, i) <= b.len(),
        forall|j: int| 0 <= j < common_prefix_from(a, b, i) ==> a[j] == b[j],
        common_prefix_from(a, b, i) < a.len() && common_prefix_from(a, b, i) < b.len()
            ==> a[common_prefix_from(a, b, i)] != b[common_prefix_from(a, b, i)],
    decreases a.len() - i,
{
    if i < a.len() && i < b.len() && a[i] == b[i] {
        lemma_common_prefix_from(a, b, i + 1);
    }
}

/// The overlap of two sequences is the length of their longest common
/// prefix: both start with the same `overlap` items, and the next items
/// differ or one of the sequences ends there.
pub proof fn lemma_overlap_is_longest_common_prefix<T>(a: Seq<T>, b: Seq<T>)
    ensures
        0 <= overlap(a, b) <= a.len(),
        overlap(a, b) <= b.len(),
        a.take(overlap(a, b)) == b.take(overlap(a, b)),
        overlap(a, b) < a.len() && overlap(a, b) < b.len() ==> a[overlap(a, b)] != b[overlap(a, b)],
{
    lemma_common_prefix_from(a, b, 0);
    assert(a.take(overlap(a, b)) =~= b.take(overlap(a, b)));
}

/// The number of leading characters that `start` and `end` have in common.
pub fn get_overlap(start: &str, end: &str) -> (n: usize)
    ensures
        n == overlap(start@, end@),
{
    let a = chars_of(start);
    let b = chars_of(end);
    let mut index: usize = 0;
    while index < a.len() && index < b.len()
        invariant
            a@ == start@,
            b@ == end@,
            index <= a.len(),
            index <= b.len(),
            common_prefix_from(a@, b@, index as int) == overlap(a@, b@),
        decreases a.len() - index,
    {
        if a[index] != b[index] {
            return index;
        }
        index = index + 1;
    }
    index
}

/// The snippets that type the units of a text one by one, starting after the
/// first `start` units: the first `start + 1` units joined, then the first
/// `start + 2`, and so on up to the whole text.
pub open spec fn writing_snippets(units: Seq<Seq<char>>, start: int) -> Seq<Seq<char>> {
    Seq::new(
        if start < units.len() { (units.len() - start) as nat } else { 0 },
        |i: int| joined_prefix(units, start + i + 1),
    )
}

/// The snippets that delete the units of a text one by one from its end,
/// down to its first `start` units: all units but the last joined, then all
/// but the last two, and so on down to the first `start` units.
pub open spec fn deletion_snippets(units: Seq<Seq<char>>, start: int) -> Seq<Seq<char>> {
    Seq::new(
        if start < units.len() { (units.len() - start) as nat } else { 0 },
        |i: int| joined_prefix(units, units.len() - 1 - i),
    )
}

/// The snippets that type `units` from its first `start_index` units on.
pub fn writer(units: &Vec<String>, start_index: usize) -> (snippets: Vec<String>)
    ensures
        units_view(snippets@) == writing_snippets(units_view(units@), start_index as int),
{
    let end_index = units.len();
    let mut index = start_index;
    let mut snippets: Vec<String> = Vec::new();
    while index < end_index
        invariant
            end_index == units.len(),
            start_index <= index,
            start_index <= end_index ==> index <= end_index,
            start_index > end_index ==> index == start_index,
            snippets.len() == index - start_index,
            forall|i: int|
                0 <= i < snippets.len() ==> #[trigger] snippets@[i]@ == joined_prefix(
                    units_view(units@),
                    start_index + i + 1,
                ),
        decreases end_index - index,
    {
        index = index + 1;
        snippets.push(join_prefix(units, index));
    }
    assert(units_view(snippets@) =~= writing_snippets(units_view(units@), start_index as int));
    snippets
}

/// The snippets that delete `units` from its end down to its first
/// `start_index` units.
pub fn deleter(units: &Vec<String>, start_index: usize) -> (snippets: Vec<String>)
    ensures
        units_view(snippets@) == deletion_snippets(units_view(units@), start_index as int),
{
    let mut end_index = units.len();
    let mut snippets: Vec<String> = Vec::new();
    while end_index > start_index
        invariant
            end_index <= units.len(),
            start_index <= units.len() ==> start_index <= end_index,
            start_index > units.len() ==> end_index == units.len(),
            snippets.len() == units.len() - end_index,
            forall|i: int|
                0 <= i < snippets.len() ==> #[trigger] snippets@[i]@ == joined_prefix(
                    units_view(units@),
                    units.len() - 1 - i,
                ),
        decreases end_index,
    {
        end_index = end_index - 1;
        snippets.push(join_prefix(units, end_index));
    }
    assert(units_view(snippets@) =~= deletion_snippets(units_view(units@), start_index as int));
    snippets
}

/// The number of leading units that two split texts have in common.
///
/// The common prefix is counted in units, not in characters: the deletions
/// and the typing index the units, so a count of characters would cut a
/// splitter's multi-character units (grapheme clusters, words) at the wrong
/// place, and with a grapheme splitter a transition could end without ever
/// showing the new text. Counted in units, every transition whose units join
/// back into the texts ends showing the new text
/// (`lemma_transition_ends_at_target`). With one unit per character, as with
/// the default splitter, the two counts agree (`lemma_overlap_char_units`).
pub fn unit_overlap(start_units: &Vec<String>, end_units: &Vec<String>) -> (n: usize)
    ensures
        n == overlap(units_view(start_units@), units_view(end_units@)),
{
    let ghost a = units_view(start_units@);
    let ghost b = units_view(end_units@);
    let mut index: usize = 0;
    while index < start_units.len() && index < end_units.len()
        invariant
            a == units_view(start_units@),
            b == units_view(end_units@),
            index <= start_units.len(),
            index <= end_units.len(),
            common_prefix_from(a, b, index as int) == overlap(a, b),
        decreases start_units.len() - index,
    {
        if start_units[index] != end_units[index] {
            return index;
        }
        index = index + 1;
    }
    index
}

/// The edits of a transition between two texts, given the units of each:
/// delete units from the end of the old text down to the units the two texts
/// start with in common, then type the units of the new text from there on.
///
/// The common prefix is counted in units, not in characters: the deletions
/// and the typing index the units, so a count of characters would cut a
/// splitter's multi-character units (grapheme clusters, words) at the wrong
/// place, and with a grapheme splitter a transition could end without ever
/// showing the new text. Counted in units, every transition whose units join
/// back into the texts ends showing the new text
/// (`lemma_transition_ends_at_target`). With one unit per character, as with
/// the default splitter, the two counts agree (`lemma_overlap_char_units`).
pub open spec fn transition_edits_spec(
    start_units: Seq<Seq<char>>,
    end_units: Seq<Seq<char>>,
) -> Seq<Seq<char>> {
    deletion_snippets(start_units, overlap(start_units, end_units)) + writing_snippets(
        end_units,
        overlap(start_units, end_units),
    )
}

/// The edits of a transition between two texts, given how each splits into
/// units: deletions down to the units both texts start with, then typing.
///
/// The common prefix is counted in units, not in characters: the deletions
/// and the typing index the units, so a count of characters would cut a
/// splitter's multi-character units (grapheme clusters, words) at the wrong
/// place, and with a grapheme splitter a transition could end without ever
/// showing the new text. Counted in units, every transition whose units join
/// back into the texts ends showing the new text
/// (`lemma_transition_ends_at_target`). With one unit per character, as with
/// the default splitter, the two counts agree (`lemma_overlap_char_units`).
pub fn transition_edits(start_units: &Vec<String>, end_units: &Vec<String>) -> (edits: Vec<
    String,
>)
    ensures
        units_view(edits@) == transition_edits_spec(units_view(start_units@), units_view(end_units@)),
{
    let overlap = unit_overlap(start_units, end_units);
    let mut edits = deleter(start_units, overlap);
    let mut written = writer(end_units, overlap);
    let ghost deleted = edits@;
    let ghost typed = written@;
    edits.append(&mut written);
    assert(units_view(edits@) =~= units_view(deleted) + units_view(typed));
    edits
}

/// `units` is a result that `splitter` gives for some text whose characters are `text`.
pub open spec fn splits_into<F: Fn(&str) -> Vec<String>>(
    splitter: F,
    text: Seq<char>,
    units: Seq<Seq<char>>,
) -> bool {
    exists|s: &str, r: Vec<String>|
        s@ == text && call_ensures(splitter, (s,), r) && units_view(r@) == units
}

/// `splitter` accepts every text.
pub open spec fn splits_any<F: Fn(&str) -> Vec<String>>(splitter: F) -> bool {
    forall|s: &str| call_requires(splitter, (s,))
}

/// `splitter` splits every text into its characters.
pub open spec fn splits_chars<F: Fn(&str) -> Vec<String>>(splitter: F) -> bool {
    forall|s: &str, r: Vec<String>|
        call_ensures(splitter, (s,), r) ==> units_view(r@) == char_units(s@)
}

/// The units that `splitter` gives for any text join back into that text.
pub open spec fn joins_back<F: Fn(&str) -> Vec<String>>(splitter: F) -> bool {
    forall|s: &str, r: Vec<String>|
        call_ensures(splitter, (s,), r) ==> units_view(r@).flatten() == s@
}

/// Units that a joining splitter gives for a text join back into that text.
pub proof fn lemma_joins_back<F: Fn(&str) -> Vec<String>>(
    splitter: F,
    text: Seq<char>,
    units: Seq<Seq<char>>,
)
    requires
        joins_back(splitter),
        splits_into(splitter, text, units),
    ensures
        units.flatten() == text,
{
}

/// A splitter that splits every text into its characters gives exactly the
/// character units.
pub proof fn lemma_splits_chars<F: Fn(&str) -> Vec<String>>(
    splitter: F,
    text: Seq<char>,
    units: Seq<Seq<char>>,
)
    requires
        splits_chars(splitter),
        splits_into(splitter, text, units),
    ensures
        units == char_units(text),
{
}

/// The default splitter: one unit per character.
pub fn default_splitter() -> (splitter: impl Fn(&str) -> Vec<String>)
    ensures
        splits_any(splitter),
        splits_chars(splitter),
        joins_back(splitter),
{
    assert forall|t: Seq<char>| #[trigger] char_units(t).flatten() == t by {
        lemma_char_units_joined(t, t.len() as int);
        assert(char_units(t).take(t.len() as int) =~= char_units(t));
        assert(t.take(t.len() as int) =~= t);
    }
    |text: &str| -> (units: Vec<String>)
        ensures
            units_view(units@) == char_units(text@),
        { split_chars(text) }
}

/// The edits of a transition from `start` to `end`, with both texts split by
/// `splitter`: deletions down to the units both texts start with, then typing.
///
/// The common prefix is counted in units, not in characters: the deletions
/// and the typing index the units, so a count of characters would cut a
/// splitter's multi-character units (grapheme clusters, words) at the wrong
/// place, and with a grapheme splitter a transition could end without ever
/// showing the new text. Counted in units, every transition whose units join
/// back into the texts ends showing the new text
/// (`lemma_transition_ends_at_target`). With one unit per character, as with
/// the default splitter, the two counts agree (`lemma_overlap_char_units`).
pub fn edits_for_transition<F: Fn(&str) -> Vec<String>>(
    start: &str,
    end: &str,
    splitter: &F,
) -> (edits: Vec<String>)
    requires
        call_requires(*splitter, (start,)),
        call_requires(*splitter, (end,)),
    ensures
        exists|start_units: Seq<Seq<char>>, end_units: Seq<Seq<char>>|
            {
                &&& splits_into(*splitter, start@, start_units)
                &&& splits_into(*splitter, end@, end_units)
                &&& units_view(edits@) == transition_edits_spec(start_units, end_units)
            },
{
    let start_units = splitter(start);
    let end_units = splitter(end);
    let edits = transition_edits(&start_units, &end_units);
    assert(splits_into(*splitter, start@, units_view(start_units@)));
    assert(splits_into(*splitter, end@, units_view(end_units@)));
    edits
}

/// Where the kept edits begin when deletions are not animated and deleting
/// is followed by typing, looking from position `i` on: the first edit that is
/// longer than the one before it, or empty; the start if there is none.
pub open spec fn omit_point_from(edits: Seq<Seq<char>>, i: int) -> int
    decreases edits.len() - i,
{
    if 1 <= i < edits.len() {
        if edits[i].len() > edits[i - 1].len() || edits[i].len() == 0 {
            i
        } else {
            omit_point_from(edits, i + 1)
        }
    } else {
        0
    }
}

/// How many of the edits, from position `j` on, delete in a row: an edit
/// deletes when it is empty or shorter than the text shown before it, which
/// for the first edit is `previous`.
pub open spec fn deletions_from(previous: Seq<char>, edits: Seq<Seq<char>>, j: int) -> int
    decreases edits.len() - j,
{
    if 0 <= j < edits.len() && operation_spec(
        if j == 0 {
            previous
        } else {
            edits[j - 1]
        },
        edits[j],
    ) == Operation::Deletion {
        deletions_from(previous, edits, j + 1)
    } else {
        j
    }
}

/// The edits that remain when deletions are not animated, for edits shown
/// after `previous`: all of them when the first one types; only the last one
/// when all of them delete, so that the transition jumps to its end state;
/// and when deleting is followed by typing, the edits from the first one
/// after the start that is longer than the one before it, or empty.
pub open spec fn omit_deletions_spec(previous: Seq<char>, edits: Seq<Seq<char>>) -> Seq<
    Seq<char>,
> {
    let deleting = deletions_from(previous, edits, 0);
    if deleting == 0 {
        edits
    } else if deleting >= edits.len() {
        edits.skip(edits.len() - 1)
    } else {
        edits.skip(omit_point_from(edits, 1))
    }
}

/// The edits from position `start` on.
fn edits_from(edits: &Vec<String>, start: usize) -> (kept: Vec<String>)
    requires
        start <= edits.len(),
    ensures
        kept@ == edits@.skip(start as int),
{
    let mut kept: Vec<String> = Vec::new();
    let mut i = start;
    while i < edits.len()
        invariant
            start <= i <= edits.len(),
            kept@ == edits@.subrange(start as int, i as int),
        decreases edits.len() - i,
    {
        kept.push(edits[i].clone());
        assert(kept@ =~= edits@.subrange(start as int, i + 1));
        i = i + 1;
    }
    assert(edits@.skip(start as int) =~= edits@.subrange(start as int, edits.len() as int));
    kept
}

/// How many of the edits, shown after `previous`, delete in a row from the start.
pub fn leading_deletions(previous: &str, edits: &Vec<String>) -> (n: usize)
    ensures
        n == deletions_from(previous@, units_view(edits@), 0),
{
    let ghost view = units_view(edits@);
    let mut before_len = char_count(previous);
    let mut j: usize = 0;
    while j < edits.len()
        invariant
            j <= edits.len(),
            view == units_view(edits@),
            before_len == (if j == 0 {
                previous@
            } else {
                view[j - 1]
            }).len(),
            deletions_from(previous@, view, j as int) == deletions_from(previous@, view, 0),
        decreases edits.len() - j,
    {
        let len = char_count(edits[j].as_str());
        if !(len == 0 || before_len > len) {
            return j;
        }
        before_len = len;
        j = j + 1;
    }
    j
}

/// Skips the animated deletion steps of edits shown after `previous`: keeps
/// every edit when the first one types, only the last one when all of them
/// delete, and otherwise jumps to the first edit after the start that is
/// longer than the one before it, or empty.
pub fn omit_deletion_edits(previous: &str, edits: &Vec<String>) -> (kept: Vec<String>)
    ensures
        units_view(kept@) == omit_deletions_spec(previous@, units_view(edits@)),
{
    let ghost view = units_view(edits@);
    let deleting = leading_deletions(previous, edits);
    if deleting == 0 {
        let kept = edits_from(edits, 0);
        assert(units_view(kept@) =~= view.skip(0));
        assert(view.skip(0) =~= view);
        return kept;
    }
    if deleting >= edits.len() {
        let kept = edits_from(edits, edits.len() - 1);
        assert(units_view(kept@) =~= view.skip(edits.len() - 1));
        return kept;
    }
    let mut i: usize = 1;
    while i < edits.len()
        invariant
            1 <= i <= edits.len(),
            view == units_view(edits@),
            0 < deleting < edits.len(),
            deleting == deletions_from(previous@, view, 0),
            omit_point_from(view, i as int) == omit_point_from(view, 1),
        decreases edits.len() - i,
    {
        let prev_len = char_count(edits[i - 1].as_str());
        let curr_len = char_count(edits[i].as_str());
        if curr_len > prev_len || curr_len == 0 {
            let kept = edits_from(edits, i);
            assert(units_view(kept@) =~= view.skip(i as int));
            return kept;
        }
        i = i + 1;
    }
    let kept = edits_from(edits, 0);
    assert(units_view(kept@) =~= view.skip(0));
    kept
}

} // verus!
