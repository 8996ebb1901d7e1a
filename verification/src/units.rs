//! Texts as sequences of editable units.

use vstd::prelude::*;

verus! {

/// The characters of each unit of a split text.
pub open spec fn units_view(units: Seq<String>) -> Seq<Seq<char>> {
    units.map_values(|u: String| u@)
}

/// A text split into its characters, one unit per character.
pub open spec fn char_units(text: Seq<char>) -> Seq<Seq<char>> {
    text.map_values(|c: char| seq![c])
}

/// The text formed by the first `k` units.
pub open spec fn joined_prefix(units: Seq<Seq<char>>, k: int) -> Seq<char> {
    units.take(k).flatten()
}

/// Joining the first `k` character units gives back the first `k` characters.
pub proof fn lemma_char_units_joined(text: Seq<char>, k: int)
    requires
        0 <= k <= text.len(),
    ensures
        joined_prefix(char_units(text), k) == text.take(k),
    decreases k,
{
    if k == 0 {
        assert(char_units(text).take(0) =~= Seq::<Seq<char>>::empty());
        assert(text.take(0) =~= Seq::<char>::empty());
    } else {
        lemma_char_units_joined(text, k - 1);
        let prev = char_units(text).take(k - 1);
        assert(char_units(text).take(k) =~= prev.push(seq![text[k - 1]]));
        prev.lemma_flatten_push(seq![text[k - 1]]);
        assert(text.take(k) =~= text.take(k - 1) + seq![text[k - 1]]);
    }
}

/// Appends one character to a string (std's `String::push`).
#[verifier::external_body]
fn push_char(s: &mut String, c: char)
    ensures
        final(s)@ == old(s)@.push(c),
{
    s.push(c);
}

/// The characters of a text.
pub fn chars_of(text: &str) -> (chars: Vec<char>)
    ensures
        chars@ == text@,
{
    let mut chars: Vec<char> = Vec::new();
    for c in it: text.chars()
        invariant
            chars@ == it.seq().take(it.index() as int),
            it.seq() == text@,
    {
        chars.push(c);
    }
    chars
}

/// The number of characters of a text.
pub fn char_count(text: &str) -> (n: usize)
    ensures
        n == text@.len(),
{
    text.unicode_len()
}

/// Splits a text into its characters, each as a string of its own.
pub fn split_chars(text: &str) -> (units: Vec<String>)
    ensures
        units_view(units@) == char_units(text@),
{
    let mut units: Vec<String> = Vec::new();
    for c in it: text.chars()
        invariant
            it.seq() == text@,
            units_view(units@) == char_units(text@.take(it.index() as int)),
    {
        let ghost i = it.index() as int;
        let mut unit = String::new();
        push_char(&mut unit, c);
        assert(unit@ =~= seq![c]);
        let ghost before = units@;
        units.push(unit);
        assert(c == text@[i]);
        assert(text@.take(i + 1) =~= text@.take(i).push(c));
        assert(units_view(units@) =~= units_view(before).push(seq![c]));
        assert(char_units(text@.take(i + 1)) =~= char_units(text@.take(i)).push(seq![c]));
    }
    assert(text@.take(text@.len() as int) =~= text@);
    units
}

/// Joins the first `k` units into one string.
pub fn join_prefix(units: &Vec<String>, k: usize) -> (joined: String)
    requires
        k <= units.len(),
    ensures
        joined@ == joined_prefix(units_view(units@), k as int),
{
    let mut joined = String::new();
    let mut i: usize = 0;
    assert(units_view(units@).take(0) =~= Seq::<Seq<char>>::empty());
    while i < k
        invariant
            i <= k <= units.len(),
            joined@ == joined_prefix(units_view(units@), i as int),
        decreases k - i,
    {
        let ghost prev = units_view(units@).take(i as int);
        joined.append(units[i].as_str());
        assert(units_view(units@).take(i + 1) =~= prev.push(units@[i as int]@));
        proof {
            prev.lemma_flatten_push(units@[i as int]@);
        }
        i = i + 1;
    }
    joined
}

} // verus!
