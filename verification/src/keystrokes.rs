//! Keystrokes: the snippets of a transition, each marked as typing or deleting.

use vstd::prelude::*;
use crate::units::{char_count, units_view};

verus! {

/// Whether a keystroke types or deletes.
#[derive(Clone, Copy, Debug, PartialEq, Eq, Structural)]
pub enum Operation {
    Writing,
    Deletion,
}

/// A snippet is a deletion when it is empty or shorter than the text shown
/// before it; otherwise it is writing.
pub open spec fn operation_spec(before: Seq<char>, snippet: Seq<char>) -> Operation {
    if snippet.len() == 0 || before.len() > snippet.len() {
        Operation::Deletion
    } else {
        Operation::Writing
    }
}

/// One snippet to show, and whether showing it types or deletes.
#[derive(Clone, Debug)]
pub struct Keystroke {
    pub text: String,
    pub operation: Operation,
}

/// The characters and the operation of a keystroke.
pub open spec fn keystroke_view(k: Keystroke) -> (Seq<char>, Operation) {
    (k.text@, k.operation)
}

/// The keystrokes that show `snippets` in turn after `previous`: each snippet
/// with its operation relative to the text shown just before it.
pub open spec fn keystrokes_spec(previous: Seq<char>, snippets: Seq<Seq<char>>) -> Seq<
    (Seq<char>, Operation),
> {
    Seq::new(
        snippets.len(),
        |j: int|
            (
                snippets[j],
                operation_spec(
                    if j == 0 {
                        previous
                    } else {
                        snippets[j - 1]
                    },
                    snippets[j],
                ),
            ),
    )
}

/// The keystrokes that show `snippets` in turn after `previous`.
pub fn keystrokes(previous: &str, snippets: &Vec<String>) -> (strokes: Vec<Keystroke>)
    ensures
        strokes@.map_values(|k: Keystroke| keystroke_view(k)) == keystrokes_spec(
            previous@,
            units_view(snippets@),
        ),
{
    let ghost view = units_view(snippets@);
    let mut strokes: Vec<Keystroke> = Vec::new();
    let mut previous_len = char_count(previous);
    let mut j: usize = 0;
    while j < snippets.len()
        invariant
            j <= snippets.len(),
            view == units_view(snippets@),
            strokes.len() == j,
            previous_len == (if j == 0 {
                previous@
            } else {
                view[j - 1]
            }).len(),
            forall|i: int|
                0 <= i < j ==> #[trigger] keystroke_view(strokes@[i]) == keystrokes_spec(
                    previous@,
                    view,
                )[i],
        decreases snippets.len() - j,
    {
        let len = char_count(snippets[j].as_str());
        let operation = if len == 0 || previous_len > len {
            Operation::Deletion
        } else {
            Operation::Writing
        };
        strokes.push(Keystroke { text: snippets[j].clone(), operation });
        previous_len = len;
        j = j + 1;
    }
    assert(strokes@.map_values(|k: Keystroke| keystroke_view(k)) =~= keystrokes_spec(
        previous@,
        view,
    ));
    strokes
}

} // verus!
