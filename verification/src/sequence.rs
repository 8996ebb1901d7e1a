//! Animation sequences: texts to transition to, delays, and callbacks.

use vstd::prelude::*;

verus! {

/// A single animation sequence item.
///
/// `C` is the callback type; the animation never looks inside a callback, it
/// only reports when one is due.
#[derive(Clone)]
pub enum SequenceElement<C> {
    /// Transition from the current text to this text.
    Text(String),
    /// Wait for the given number of milliseconds.
    Delay(u64),
    /// Invoke a callback.
    Callback(C),
}

/// The characters of a `Text` item, or `None` for any other item.
pub open spec fn text_of<C>(element: SequenceElement<C>) -> Option<Seq<char>> {
    match element {
        SequenceElement::Text(t) => Some(t@),
        _ => None,
    }
}

/// `i` is the position of the first `Text` item of the sequence.
pub open spec fn is_first_text<C>(sequence: Seq<SequenceElement<C>>, i: int) -> bool {
    &&& 0 <= i < sequence.len()
    &&& sequence[i] is Text
    &&& forall|j: int| 0 <= j < i ==> !(#[trigger] sequence[j] is Text)
}

/// The text of the first `Text` item of the sequence, if there is one.
pub open spec fn first_text<C>(sequence: Seq<SequenceElement<C>>) -> Option<Seq<char>> {
    if exists|i: int| is_first_text(sequence, i) {
        text_of(sequence[choose|i: int| is_first_text(sequence, i)])
    } else {
        None
    }
}

/// At most one position holds the first `Text` item.
pub proof fn lemma_first_text_unique<C>(sequence: Seq<SequenceElement<C>>, i: int, k: int)
    requires
        is_first_text(sequence, i),
        is_first_text(sequence, k),
    ensures
        i == k,
{
    if i < k {
        assert(!(sequence[i] is Text));
    } else if k < i {
        assert(!(sequence[k] is Text));
    }
}

/// The text of the first `Text` item of `sequence`, if any.
pub fn first_string<C>(sequence: &Vec<SequenceElement<C>>) -> (first: Option<String>)
    ensures
        first is Some <==> first_text(sequence@) is Some,
        first matches Some(t) ==> first_text(sequence@) == Some(t@),
{
    let mut i: usize = 0;
    while i < sequence.len()
        invariant
            i <= sequence.len(),
            forall|j: int| 0 <= j < i ==> !(#[trigger] sequence@[j] is Text),
        decreases sequence.len() - i,
    {
        match &sequence[i] {
            SequenceElement::Text(text) => {
                assert(is_first_text(sequence@, i as int));
                proof {
                    let k = choose|k: int| is_first_text(sequence@, k);
                    lemma_first_text_unique(sequence@, i as int, k);
                }
                return Some(text.clone());
            },
            _ => {},
        }
        i = i + 1;
    }
    assert(!exists|k: int| is_first_text(sequence@, k));
    None
}

impl<'a, C> From<&'a str> for SequenceElement<C> {
    /// A `Text` item holding a copy of `value`.
    fn from(value: &'a str) -> (element: Self)
        ensures
            element matches SequenceElement::Text(t) && t@ == value@,
    {
        SequenceElement::Text(value.to_owned())
    }
}

impl<'a, C> vstd::std_specs::convert::FromSpecImpl<&'a str> for SequenceElement<C> {
    /// A spec function cannot build a `String` from a `&str`; the `from` above
    /// states its result in its own `ensures`.
    open spec fn obeys_from_spec() -> bool {
        false
    }

    open spec fn from_spec(v: &'a str) -> Self {
        arbitrary()
    }
}

impl<C> From<String> for SequenceElement<C> {
    fn from(value: String) -> (element: Self) {
        SequenceElement::Text(value)
    }
}

impl<C> vstd::std_specs::convert::FromSpecImpl<String> for SequenceElement<C> {
    open spec fn obeys_from_spec() -> bool {
        true
    }

    open spec fn from_spec(v: String) -> Self {
        SequenceElement::Text(v)
    }
}

impl<C> From<u64> for SequenceElement<C> {
    fn from(value: u64) -> (element: Self) {
        SequenceElement::Delay(value)
    }
}

impl<C> vstd::std_specs::convert::FromSpecImpl<u64> for SequenceElement<C> {
    open spec fn obeys_from_spec() -> bool {
        true
    }

    open spec fn from_spec(v: u64) -> Self {
        SequenceElement::Delay(v)
    }
}

impl<C> From<usize> for SequenceElement<C> {
    fn from(value: usize) -> (element: Self) {
        SequenceElement::Delay(value as u64)
    }
}

impl<C> vstd::std_specs::convert::FromSpecImpl<usize> for SequenceElement<C> {
    open spec fn obeys_from_spec() -> bool {
        true
    }

    open spec fn from_spec(v: usize) -> Self {
        SequenceElement::Delay(v as u64)
    }
}

} // verus!
