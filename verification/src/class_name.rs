//! The class attribute of the wrapper element.

use vstd::prelude::*;
use crate::CURSOR_CLASS;

verus! {

/// The characters of an optional string.
pub open spec fn optional_text(text: Option<&str>) -> Option<Seq<char>> {
    match text {
        Some(t) => Some(t@),
        None => None,
    }
}

/// The class of the wrapper: the cursor class when `cursor` is set, followed by
/// the custom class when one is given and not empty, separated by a space.
pub open spec fn class_name_spec(cursor: bool, class: Option<Seq<char>>) -> Seq<char> {
    let custom = match class {
        Some(c) => if c.len() > 0 {
            Some(c)
        } else {
            None
        },
        None => None,
    };
    match custom {
        Some(c) => if cursor {
            CURSOR_CLASS@ + seq![' '] + c
        } else {
            c
        },
        None => if cursor {
            CURSOR_CLASS@
        } else {
            Seq::empty()
        },
    }
}

/// The class of the wrapper element, from the cursor setting and the custom class.
pub fn final_class_name(cursor: bool, class: Option<&str>) -> (name: String)
    ensures
        name@ == class_name_spec(cursor, optional_text(class)),
{
    let custom = match class {
        Some(c) => if c.is_empty() {
            None
        } else {
            Some(c)
        },
        None => None,
    };
    match custom {
        Some(c) => if cursor {
            let mut name = CURSOR_CLASS.to_owned();
            name.append(" ");
            name.append(c);
            proof {
                reveal_strlit(" ");
            }
            name
        } else {
            c.to_owned()
        },
        None => if cursor {
            CURSOR_CLASS.to_owned()
        } else {
            String::new()
        },
    }
}

} // verus!
