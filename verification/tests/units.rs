use dioxus_type_animation::keystrokes::{keystrokes, Operation};
use dioxus_type_animation::units::{char_count, chars_of, join_prefix, split_chars};

#[test]
fn split_chars_makes_one_unit_per_character() {
    assert_eq!(split_chars("héllo"), vec!["h", "é", "l", "l", "o"]);
    assert_eq!(split_chars(""), Vec::<String>::new());
    assert_eq!(chars_of("añb"), vec!['a', 'ñ', 'b']);
    assert_eq!(char_count("日本語"), 3);
    assert_eq!(char_count(""), 0);
}

#[test]
fn join_prefix_joins_leading_units() {
    let units = vec!["ab".to_string(), "c".to_string(), "de".to_string()];
    assert_eq!(join_prefix(&units, 0), "");
    assert_eq!(join_prefix(&units, 2), "abc");
    assert_eq!(join_prefix(&units, 3), "abcde");
}

#[test]
fn keystrokes_mark_deletions_and_writing() {
    let snippets = vec!["ab".to_string(), "abd".to_string()];
    let strokes = keystrokes("abc", &snippets);
    let ops: Vec<Operation> = strokes.iter().map(|k| k.operation).collect();
    assert_eq!(ops, vec![Operation::Deletion, Operation::Writing]);
    assert_eq!(strokes[1].text, "abd");

    let snippets = vec!["".to_string(), "x".to_string(), "y".to_string()];
    let ops: Vec<Operation> = keystrokes("", &snippets).iter().map(|k| k.operation).collect();
    assert_eq!(ops, vec![Operation::Deletion, Operation::Writing, Operation::Writing]);
}
