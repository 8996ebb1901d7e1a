use dioxus_type_animation::animation::{
    default_splitter, deleter, edits_for_transition, get_overlap, omit_deletion_edits,
    transition_edits, unit_overlap, writer,
};
use dioxus_type_animation::class_name::final_class_name;
use dioxus_type_animation::speed::normalize_speed;
use dioxus_type_animation::{Speed, CURSOR_CLASS};

#[test]
fn speed_presets_match_react_normalization() {
    assert_eq!(normalize_speed(Speed::Preset(40)), 60);
    assert_eq!(normalize_speed(Speed::Preset(99)), 1);
    assert_eq!(normalize_speed(Speed::Preset(1)), 99);
    assert_eq!(normalize_speed(Speed::KeyStrokeDelayInMs(125)), 125);
}

#[test]
fn overlap_finds_common_prefix() {
    assert_eq!(
        get_overlap("We produce food for Mice", "We produce food for Hamsters"),
        20
    );
    assert_eq!(get_overlap("abc", "abcde"), 3);
    assert_eq!(get_overlap("abc", "xyz"), 0);
}

#[test]
fn transition_deletes_to_overlap_then_writes() {
    let splitter = default_splitter();
    let edits = edits_for_transition("abc", "abd", &splitter);
    assert_eq!(edits, vec!["ab".to_string(), "abd".to_string()]);
}

#[test]
fn omit_deletion_starts_at_deletion_end_state() {
    let edits = vec![
        "abc".to_string(),
        "ab".to_string(),
        "a".to_string(),
        "ax".to_string(),
    ];

    assert_eq!(omit_deletion_edits("abcd", &edits), vec!["ax".to_string()]);
}

#[test]
fn class_name_matches_cursor_and_custom_class_settings() {
    assert_eq!(final_class_name(true, None), CURSOR_CLASS);
    assert_eq!(
        final_class_name(true, Some("hero")),
        format!("{CURSOR_CLASS} hero")
    );
    assert_eq!(final_class_name(false, Some("hero")), "hero");
    assert_eq!(final_class_name(false, None), "");
}

fn strings(items: &[&str]) -> Vec<String> {
    items.iter().map(|s| s.to_string()).collect()
}

#[test]
fn speed_preset_at_and_above_one_hundred() {
    assert_eq!(normalize_speed(Speed::Preset(100)), 0);
    assert_eq!(normalize_speed(Speed::Preset(250)), 150);
    assert_eq!(normalize_speed(Speed::Preset(0)), 100);
    assert_eq!(normalize_speed(Speed::KeyStrokeDelayInMs(0)), 0);
}

#[test]
fn overlap_of_equal_empty_and_unicode_texts() {
    assert_eq!(get_overlap("same", "same"), 4);
    assert_eq!(get_overlap("", "abc"), 0);
    assert_eq!(get_overlap("abc", ""), 0);
    assert_eq!(get_overlap("héllo", "hélp"), 3);
    assert_eq!(get_overlap("日本語", "日本人"), 2);
}

#[test]
fn writer_types_units_after_start() {
    let units = strings(&["a", "b", "c"]);
    assert_eq!(writer(&units, 1), strings(&["ab", "abc"]));
    assert_eq!(writer(&units, 0), strings(&["a", "ab", "abc"]));
    assert_eq!(writer(&units, 3), strings(&[]));
    assert_eq!(writer(&units, 7), strings(&[]));
}

#[test]
fn deleter_removes_units_down_to_start() {
    let units = strings(&["a", "b", "c"]);
    assert_eq!(deleter(&units, 1), strings(&["ab", "a"]));
    assert_eq!(deleter(&units, 0), strings(&["ab", "a", ""]));
    assert_eq!(deleter(&units, 3), strings(&[]));
    assert_eq!(deleter(&units, 9), strings(&[]));
}

#[test]
fn writer_and_deleter_join_multi_character_units() {
    let units = strings(&["ab", "cd", "e"]);
    assert_eq!(writer(&units, 1), strings(&["abcd", "abcde"]));
    assert_eq!(deleter(&units, 1), strings(&["abcd", "ab"]));
}

#[test]
fn transition_with_nothing_in_common() {
    let splitter = default_splitter();
    let edits = edits_for_transition("abc", "xyz", &splitter);
    assert_eq!(edits, strings(&["ab", "a", "", "x", "xy", "xyz"]));
}

#[test]
fn transition_to_the_same_text_has_no_edits() {
    let splitter = default_splitter();
    assert_eq!(edits_for_transition("abc", "abc", &splitter), strings(&[]));
    assert_eq!(edits_for_transition("", "", &splitter), strings(&[]));
}

#[test]
fn transition_to_a_prefix_only_deletes() {
    let splitter = default_splitter();
    assert_eq!(edits_for_transition("abcd", "ab", &splitter), strings(&["abc", "ab"]));
    assert_eq!(edits_for_transition("abc", "", &splitter), strings(&["ab", "a", ""]));
}

#[test]
fn transition_from_a_prefix_only_writes() {
    let splitter = default_splitter();
    assert_eq!(edits_for_transition("", "hi", &splitter), strings(&["h", "hi"]));
    assert_eq!(edits_for_transition("ab", "abcd", &splitter), strings(&["abc", "abcd"]));
}

#[test]
fn transition_ends_on_the_target_text() {
    let splitter = default_splitter();
    let pairs = [
        ("We produce food for Mice", "We produce food for Hamsters"),
        ("abc", "abd"),
        ("abcd", "ab"),
        ("", "xyz"),
        ("héllo", "hélp"),
    ];
    for (a, b) in pairs {
        let edits = edits_for_transition(a, b, &splitter);
        assert_eq!(edits.last().map(|s| s.as_str()), Some(b));
    }
}

#[test]
fn transition_shrinks_then_grows_one_character_at_a_time() {
    let splitter = default_splitter();
    let start = "We produce food for Mice";
    let end = "We produce food for Hamsters";
    let edits = edits_for_transition(start, end, &splitter);
    let overlap = get_overlap(start, end);
    let deletions = start.chars().count() - overlap;
    assert_eq!(edits.len(), deletions + end.chars().count() - overlap);
    for (i, edit) in edits.iter().enumerate() {
        if i < deletions {
            assert!(start.starts_with(edit.as_str()));
            assert_eq!(edit.chars().count(), start.chars().count() - 1 - i);
        } else {
            assert!(end.starts_with(edit.as_str()));
            assert_eq!(edit.chars().count(), overlap + i - deletions + 1);
        }
    }
}

#[test]
fn transition_with_a_custom_splitter() {
    let by_pairs = |text: &str| -> Vec<String> {
        let chars: Vec<char> = text.chars().collect();
        chars.chunks(2).map(|c| c.iter().collect()).collect()
    };
    let edits = edits_for_transition("abcdef", "abxy", &by_pairs);
    assert_eq!(edits, strings(&["abcd", "ab", "abxy"]));
    let words = |text: &str| -> Vec<String> { text.split_inclusive(' ').map(|w| w.to_string()).collect() };
    let edits = edits_for_transition("ab", "ab cd ef", &words);
    assert_eq!(edits, strings(&["", "ab ", "ab cd ", "ab cd ef"]));
    let edits = edits_for_transition("", "ab cd", &words);
    assert_eq!(edits, strings(&["ab ", "ab cd"]));
}

// Groups characters joined by a zero-width joiner into one unit, as a
// grapheme-aware splitter does for emoji sequences.
fn joined_emoji(text: &str) -> Vec<String> {
    let mut units: Vec<String> = Vec::new();
    let mut glue = false;
    for c in text.chars() {
        if (c == '\u{200D}' || glue) && !units.is_empty() {
            units.last_mut().unwrap().push(c);
        } else {
            units.push(c.to_string());
        }
        glue = c == '\u{200D}';
    }
    units
}

#[test]
fn transition_with_a_grapheme_splitter_reaches_the_target() {
    let family = "\u{1F468}\u{200D}\u{1F469}\u{200D}\u{1F467}\u{200D}\u{1F466}";
    assert_eq!(joined_emoji(&format!("{family} a")).len(), 3);
    let edits = edits_for_transition(&format!("{family} a"), &format!("{family} b"), &joined_emoji);
    assert_eq!(edits, vec![format!("{family} "), format!("{family} b")]);
    let edits = edits_for_transition("", &format!("x{family}"), &joined_emoji);
    assert_eq!(edits, vec!["x".to_string(), format!("x{family}")]);
    let edits = edits_for_transition(&format!("{family}{family}"), "", &joined_emoji);
    assert_eq!(edits, vec![family.to_string(), String::new()]);
}

#[test]
fn unit_overlap_counts_whole_units() {
    assert_eq!(unit_overlap(&strings(&["ab", "cd"]), &strings(&["ab", "ce"])), 1);
    assert_eq!(unit_overlap(&strings(&["a", "b"]), &strings(&["a", "b", "c"])), 2);
    assert_eq!(unit_overlap(&strings(&[]), &strings(&["a"])), 0);
}

#[test]
fn transition_edits_from_given_units() {
    let start_units = strings(&["a", "b", "c"]);
    let end_units = strings(&["a", "b", "d"]);
    assert_eq!(transition_edits(&start_units, &end_units), strings(&["ab", "abd"]));
    let start_units = strings(&["ab", "cd"]);
    let end_units = strings(&["ab", "ce"]);
    assert_eq!(transition_edits(&start_units, &end_units), strings(&["ab", "abce"]));
}

#[test]
fn omit_deletion_edge_cases() {
    assert_eq!(omit_deletion_edits("", &strings(&[])), strings(&[]));
    assert_eq!(omit_deletion_edits("", &strings(&["x"])), strings(&["x"]));
    assert_eq!(omit_deletion_edits("abc", &strings(&["ab", "abd"])), strings(&["abd"]));
    assert_eq!(
        omit_deletion_edits("abc", &strings(&["ab", "a", "", "x", "xy", "xyz"])),
        strings(&["", "x", "xy", "xyz"])
    );
}

#[test]
fn omit_deletion_keeps_every_typed_snippet_when_nothing_is_deleted() {
    assert_eq!(omit_deletion_edits("", &strings(&["a", "ab"])), strings(&["a", "ab"]));
    assert_eq!(omit_deletion_edits("ab", &strings(&["abc", "abcd"])), strings(&["abc", "abcd"]));
    let splitter = default_splitter();
    let edits = edits_for_transition("ab", "abcd", &splitter);
    assert_eq!(omit_deletion_edits("ab", &edits), strings(&["abc", "abcd"]));
}

#[test]
fn omit_deletion_jumps_to_the_end_state_when_nothing_is_typed() {
    assert_eq!(omit_deletion_edits("abc", &strings(&["ab", "a"])), strings(&["a"]));
    assert_eq!(omit_deletion_edits("abcd", &strings(&["abc", "ab"])), strings(&["ab"]));
    let splitter = default_splitter();
    let edits = edits_for_transition("abc", "", &splitter);
    assert_eq!(omit_deletion_edits("abc", &edits), strings(&[""]));
}

#[test]
fn omit_deletion_skips_every_deletion_when_text_is_also_typed() {
    let splitter = default_splitter();
    let edits = edits_for_transition("a", "xyz", &splitter);
    assert_eq!(omit_deletion_edits("a", &edits), strings(&["x", "xy", "xyz"]));
    let edits = edits_for_transition("abc", "abd", &splitter);
    assert_eq!(omit_deletion_edits("abc", &edits), strings(&["abd"]));
    let edits = edits_for_transition("hello", "help me", &splitter);
    assert_eq!(
        omit_deletion_edits("hello", &edits),
        strings(&["help", "help ", "help m", "help me"])
    );
}

#[test]
fn omit_deletion_keeps_the_final_text() {
    let splitter = default_splitter();
    for (a, b) in [("abc", "abd"), ("abc", "xyz"), ("abcd", "ab"), ("", "hi"), ("ab", "abcd")] {
        let edits = edits_for_transition(a, b, &splitter);
        let kept = omit_deletion_edits(a, &edits);
        assert!(!kept.is_empty());
        assert_eq!(kept.last(), edits.last());
        assert!(edits.ends_with(&kept));
    }
}

#[test]
fn class_name_ignores_an_empty_custom_class() {
    assert_eq!(final_class_name(true, Some("")), CURSOR_CLASS);
    assert_eq!(final_class_name(false, Some("")), "");
    assert_eq!(final_class_name(false, Some("a b")), "a b");
}
