use dioxus_type_animation::animation::default_splitter;
use dioxus_type_animation::animator::{timeout_millis, Action, AnimationConfig, Animator};
use dioxus_type_animation::{Repeat, SequenceElement};

#[derive(Debug, PartialEq)]
enum Seen {
    Show(String, u64),
    Wait(u64),
    Invoke(usize),
    Restart,
    Proceed,
    Finished,
}

fn seen(action: Action) -> Seen {
    match action {
        Action::Show { text, base_delay } => Seen::Show(text, base_delay),
        Action::Wait { ms } => Seen::Wait(ms),
        Action::Invoke { index } => Seen::Invoke(index),
        Action::Restart => Seen::Restart,
        Action::Proceed => Seen::Proceed,
        Action::Finished => Seen::Finished,
    }
}

fn config(repeat: Repeat, omit: bool) -> AnimationConfig {
    AnimationConfig { repeat, speed: 60, deletion_speed: 30, omit_deletion_animation: omit }
}

fn show(text: &str, delay: u64) -> Seen {
    Seen::Show(text.to_string(), delay)
}

fn run_steps(animator: &mut Animator<&'static str>, steps: usize) -> Vec<Seen> {
    let splitter = default_splitter();
    (0..steps).map(|_| seen(animator.step(&splitter))).collect()
}

fn sample() -> Vec<SequenceElement<&'static str>> {
    vec![
        SequenceElement::Text("ab".to_string()),
        SequenceElement::Delay(100),
        SequenceElement::Callback("done"),
        SequenceElement::Text("ax".to_string()),
    ]
}

#[test]
fn runs_once_then_finishes() {
    let mut animator = Animator::new(sample(), config(Repeat::Count(0), false), String::new());
    let actions = run_steps(&mut animator, 10);
    assert_eq!(
        actions,
        vec![
            Seen::Proceed,
            show("a", 60),
            show("ab", 60),
            Seen::Wait(100),
            Seen::Invoke(2),
            Seen::Proceed,
            show("a", 30),
            show("ax", 60),
            Seen::Finished,
            Seen::Finished,
        ]
    );
    assert_eq!(animator.current_text(), "ax");
}

#[test]
fn count_plays_once_plus_repeats() {
    let mut animator = Animator::new(sample(), config(Repeat::Count(2), false), String::new());
    let actions = run_steps(&mut animator, 40);
    let restarts = actions.iter().filter(|a| **a == Seen::Restart).count();
    let waits = actions.iter().filter(|a| **a == Seen::Wait(100)).count();
    let callbacks = actions.iter().filter(|a| **a == Seen::Invoke(2)).count();
    assert_eq!(restarts, 2);
    assert_eq!(waits, 3);
    assert_eq!(callbacks, 3);
    let first_finish = actions.iter().position(|a| *a == Seen::Finished).unwrap();
    assert!(actions[first_finish..].iter().all(|a| *a == Seen::Finished));
    assert_eq!(
        actions[..first_finish].iter().filter(|a| **a == Seen::Restart).count(),
        2
    );
}

#[test]
fn second_pass_starts_from_the_last_text() {
    let mut animator = Animator::new(sample(), config(Repeat::Count(1), false), String::new());
    let actions = run_steps(&mut animator, 18);
    assert_eq!(
        actions[8..],
        [
            Seen::Restart,
            Seen::Proceed,
            show("a", 30),
            show("ab", 60),
            Seen::Wait(100),
            Seen::Invoke(2),
            Seen::Proceed,
            show("a", 30),
            show("ax", 60),
            Seen::Finished,
        ]
    );
}

#[test]
fn infinite_never_finishes() {
    let mut animator = Animator::new(sample(), config(Repeat::Infinite, false), String::new());
    let actions = run_steps(&mut animator, 200);
    assert!(actions.iter().all(|a| *a != Seen::Finished));
    assert!(actions.iter().filter(|a| **a == Seen::Restart).count() >= 10);
}

#[test]
fn infinite_with_an_empty_sequence_only_restarts() {
    let mut animator: Animator<&'static str> =
        Animator::new(vec![], config(Repeat::Infinite, false), String::new());
    let actions = run_steps(&mut animator, 5);
    assert!(actions.iter().all(|a| *a == Seen::Restart));
}

#[test]
fn omitted_deletions_keep_typing_and_jump_over_deleting() {
    let sequence = vec![
        SequenceElement::Text("abc".to_string()),
        SequenceElement::Text("xyz".to_string()),
        SequenceElement::Text("x".to_string()),
    ];
    let mut animator = Animator::new(sequence, config(Repeat::Count(0), true), String::new());
    let actions = run_steps(&mut animator, 13);
    assert_eq!(
        actions,
        vec![
            Seen::Proceed,
            show("a", 60),
            show("ab", 60),
            show("abc", 60),
            Seen::Proceed,
            show("", 30),
            show("x", 60),
            show("xy", 60),
            show("xyz", 60),
            Seen::Proceed,
            show("x", 30),
            Seen::Finished,
            Seen::Finished,
        ]
    );
}

#[test]
fn grapheme_splitter_reaches_each_text() {
    let family = "\u{1F468}\u{200D}\u{1F469}\u{200D}\u{1F467}\u{200D}\u{1F466}";
    let joined_emoji = |text: &str| -> Vec<String> {
        let mut units: Vec<String> = Vec::new();
        let mut glue = false;
        for c in text.chars() {
            if (c == '\u{200D}' || glue) && !units.is_empty() {
                units.last_mut().unwrap().push(c);
            } else {
                units.push(c.to_string());
            }
            glue = c == '\u{200D}';
        }
        units
    };
    let sequence = vec![
        SequenceElement::<()>::Text(format!("{family} a")),
        SequenceElement::Text(format!("{family} b")),
    ];
    let mut animator = Animator::new(sequence, config(Repeat::Count(0), false), String::new());
    let actions: Vec<Seen> = (0..8).map(|_| seen(animator.step(&joined_emoji))).collect();
    assert_eq!(
        actions,
        vec![
            Seen::Proceed,
            Seen::Show(family.to_string(), 60),
            Seen::Show(format!("{family} "), 60),
            Seen::Show(format!("{family} a"), 60),
            Seen::Proceed,
            Seen::Show(format!("{family} "), 30),
            Seen::Show(format!("{family} b"), 60),
            Seen::Finished,
        ]
    );
}

#[test]
fn pre_rendered_text_is_not_typed_again() {
    let sequence = vec![SequenceElement::<()>::Text("hello".to_string())];
    let mut animator = Animator::new(sequence, config(Repeat::Count(0), false), "hello".to_string());
    let splitter = default_splitter();
    let actions: Vec<Seen> = (0..3).map(|_| seen(animator.step(&splitter))).collect();
    assert_eq!(actions, vec![Seen::Proceed, Seen::Finished, Seen::Finished]);
}

#[test]
fn delays_and_deletion_speed() {
    let sequence = vec![
        SequenceElement::<()>::Text("ab".to_string()),
        SequenceElement::Text("".to_string()),
    ];
    let custom = AnimationConfig {
        repeat: Repeat::Count(0),
        speed: 7,
        deletion_speed: 3,
        omit_deletion_animation: false,
    };
    let mut animator = Animator::new(sequence, custom, String::new());
    let splitter = default_splitter();
    let actions: Vec<Seen> = (0..7).map(|_| seen(animator.step(&splitter))).collect();
    assert_eq!(
        actions,
        vec![
            Seen::Proceed,
            Seen::Show("a".to_string(), 7),
            Seen::Show("ab".to_string(), 7),
            Seen::Proceed,
            Seen::Show("a".to_string(), 3),
            Seen::Show("".to_string(), 3),
            Seen::Finished,
        ]
    );
}

#[test]
fn custom_splitter_drives_the_transition() {
    let sequence = vec![SequenceElement::<()>::Text("ab cd".to_string())];
    let mut animator = Animator::new(sequence, config(Repeat::Count(0), false), String::new());
    let words = |text: &str| -> Vec<String> { text.split_inclusive(' ').map(|w| w.to_string()).collect() };
    let actions: Vec<Seen> = (0..4).map(|_| seen(animator.step(&words))).collect();
    assert_eq!(actions, vec![Seen::Proceed, show("ab ", 60), show("ab cd", 60), Seen::Finished]);
}

#[test]
fn callback_lookup() {
    let animator = Animator::new(sample(), config(Repeat::Count(0), false), String::new());
    assert_eq!(animator.callback_at(2), Some(&"done"));
    assert_eq!(animator.callback_at(0), None);
    assert_eq!(animator.callback_at(9), None);
}

#[test]
fn timer_duration_is_capped() {
    assert_eq!(timeout_millis(0), 0);
    assert_eq!(timeout_millis(1500), 1500);
    assert_eq!(timeout_millis(u32::MAX as u64), u32::MAX);
    assert_eq!(timeout_millis(u64::MAX), u32::MAX);
}
