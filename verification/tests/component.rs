use dioxus_type_animation::component::{animation_config, initial_text, render_data};
use dioxus_type_animation::sequence::first_string;
use dioxus_type_animation::{Repeat, SequenceElement, Speed, Wrapper, CURSOR_CLASS};

#[test]
fn defaults_match_the_documented_props() {
    assert_eq!(Repeat::default(), Repeat::Count(0));
    assert_eq!(Speed::default(), Speed::Preset(40));
    assert_eq!(Wrapper::default(), Wrapper::Span);
}

#[test]
fn speed_conversions_make_presets() {
    assert_eq!(Speed::from(50_u64), Speed::Preset(50));
    assert_eq!(Speed::from(80_usize), Speed::Preset(80));
}

#[test]
fn sequence_element_conversions() {
    assert!(matches!(SequenceElement::<()>::from("hi"), SequenceElement::Text(t) if t == "hi"));
    assert!(matches!(SequenceElement::<()>::from("hey".to_string()), SequenceElement::Text(t) if t == "hey"));
    assert!(matches!(SequenceElement::<()>::from(1000_u64), SequenceElement::Delay(1000)));
    assert!(matches!(SequenceElement::<()>::from(750_usize), SequenceElement::Delay(750)));
}

#[test]
fn deletion_speed_falls_back_to_typing_speed() {
    let config = animation_config(Repeat::Infinite, Speed::Preset(80), None, false);
    assert_eq!(config.repeat, Repeat::Infinite);
    assert_eq!(config.speed, 20);
    assert_eq!(config.deletion_speed, 20);
    assert!(!config.omit_deletion_animation);

    let config = animation_config(
        Repeat::Count(3),
        Speed::Preset(80),
        Some(Speed::KeyStrokeDelayInMs(120)),
        true,
    );
    assert_eq!(config.repeat, Repeat::Count(3));
    assert_eq!(config.speed, 20);
    assert_eq!(config.deletion_speed, 120);
    assert!(config.omit_deletion_animation);
}

#[test]
fn first_string_skips_other_items() {
    let sequence: Vec<SequenceElement<()>> = vec![
        SequenceElement::Delay(5),
        SequenceElement::Callback(()),
        SequenceElement::Text("first".to_string()),
        SequenceElement::Text("second".to_string()),
    ];
    assert_eq!(first_string(&sequence), Some("first".to_string()));
    let none: Vec<SequenceElement<()>> = vec![SequenceElement::Delay(5)];
    assert_eq!(first_string(&none), None);
    assert_eq!(first_string::<()>(&vec![]), None);
}

#[test]
fn initial_text_pre_renders_the_first_string() {
    let sequence: Vec<SequenceElement<()>> = vec![
        SequenceElement::Delay(5),
        SequenceElement::Text("Already visible".to_string()),
        SequenceElement::Text("Then animated".to_string()),
    ];
    assert_eq!(initial_text(true, &sequence), "Already visible");
    assert_eq!(initial_text(false, &sequence), "");
    let delays: Vec<SequenceElement<()>> = vec![SequenceElement::Delay(5)];
    assert_eq!(initial_text(true, &delays), "");
}

#[test]
fn render_data_defaults_and_accessibility_span() {
    let data = render_data("typed".to_string(), true, None, None, None, None, None);
    assert_eq!(data.text, "typed");
    assert_eq!(data.class, CURSOR_CLASS);
    assert_eq!(data.style, "");
    assert_eq!(data.aria_label, "");
    assert_eq!(data.aria_hidden, "");
    assert_eq!(data.role, "");
    assert!(!data.use_inner_accessibility_span);

    let data = render_data(
        "typed".to_string(),
        false,
        Some("hero"),
        Some("font-size: 2em;".to_string()),
        Some("Animated product tagline".to_string()),
        Some("false".to_string()),
        Some("text".to_string()),
    );
    assert_eq!(data.class, "hero");
    assert_eq!(data.style, "font-size: 2em;");
    assert_eq!(data.aria_label, "Animated product tagline");
    assert_eq!(data.aria_hidden, "false");
    assert_eq!(data.role, "text");
    assert!(data.use_inner_accessibility_span);

    let data = render_data("x".to_string(), false, None, None, Some(String::new()), None, None);
    assert!(!data.use_inner_accessibility_span);
}
