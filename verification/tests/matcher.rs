use launchpad_bridge::init::attempt_has_readable_name;
use launchpad_bridge::matcher::{match_port, str_contains};

fn names(v: &[Option<&str>]) -> Vec<Option<String>> {
    v.iter().map(|n| n.map(|s| s.to_string())).collect()
}

#[test]
fn substring_search_finds_tokens() {
    assert!(str_contains("Launchpad MIDI 1", "Launchpad"));
    assert!(str_contains("Launchpad MIDI 1", "MIDI"));
    assert!(!str_contains("Launchpad MIDI 1", "DAW"));
    assert!(str_contains("Launchpad", "Launchpad"));
    assert!(!str_contains("Launchpa", "Launchpad"));
    assert!(!str_contains("", "DAW"));
}

#[test]
fn midi_qualified_beats_daw_and_strangers() {
    let ports = names(&[
        Some("Other Device"),
        Some("Launchpad DAW"),
        Some("Launchpad MIDI 1"),
    ]);
    assert_eq!(match_port(&ports), Some(2));
}

#[test]
fn daw_free_name_beats_daw_name() {
    let ports = names(&[Some("Launchpad DAW"), Some("Launchpad X")]);
    assert_eq!(match_port(&ports), Some(1));
}

#[test]
fn daw_only_is_still_accepted_as_last_resort() {
    let ports = names(&[Some("Launchpad DAW")]);
    assert_eq!(match_port(&ports), Some(0));
}

#[test]
fn daw_variant_token_qualifies_for_the_first_tier() {
    let ports = names(&[Some("Launchpad X"), Some("LPMiniMK3 MIDI Launchpad Mini")]);
    assert_eq!(match_port(&ports), Some(1));
}

#[test]
fn no_family_token_means_no_match() {
    let ports = names(&[Some("Other Device"), Some("USB Keyboard")]);
    assert_eq!(match_port(&ports), None);
}

#[test]
fn unreadable_candidate_is_excluded() {
    let with_zombie = names(&[None, Some("Launchpad DAW"), Some("Launchpad MIDI 1")]);
    let without = names(&[Some("Launchpad DAW"), Some("Launchpad MIDI 1")]);
    assert_eq!(match_port(&with_zombie), Some(2));
    assert_eq!(match_port(&without), Some(1));
}

#[test]
fn unreadable_candidate_alone_matches_nothing() {
    let ports = names(&[None]);
    assert_eq!(match_port(&ports), None);
}

#[test]
fn attempt_accepted_when_any_direction_has_a_readable_name() {
    let readable = names(&[None, Some("Launchpad MIDI 1")]);
    let unreadable = names(&[None, None]);
    let empty = names(&[]);
    assert!(attempt_has_readable_name(&readable, &unreadable));
    assert!(attempt_has_readable_name(&unreadable, &readable));
    assert!(!attempt_has_readable_name(&unreadable, &empty));
    assert!(!attempt_has_readable_name(&empty, &empty));
}
