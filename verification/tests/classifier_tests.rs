use roundwatch::classifier::{classify_line, LogEvent};

fn classify(line: &str) -> Vec<LogEvent> {
    classify_line(line.as_bytes())
}

#[test]
fn round_over_detected_alone() {
    let events = classify("2024.01.01 12:00:00 Log - RoundOver");
    assert_eq!(events.len(), 1);
    assert!(matches!(events[0], LogEvent::RoundOver));
}

#[test]
fn round_over_detected_with_surrounding_text() {
    for line in [
        "RoundOver",
        "prefix RoundOver suffix",
        "weird [DEATH] text then RoundOver",
        "roundover RoundOver ROUNDOVER",
    ] {
        let events = classify(line);
        assert!(
            events.iter().any(|e| matches!(e, LogEvent::RoundOver)),
            "missed RoundOver in {line:?}"
        );
    }
}

#[test]
fn round_over_is_case_sensitive() {
    let events = classify("roundover ROUNDOVER Roundover");
    assert!(events.is_empty());
}

#[test]
fn round_start_detected() {
    let events = classify("Saving Avatar Data: and the round type is Sabotage");
    assert_eq!(events.len(), 1);
    assert!(matches!(events[0], LogEvent::RoundStarted));
}

#[test]
fn death_name_extracted() {
    let events = classify("2024.01.01 Log - [DEATH][Alice] Alice died.");
    assert_eq!(events.len(), 1);
    match &events[0] {
        LogEvent::Death(name) => assert_eq!(name.as_slice(), b"Alice"),
        _ => panic!("expected a death event"),
    }
}

#[test]
fn death_without_closing_bracket_ignored() {
    let events = classify("some [DEATH][Alice with no close");
    assert!(events.is_empty());
}

#[test]
fn only_first_death_considered() {
    let events = classify("[DEATH][Alice] then [DEATH][Bob]");
    assert_eq!(events.len(), 1);
    match &events[0] {
        LogEvent::Death(name) => assert_eq!(name.as_slice(), b"Alice"),
        _ => panic!("expected a death event"),
    }
}

#[test]
fn empty_death_name() {
    let events = classify("x [DEATH][] y");
    assert_eq!(events.len(), 1);
    match &events[0] {
        LogEvent::Death(name) => assert_eq!(name.as_slice(), b""),
        _ => panic!("expected a death event"),
    }
}

#[test]
fn all_markers_in_one_line_ordered() {
    let events = classify("and the round type is X RoundOver [DEATH][Eve]");
    assert_eq!(events.len(), 3);
    assert!(matches!(events[0], LogEvent::RoundStarted));
    assert!(matches!(events[1], LogEvent::RoundOver));
    match &events[2] {
        LogEvent::Death(name) => assert_eq!(name.as_slice(), b"Eve"),
        _ => panic!("expected a death event"),
    }
}

#[test]
fn plain_line_yields_nothing() {
    assert!(classify("").is_empty());
    assert!(classify("an ordinary log line").is_empty());
}
