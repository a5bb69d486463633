use roundwatch::round::{Notice, Target};
use roundwatch::session::WatchSession;

fn session_alice() -> WatchSession {
    WatchSession::new(vec![Target { number: 1, value: b"Alice".to_vec() }])
}

fn recording_round(session: &mut WatchSession) {
    session.toggle_recording(true);
    let notices = session.process_line(b"2024 Log - and the round type is Classic");
    assert!(notices.is_empty());
    assert!(session.state.in_round);
}

#[test]
fn target_line_hits_and_queues() {
    let mut s = session_alice();
    recording_round(&mut s);
    let notices = s.process_line(b"2024 Log - [DEATH][Alice] Alice died.");
    assert_eq!(notices.len(), 1);
    assert!(matches!(notices[0], Notice::LogHit(1)));
    assert_eq!(s.dispatcher.pending(), 1);
    assert_eq!(s.dispatcher.tick(0), Some(1));
}

#[test]
fn unknown_line_discovers_player() {
    let mut s = session_alice();
    recording_round(&mut s);
    let notices = s.process_line(b"2024 Log - [DEATH][Bob] Bob died.");
    assert_eq!(notices.len(), 1);
    match &notices[0] {
        Notice::NewPlayer(name) => assert_eq!(name.as_slice(), b"Bob"),
        _ => panic!("expected a discovery notification"),
    }
    assert_eq!(s.dispatcher.pending(), 0);
}

#[test]
fn round_over_line_clears_queue_and_notifies() {
    let mut s = session_alice();
    recording_round(&mut s);
    s.process_line(b"[DEATH][Alice] died");
    assert_eq!(s.dispatcher.pending(), 1);
    let notices = s.process_line(b"2024 Log - RoundOver reached");
    assert_eq!(s.dispatcher.pending(), 0);
    assert_eq!(notices.len(), 2);
    assert!(matches!(notices[0], Notice::RoundOver));
    assert!(matches!(notices[1], Notice::ResetHit));
    assert!(!s.state.recording);
    assert!(!s.state.in_round);
}

#[test]
fn round_over_line_resets_even_when_idle() {
    let mut s = session_alice();
    let notices = s.process_line(b"RoundOver");
    assert_eq!(notices.len(), 1);
    assert!(matches!(notices[0], Notice::ResetHit));
}

#[test]
fn one_line_with_every_marker() {
    let mut s = session_alice();
    recording_round(&mut s);
    // The round-start is a no-op (already in a round); the round end fires,
    // and the death is then seen outside any round, so only the target match
    // side stays live.
    let notices = s.process_line(b"and the round type is X RoundOver [DEATH][Alice]");
    assert_eq!(notices.len(), 3);
    assert!(matches!(notices[0], Notice::RoundOver));
    assert!(matches!(notices[1], Notice::ResetHit));
    assert!(matches!(notices[2], Notice::LogHit(1)));
    // The queue was cleared by the round end, then the match was enqueued.
    assert_eq!(s.dispatcher.pending(), 1);
}

#[test]
fn manual_reset_clears_queue() {
    let mut s = session_alice();
    s.process_line(b"[DEATH][Alice]");
    assert_eq!(s.dispatcher.pending(), 1);
    let notices = s.send_reset();
    assert_eq!(s.dispatcher.pending(), 0);
    assert_eq!(notices.len(), 1);
    assert!(matches!(notices[0], Notice::ResetHit));
}

#[test]
fn toggle_does_not_touch_queue() {
    let mut s = session_alice();
    s.process_line(b"[DEATH][Alice]");
    assert_eq!(s.dispatcher.pending(), 1);
    s.toggle_recording(true);
    assert_eq!(s.dispatcher.pending(), 1);
    s.toggle_recording(false);
    assert_eq!(s.dispatcher.pending(), 1);
}
