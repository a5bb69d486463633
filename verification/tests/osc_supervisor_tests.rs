use roundwatch::dispatch::Dispatcher;
use roundwatch::osc::{reset_packet, value_packet};
use roundwatch::supervisor::Supervisor;

#[test]
fn value_packet_matches_reference_encoder() {
    for n in [0usize, 1, 42, 9999] {
        let expected = rosc::encoder::encode(&rosc::OscPacket::Message(rosc::OscMessage {
            addr: "/avatar/parameters/ToN_DeathID".to_string(),
            args: vec![rosc::OscType::Int(n as i32)],
        }))
        .unwrap();
        assert_eq!(value_packet(n), expected);
    }
}

#[test]
fn value_packet_wire_shape() {
    let bytes = value_packet(258);
    // Padded address, then the ",i" type tag, then one big-endian integer.
    assert!(bytes.starts_with(b"/avatar/parameters/ToN_DeathID\0\0"));
    assert_eq!(&bytes[32..36], b",i\0\0");
    assert_eq!(&bytes[36..], &[0, 0, 1, 2]);
}

#[test]
fn reset_packet_matches_reference_encoder() {
    let expected = rosc::encoder::encode(&rosc::OscPacket::Message(rosc::OscMessage {
        addr: "/avatar/parameters/ToN_DeathID_Reset".to_string(),
        args: vec![rosc::OscType::Bool(true)],
    }))
    .unwrap();
    assert_eq!(reset_packet(), expected);
}

#[test]
fn reset_packet_wire_shape() {
    let bytes = reset_packet();
    assert!(bytes.starts_with(b"/avatar/parameters/ToN_DeathID_Reset\0\0\0\0"));
    // A boolean argument lives in the type tag and carries no data bytes.
    assert!(bytes.ends_with(b",T\0\0"));
}

#[test]
fn double_start_leaves_one_tailer() {
    let mut sup = Supervisor::new();
    let mut disp = Dispatcher::new();
    assert!(sup.start_watch(&mut disp, true));
    assert_eq!(sup.active_tailers, 1);
    assert!(sup.start_watch(&mut disp, true));
    assert_eq!(sup.active_tailers, 1);
    assert!(sup.run_flag);
}

#[test]
fn start_without_log_file_spawns_no_tailer() {
    let mut sup = Supervisor::new();
    let mut disp = Dispatcher::new();
    assert!(!sup.start_watch(&mut disp, false));
    assert_eq!(sup.active_tailers, 0);
    assert!(sup.run_flag);
}

#[test]
fn start_resets_dispatcher() {
    let mut sup = Supervisor::new();
    let mut disp = Dispatcher::new();
    disp.enqueue(3);
    assert_eq!(disp.tick(0), Some(3));
    disp.enqueue(4);
    // A new session drops the stale item and the stale send time.
    sup.start_watch(&mut disp, true);
    assert_eq!(disp.pending(), 0);
    disp.enqueue(5);
    assert_eq!(disp.tick(1), Some(5));
}

#[test]
fn tailer_exit_and_stop_all() {
    let mut sup = Supervisor::new();
    let mut disp = Dispatcher::new();
    sup.start_watch(&mut disp, true);
    sup.note_tailer_exit();
    assert_eq!(sup.active_tailers, 0);
    sup.stop_all();
    assert!(!sup.run_flag);
    assert_eq!(sup.active_tailers, 0);
}
