use roundwatch::tailer::{advance_offset, split_complete_lines};

#[test]
fn complete_lines_split_off() {
    let (lines, consumed) = split_complete_lines(b"a\nbc\npartial");
    assert_eq!(consumed, 5);
    assert_eq!(lines.len(), 2);
    assert_eq!(lines[0].as_slice(), b"a");
    assert_eq!(lines[1].as_slice(), b"bc");
}

#[test]
fn partial_line_left_unconsumed() {
    let (lines, consumed) = split_complete_lines(b"no newline yet");
    assert!(lines.is_empty());
    assert_eq!(consumed, 0);
}

#[test]
fn trailing_newline_consumes_everything() {
    let (lines, consumed) = split_complete_lines(b"one\ntwo\n");
    assert_eq!(consumed, 8);
    assert_eq!(lines.len(), 2);
    assert_eq!(lines[0].as_slice(), b"one");
    assert_eq!(lines[1].as_slice(), b"two");
}

#[test]
fn empty_lines_kept() {
    let (lines, consumed) = split_complete_lines(b"\n\nx");
    assert_eq!(consumed, 2);
    assert_eq!(lines.len(), 2);
    assert!(lines[0].is_empty());
    assert!(lines[1].is_empty());
}

#[test]
fn empty_buffer() {
    let (lines, consumed) = split_complete_lines(b"");
    assert!(lines.is_empty());
    assert_eq!(consumed, 0);
}

#[test]
fn offset_advances_by_consumed() {
    assert_eq!(advance_offset(100, 42), Some(142));
    assert_eq!(advance_offset(0, 0), Some(0));
}

#[test]
fn offset_overflow_reported() {
    assert_eq!(advance_offset(u64::MAX, 1), None);
    assert_eq!(advance_offset(u64::MAX, 0), Some(u64::MAX));
}
