use roundwatch::files::{is_log_file_name, latest_index};
use roundwatch::format::split_items;

#[test]
fn log_names_accepted() {
    assert!(is_log_file_name(b"output_log_2024-01-01.txt"));
    assert!(is_log_file_name(b"output_log_.txt"));
}

#[test]
fn other_names_rejected() {
    assert!(!is_log_file_name(b"output_log_2024.log"));
    assert!(!is_log_file_name(b"notes.txt"));
    assert!(!is_log_file_name(b"output_log_"));
    assert!(!is_log_file_name(b""));
    assert!(!is_log_file_name(b"Output_log_x.txt"));
}

#[test]
fn latest_of_none_is_none() {
    assert_eq!(latest_index(&vec![]), None);
}

#[test]
fn latest_picks_greatest_time() {
    assert_eq!(latest_index(&vec![5]), Some(0));
    assert_eq!(latest_index(&vec![1, 9, 3]), Some(1));
    assert_eq!(latest_index(&vec![9, 1, 3]), Some(0));
}

#[test]
fn latest_tie_goes_to_last() {
    assert_eq!(latest_index(&vec![4, 4]), Some(1));
    assert_eq!(latest_index(&vec![7, 4, 7, 2]), Some(2));
}

fn items(text: &str) -> Vec<String> {
    split_items(text.as_bytes())
        .into_iter()
        .map(|v| String::from_utf8(v).unwrap())
        .collect()
}

#[test]
fn items_split_and_trimmed() {
    assert_eq!(items("a, b ,c"), vec!["a", "b", "c"]);
}

#[test]
fn empty_pieces_dropped() {
    assert_eq!(items("a,,  ,b,"), vec!["a", "b"]);
    assert_eq!(items(""), Vec::<String>::new());
    assert_eq!(items(" ,  "), Vec::<String>::new());
}

#[test]
fn inner_whitespace_kept() {
    assert_eq!(items("\tone two , three\n"), vec!["one two", "three"]);
}
