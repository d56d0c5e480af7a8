//! The rotating log.

use std::collections::BTreeMap;

use signage_desktop::logs::{
    append, current, previous, rotate_if_needed, tail, tail_of, tail_window, Level,
    DEFAULT_TAIL_BYTES, MAX_FILE_BYTES,
};

#[test]
fn tail_cuts_at_a_line_boundary() {
    let text = "first line\nsecond line\nthird line\n";
    let max_bytes = 15;
    assert_eq!(tail_of(text, "", max_bytes), ("third line\n".to_string(), true));
    assert_eq!(
        tail("first line\nsecond".as_bytes(), " line\nthird line\n".as_bytes(), max_bytes),
        ("third line\n".to_string(), true)
    );
}

#[test]
fn a_short_log_is_not_cut() {
    assert_eq!(tail(b"one\n", b"two\n", 8), ("one\ntwo\n".into(), false));
    assert_eq!(tail(b"one\n", b"two\n", 7), ("two\n".into(), true));
    assert_eq!(tail(b"", b"", 0), (String::new(), false));
    assert_eq!(DEFAULT_TAIL_BYTES, 65_536);
}

#[test]
fn a_tail_never_opens_mid_line() {
    assert_eq!(tail(b"abc", b"def", 2), (String::new(), true));
    assert_eq!(tail(b"abc\n", b"", 1), (String::new(), true));
    assert_eq!(tail(b"abc\n", b"def", 3), (String::new(), true));
    assert_eq!(tail(b"abc\n", b"def", 4), ("def".into(), true));
    // The budget ends inside a character.
    assert_eq!(tail("ab€".as_bytes(), b"", 2), (String::new(), true));
    assert_eq!(tail("ab€\nx".as_bytes(), b"", 4), ("x".into(), true));
}

#[test]
fn what_is_not_text_is_replaced() {
    assert_eq!(
        tail(b"a\xffb\n", "vídeo\n".as_bytes(), 100),
        ("a\u{fffd}b\nvídeo\n".into(), false)
    );
}

#[test]
fn rotation_moves_current_to_previous() {
    let mut files = BTreeMap::new();
    files.insert(current(), vec![b'x'; MAX_FILE_BYTES as usize + 1]);
    files.insert(previous(), b"older".to_vec());

    if rotate_if_needed(files.get(&current()).map(|file| file.len() as u64)) {
        files.remove(&previous());
        let full = files.remove(&current()).unwrap();
        files.insert(previous(), full);
    }

    assert!(!files.contains_key("signage.log"), "current should have been renamed");
    assert_eq!(
        files.get("signage.1.log").map(|file| file.len() as u64),
        Some(MAX_FILE_BYTES + 1),
        "previous should now hold the old file"
    );
}

#[test]
fn a_file_is_rotated_once_it_is_full() {
    assert!(rotate_if_needed(Some(MAX_FILE_BYTES)));
    assert!(!rotate_if_needed(Some(MAX_FILE_BYTES - 1)));
    assert!(!rotate_if_needed(None));
    assert_eq!(MAX_FILE_BYTES, 2_500_000);
}

#[test]
fn only_the_end_of_a_file_is_read() {
    assert_eq!(tail_window(10), 10);
    assert_eq!(tail_window(MAX_FILE_BYTES), MAX_FILE_BYTES);
    assert_eq!(tail_window(u64::MAX), MAX_FILE_BYTES);
}

#[test]
fn a_line_is_stamp_level_and_message() {
    assert_eq!(
        signage_desktop::logs::write("08-01 12:00:00.123", Level::Warn, "hot"),
        "08-01 12:00:00.123 W hot"
    );
    assert_eq!(signage_desktop::logs::write("t", Level::Error, ""), "t E ");
    assert_eq!(signage_desktop::logs::write("t", Level::Info, "x"), "t I x");
    assert_eq!(signage_desktop::logs::write("t", Level::Debug, "x"), "t D x");
    assert_eq!(append("t I x"), "t I x\n");
}

#[test]
fn the_log_stays_within_its_two_files() {
    let (mut older, mut newer) = (None::<u64>, None::<u64>);
    let line = "x".repeat(9_999);
    let mut rotations = 0;
    for _ in 0..1_000 {
        if rotate_if_needed(newer) {
            older = newer.take();
            rotations += 1;
        }
        newer = Some(newer.unwrap_or(0) + append(&line).len() as u64);
        assert!(newer.unwrap() < MAX_FILE_BYTES + 10_000);
    }
    assert_eq!(rotations, 3);
    assert_eq!(older, Some(MAX_FILE_BYTES));
}
