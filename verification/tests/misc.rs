use almond::feedbacks::CaptureFeedback;
use almond::kmsg::{contains_crash_pattern, note_chunk};

#[test]
fn kmsg_crash_patterns() {
    assert!(contains_crash_pattern(b"BUG: KASAN: slab-out-of-bounds in foo"));
    assert!(contains_crash_pattern(b"WARNING: CPU: 0 PID: 1 at bar"));
    assert!(contains_crash_pattern(b"Oops: 0002 [#1]"));
    assert!(!contains_crash_pattern(b"usb 1-1: new device"));
    assert!(!contains_crash_pattern(b"KASAN"));
    assert!(!contains_crash_pattern(b""));
}

#[test]
fn kmsg_note_chunk_is_sticky() {
    assert!(!note_chunk(false, b"hello"));
    assert!(note_chunk(false, b"general protection fault"));
    assert!(note_chunk(true, b"hello"));
}

#[test]
fn capture_feedback_follows_the_capture_flag() {
    let mut f = CaptureFeedback::new();
    assert_eq!(f.name(), "CaptureFeedback");
    assert!(!f.last_result());
    assert!(f.is_interesting(true));
    assert!(f.last_result());
    assert!(!f.is_interesting(false));
    assert!(!f.last_result());
}
