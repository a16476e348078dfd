//! Subprocess output and disk space.

use azalea::pipeline::disk::{ensure_disk_space, ReservedBytes};
use azalea::pipeline::errors::Error;
use azalea::pipeline::process::{
    clip_line, stderr_tail, subprocess_result, supervise, BoundedRead, JsonSubprocessError,
    ProcessAction, ProcessEvent, StderrTailBuffer, MAX_STDERR_LINE_BYTES,
};

fn raw_lines(text: &[u8]) -> Vec<Vec<u8>> {
    text.split_inclusive(|b| *b == b'\n').map(|l| l.to_vec()).collect()
}

#[test]
fn read_bounded_keeps_data_when_under_limit() {
    let mut result = BoundedRead::new();
    assert!(!result.feed(b"hello ", 32));
    assert!(!result.feed(b"world", 32));
    assert_eq!(result.data, b"hello world");
    assert!(!result.exceeded);
}

#[test]
fn read_bounded_truncates_and_notifies_on_overflow() {
    let mut result = BoundedRead::new();
    assert!(result.feed(&[b'x'; 96], 16));
    assert_eq!(result.data.len(), 16);
    assert!(result.exceeded);
    assert!(!result.feed(b"more", 16));
    assert_eq!(result.data.len(), 16);
}

#[test]
fn output_of_exactly_the_limit_is_whole() {
    let mut result = BoundedRead::new();
    assert!(!result.feed(b"abcd", 4));
    assert!(!result.exceeded);
    assert!(result.feed(b"e", 4));
    assert_eq!(result.data, b"abcd");
}

#[test]
fn read_stderr_tail_keeps_last_lines_with_empty_entries() {
    assert_eq!(stderr_tail(&raw_lines(b"first\n\nthird\n"), 2), "\nthird");
}

#[test]
fn read_stderr_tail_wraps_to_keep_only_latest_lines() {
    assert_eq!(stderr_tail(&raw_lines(b"one\ntwo\nthree\nfour\n"), 2), "three\nfour");
}

#[test]
fn read_stderr_tail_truncates_long_lines_before_joining() {
    let mut long_line = vec![b'x'; MAX_STDERR_LINE_BYTES + 32];
    long_line.push(b'\n');
    let tail = stderr_tail(&vec![long_line], 1);

    assert_eq!(tail.len(), MAX_STDERR_LINE_BYTES);
    assert!(tail.as_bytes().iter().all(|&byte| byte == b'x'));
}

#[test]
fn stderr_tail_edges() {
    assert_eq!(stderr_tail(&raw_lines(b"a\nb"), 0), "");
    assert_eq!(stderr_tail(&raw_lines(b""), 3), "");
    assert_eq!(stderr_tail(&raw_lines(b"a\nb"), 9), "a\nb");
    assert_eq!(stderr_tail(&raw_lines(b"\xff\n"), 1), "\u{fffd}");
    assert_eq!(clip_line(b"x\r\n".to_vec()), b"x\r");
}

#[test]
fn the_ring_hands_its_old_buffers_back() {
    let mut ring = StderrTailBuffer::new(2);
    assert!(ring.push(b"1".to_vec()).is_empty());
    assert!(ring.push(b"2".to_vec()).is_empty());
    assert_eq!(ring.push(b"3".to_vec()), b"1");
    assert_eq!(ring.into_text(), "2\n3");
    let mut none = StderrTailBuffer::new(0);
    assert!(none.push(b"1".to_vec()).is_empty());
    assert_eq!(none.into_text(), "");
}

#[test]
fn supervision_tells_the_endings_apart() {
    assert_eq!(supervise(ProcessEvent::Exited), ProcessAction::ReturnStatus);
    assert_eq!(supervise(ProcessEvent::DeadlinePassed), ProcessAction::KillThenTimeout);
    assert_eq!(supervise(ProcessEvent::LimitPassed), ProcessAction::KillThenNoStatus);
    assert_eq!(supervise(ProcessEvent::OutputClosed), ProcessAction::WaitForExit);
}

#[test]
fn cut_output_is_an_error() {
    let whole = || BoundedRead { data: b"{}".to_vec(), exceeded: false };
    let out = subprocess_result(Some((true, Some(0))), whole(), "tail".to_string())
        .expect("whole output");
    assert!(out.success);
    assert_eq!(out.exit_code, Some(0));
    assert_eq!(out.stdout, b"{}");
    assert_eq!(out.stderr_tail, "tail");

    let cut = BoundedRead { data: b"{".to_vec(), exceeded: true };
    let error = subprocess_result(Some((true, Some(0))), cut, "overflow".to_string())
        .expect_err("subprocess should fail once stdout exceeds the limit");
    assert!(matches!(
        error,
        JsonSubprocessError::OutputLimit { stderr_tail } if stderr_tail.contains("overflow")
    ));
    assert!(subprocess_result(None, whole(), String::new()).is_err());
}

#[test]
fn collective_reservations_fail_when_prior_download_already_reserved_budget() {
    let available: u64 = 10 * 1024 * 1024;
    let mut reserved = ReservedBytes::new();
    let min_free_bytes = available.saturating_sub(1);

    let first = reserved
        .reserve(min_free_bytes, 1, Some(available))
        .expect("first reservation should consume the remaining budget");

    assert_eq!(reserved.total, 1);

    let err = reserved
        .reserve(min_free_bytes, 1, Some(available))
        .expect_err("second reservation should exceed the collective budget");

    assert!(matches!(err, Error::DiskSpace { .. }));

    reserved.release(first);
    assert_eq!(reserved.total, 0);
}

#[test]
fn disk_space_is_compared_exactly() {
    const MIB: u64 = 1024 * 1024;
    assert!(ensure_disk_space(0, Some(0)).is_ok());
    assert!(ensure_disk_space(5 * MIB, Some(5 * MIB)).is_ok());
    assert!(ensure_disk_space(5 * MIB, None).is_ok());
    assert!(matches!(
        ensure_disk_space(5 * MIB, Some(5 * MIB - 1)),
        Err(Error::DiskSpace { available_mb: 4, required_mb: 5 })
    ));
    let mut reserved = ReservedBytes::new();
    assert!(reserved.reserve(0, 0, Some(0)).is_ok());
    assert!(reserved.reserve(u64::MAX, 1, None).is_ok());
    assert!(matches!(
        reserved.reserve(0, u64::MAX, None),
        Err(Error::DiskSpace { available_mb: 0, required_mb: 17_592_186_044_415 })
    ));
    assert_eq!(reserved.total, 1);
}
