use example_scheme::scheme::{
    ExampleScheme, SchemeError, MARKER_HASH, MARKER_NEWLINE, NONBLOCK_FLAG,
};

fn markers(n: usize) -> Vec<u8> {
    let mut v = Vec::new();
    for _ in 0..n {
        v.push(MARKER_HASH);
        v.push(MARKER_NEWLINE);
    }
    v
}

#[test]
fn nonblock_flag_matches_syscall() {
    assert_eq!(NONBLOCK_FLAG, syscall::flag::O_NONBLOCK);
    assert_eq!(MARKER_HASH, b'#');
    assert_eq!(MARKER_NEWLINE, b'\n');
}

#[test]
fn open_assigns_increasing_ids() {
    let mut s = ExampleScheme::new();
    assert_eq!(s.open(b"any", 0), Ok(Some(1)));
    assert_eq!(s.open(b"other/path", 0), Ok(Some(2)));
    assert_eq!(s.close(1), Ok(Some(0)));
    // a closed id is never reused
    assert_eq!(s.open(b"", 0), Ok(Some(3)));
}

#[test]
fn read_fresh_nonblocking_would_blocks() {
    let mut s = ExampleScheme::new();
    assert_eq!(s.open(b"x", NONBLOCK_FLAG), Ok(Some(1)));
    let mut buf = vec![0u8; 8];
    assert_eq!(s.read(1, &mut buf), Err(SchemeError::WouldBlock));
    assert_eq!(buf, vec![0u8; 8]);
}

#[test]
fn read_fresh_blocking_defers() {
    let mut s = ExampleScheme::new();
    assert_eq!(s.open(b"x", 0), Ok(Some(1)));
    let mut buf = vec![0u8; 8];
    assert_eq!(s.read(1, &mut buf), Ok(None));
    assert_eq!(buf, vec![0u8; 8]);
}

#[test]
fn read_drains_exactly_three_markers() {
    let mut s = ExampleScheme::new();
    assert_eq!(s.open(b"device", 0), Ok(Some(1)));
    for _ in 0..3 {
        assert!(!s.irq());
    }
    let mut buf = vec![0u8; 10];
    assert_eq!(s.read(1, &mut buf), Ok(Some(6)));
    assert_eq!(&buf[..6], markers(3).as_slice());
    assert_eq!(&buf[6..], &[0u8; 4]);
    // idempotent drain: nothing new, so the second read defers
    assert_eq!(s.read(1, &mut buf), Ok(None));
}

#[test]
fn second_read_would_block_in_nonblocking_mode() {
    let mut s = ExampleScheme::new();
    assert_eq!(s.open(b"device", NONBLOCK_FLAG), Ok(Some(1)));
    assert!(!s.irq());
    let mut buf = vec![0u8; 4];
    assert_eq!(s.read(1, &mut buf), Ok(Some(2)));
    assert_eq!(&buf[..2], markers(1).as_slice());
    assert_eq!(s.read(1, &mut buf), Err(SchemeError::WouldBlock));
}

#[test]
fn small_buffer_keeps_remainder_for_next_read() {
    let mut s = ExampleScheme::new();
    assert_eq!(s.open(b"x", 0), Ok(Some(1)));
    assert!(!s.irq());
    assert!(!s.irq());
    // room for one whole marker only; the odd byte is never half-written
    let mut buf = vec![9u8; 3];
    assert_eq!(s.read(1, &mut buf), Ok(Some(2)));
    assert_eq!(buf, vec![MARKER_HASH, MARKER_NEWLINE, 9u8]);
    // the marker that did not fit is still pending
    let mut big = vec![0u8; 10];
    assert_eq!(s.read(1, &mut big), Ok(Some(2)));
    assert_eq!(&big[..2], markers(1).as_slice());
    assert_eq!(s.read(1, &mut big), Ok(None));
}

#[test]
fn buffer_too_small_for_any_marker_blocks() {
    let mut s = ExampleScheme::new();
    assert_eq!(s.open(b"a", 0), Ok(Some(1)));
    assert_eq!(s.open(b"b", NONBLOCK_FLAG), Ok(Some(2)));
    assert!(!s.irq());
    let mut empty: Vec<u8> = Vec::new();
    let mut one = vec![0u8; 1];
    assert_eq!(s.read(1, &mut empty), Ok(None));
    assert_eq!(s.read(1, &mut one), Ok(None));
    assert_eq!(s.read(2, &mut empty), Err(SchemeError::WouldBlock));
    assert_eq!(s.read(2, &mut one), Err(SchemeError::WouldBlock));
    assert_eq!(one, vec![0u8; 1]);
}

#[test]
fn handle_opened_after_interrupts_sees_none() {
    let mut s = ExampleScheme::new();
    assert!(!s.irq());
    assert!(!s.irq());
    // consumption starts at the current count: old interrupts are not replayed
    assert_eq!(s.open(b"late", 0), Ok(Some(1)));
    let mut buf = vec![0u8; 8];
    assert_eq!(s.read(1, &mut buf), Ok(None));
}

#[test]
fn two_handles_drain_independently() {
    let mut s = ExampleScheme::new();
    assert_eq!(s.open(b"a", 0), Ok(Some(1)));
    assert_eq!(s.open(b"b", 0), Ok(Some(2)));
    assert!(!s.irq());
    assert!(!s.irq());
    let mut buf = vec![0u8; 10];
    assert_eq!(s.read(1, &mut buf), Ok(Some(4)));
    assert_eq!(s.read(2, &mut buf), Ok(Some(4)));
    assert_eq!(s.read(1, &mut buf), Ok(None));
}

#[test]
fn fsync_succeeds_on_open_handle_only() {
    let mut s = ExampleScheme::new();
    assert_eq!(s.open(b"x", 0), Ok(Some(1)));
    assert_eq!(s.fsync(1), Ok(Some(0)));
    // fsync has nothing to flush, so it succeeds again unchanged
    assert_eq!(s.fsync(1), Ok(Some(0)));
    assert_eq!(s.fsync(7), Err(SchemeError::BadHandle));
}

#[test]
fn close_then_any_operation_is_bad_handle() {
    let mut s = ExampleScheme::new();
    assert_eq!(s.open(b"x", 0), Ok(Some(1)));
    assert_eq!(s.close(1), Ok(Some(0)));
    let mut buf = vec![0u8; 4];
    assert_eq!(s.read(1, &mut buf), Err(SchemeError::BadHandle));
    assert_eq!(s.fsync(1), Err(SchemeError::BadHandle));
    assert_eq!(s.close(1), Err(SchemeError::BadHandle));
}

#[test]
fn close_on_unknown_id_is_bad_handle() {
    let mut s = ExampleScheme::new();
    assert_eq!(s.close(42), Err(SchemeError::BadHandle));
    let mut buf = vec![0u8; 4];
    assert_eq!(s.read(42, &mut buf), Err(SchemeError::BadHandle));
}

#[test]
fn irq_never_claims_the_interrupt() {
    let mut s = ExampleScheme::new();
    for _ in 0..5 {
        assert!(!s.irq());
    }
}
