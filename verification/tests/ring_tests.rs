use led_engine::ring::wrap;

#[test]
fn wrap_zero_offset_is_identity() {
    for i in 0..8 {
        assert_eq!(wrap(i, 0, 8), i);
    }
    assert_eq!(wrap(6, 0, 7), 6);
}

#[test]
fn wrap_forward() {
    assert_eq!(wrap(3, 2, 8), 5);
    assert_eq!(wrap(7, 1, 8), 0);
    assert_eq!(wrap(5, 23, 8), 4);
    assert_eq!(wrap(0, 16, 8), 0);
}

#[test]
fn wrap_backward() {
    assert_eq!(wrap(0, -1, 8), 7);
    assert_eq!(wrap(3, -3, 8), 0);
    assert_eq!(wrap(0, -17, 8), 7);
    assert_eq!(wrap(2, -10, 8), 0);
}

#[test]
fn wrap_extreme_offsets_stay_on_ring() {
    // -2^31 leaves remainder 5 modulo 7
    assert_eq!(wrap(0, i32::MIN, 7), 5);
    assert_eq!(wrap(6, i32::MAX, 7), (6 + (i32::MAX as u64 % 7)) as usize % 7);
    for off in [-1_000_000, -31, -1, 0, 1, 31, 1_000_000] {
        let r = wrap(4, off, 11);
        assert!(r < 11);
    }
}

#[test]
fn wrap_length_one_always_zero() {
    assert_eq!(wrap(0, 12345, 1), 0);
    assert_eq!(wrap(0, -12345, 1), 0);
}
