use shimmer_granular::ring_buffer::RingBuffer;

#[test]
fn capacity_is_power_of_two_at_least_two() {
    let r = RingBuffer::with_min_capacity(0, 0.0f32);
    // Fill it and watch the head come back around.
    let mut r2 = RingBuffer::with_min_capacity(0, 0.0f32);
    assert_eq!(r.write_pos(), 0);
    r2.write(1.0);
    assert_eq!(r2.write_pos(), 1);
    r2.write(2.0);
    assert_eq!(r2.write_pos(), 0);

    let mut big = RingBuffer::with_min_capacity(384_000, 0.0f32);
    for _ in 0..524_288 {
        big.write(0.5);
    }
    assert_eq!(big.write_pos(), 0);
}

#[test]
fn newest_sample_is_at_head() {
    let mut r = RingBuffer::with_min_capacity(8, 0i32);
    r.write(5);
    let p = r.write_pos() as isize;
    assert_eq!(p, 1);
    assert_eq!(r.cubic_taps(p).1, 5);
    r.write(6);
    let p = r.write_pos() as isize;
    assert_eq!(r.cubic_taps(p), (5, 6, 0, 0));
}

#[test]
fn negative_positions_wrap() {
    let mut r = RingBuffer::with_min_capacity(4, 0i32);
    for x in 10..14 {
        r.write(x);
    }
    // Slots: 1 <- 10, 2 <- 11, 3 <- 12, 0 <- 13.
    assert_eq!(r.write_pos(), 0);
    assert_eq!(r.cubic_taps(0), (12, 13, 10, 11));
    assert_eq!(r.cubic_taps(-1), (11, 12, 13, 10));
    assert_eq!(r.cubic_taps(-4), r.cubic_taps(0));
    assert_eq!(r.cubic_taps(-1001), r.cubic_taps(-1));
    assert_eq!(r.cubic_taps(1001), r.cubic_taps(1));
}

#[test]
fn history_shifts_by_one_per_write() {
    let mut r = RingBuffer::with_min_capacity(16, 0i32);
    for x in 1..=30 {
        r.write(x);
    }
    let p = r.write_pos() as isize;
    for d in 0..16isize {
        assert_eq!(r.cubic_taps(p - d).1, 30 - d as i32);
    }
}

#[test]
fn ring_clear_restores_silence() {
    let mut r = RingBuffer::with_min_capacity(4, 0i32);
    for x in 1..=3 {
        r.write(x);
    }
    r.clear();
    assert_eq!(r.write_pos(), 0);
    for i in -8..8 {
        assert_eq!(r.cubic_taps(i), (0, 0, 0, 0));
    }
}
