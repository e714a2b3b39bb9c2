use shimmer_granular::delay_line::DelayLine;

#[test]
fn capacity_is_power_of_two_at_least_four() {
    assert_eq!(DelayLine::with_min_capacity(0, 0.0f32).capacity(), 4);
    assert_eq!(DelayLine::with_min_capacity(3, 0.0f32).capacity(), 4);
    assert_eq!(DelayLine::with_min_capacity(5, 0.0f32).capacity(), 8);
    assert_eq!(DelayLine::with_min_capacity(100, 0.0f32).capacity(), 128);
    assert_eq!(DelayLine::with_min_capacity(128, 0.0f32).capacity(), 128);
}

#[test]
fn starts_silent() {
    let d = DelayLine::with_min_capacity(8, 0.0f32);
    for k in 0..20 {
        assert_eq!(d.taps(k), (0.0, 0.0, 0.0, 0.0));
    }
}

#[test]
fn read_after_write() {
    let mut d = DelayLine::with_min_capacity(16, 0i32);
    d.write(7);
    assert_eq!(d.taps(1).1, 7);
    d.write(8);
    assert_eq!(d.taps(1).1, 8);
    assert_eq!(d.taps(2).1, 7);
}

#[test]
fn sample_written_k_writes_ago() {
    let mut d = DelayLine::with_min_capacity(16, 0i32);
    for x in 1..=40 {
        d.write(x);
    }
    // The last write was 40; the one `k` writes ago is 41 - k.
    for k in 1..=16usize {
        assert_eq!(d.taps(k).1, 41 - k as i32);
    }
    // Around delay 5: delays 4, 5, 6, 7.
    assert_eq!(d.taps(5), (37, 36, 35, 34));
}

#[test]
fn delays_wrap_modulo_capacity() {
    let mut d = DelayLine::with_min_capacity(4, 0i32);
    for x in 1..=4 {
        d.write(x);
    }
    // Capacity 4: a delay of 5 is a delay of 1.
    assert_eq!(d.taps(5).1, d.taps(1).1);
    assert_eq!(d.taps(1).1, 4);
    // Around delay 1: delay 0 wraps to the oldest sample (delay 4).
    assert_eq!(d.taps(1), (1, 4, 3, 2));
}

#[test]
fn line_clear_restores_silence() {
    let mut d = DelayLine::with_min_capacity(8, -1i32);
    for x in 0..5 {
        d.write(x);
    }
    d.clear();
    assert_eq!(d.capacity(), 8);
    for k in 0..10 {
        assert_eq!(d.taps(k), (-1, -1, -1, -1));
    }
    d.write(9);
    assert_eq!(d.taps(1).1, 9);
}

#[test]
fn fractional_delay_lies_between_its_whole_neighbours() {
    // Catmull-Rom over the four taps, as the plugin reads a fractional delay.
    let mut d = DelayLine::with_min_capacity(16, 0.0f32);
    for x in 1..=10 {
        d.write(x as f32);
    }
    let delay = 2.5f32;
    let int_part = delay as usize;
    let frac = delay - int_part as f32;
    let (s0, s1, s2, s3) = d.taps(int_part);
    let a = -0.5 * s0 + 1.5 * s1 - 1.5 * s2 + 0.5 * s3;
    let b = s0 - 2.5 * s1 + 2.0 * s2 - 0.5 * s3;
    let c = -0.5 * s0 + 0.5 * s2;
    let y = a * frac * frac * frac + b * frac * frac + c * frac + s1;
    // Delay 2 holds 9 and delay 3 holds 8: on a ramp the read is exact.
    assert_eq!(y, 8.5);
}
