use shimmer_granular::division::{division_index, division_label, division_ticks, TICKS_PER_BEAT};

#[test]
fn ticks_table() {
    let expected = [192u32, 288, 384, 96, 48, 32, 24, 16, 12, 8, 6, 4, 3, 2];
    for (i, t) in expected.iter().enumerate() {
        assert_eq!(division_ticks(i as i32), *t);
    }
}

#[test]
fn out_of_range_values_are_clamped() {
    assert_eq!(division_index(-3), 0);
    assert_eq!(division_index(99), 13);
    assert_eq!(division_ticks(-1), 192);
    assert_eq!(division_ticks(i32::MIN), 192);
    assert_eq!(division_ticks(14), 2);
    assert_eq!(division_ticks(i32::MAX), 2);
}

#[test]
fn ticks_give_the_beat_counts() {
    let beats = [
        8.0f64,
        12.0,
        16.0,
        4.0,
        2.0,
        4.0 / 3.0,
        1.0,
        2.0 / 3.0,
        0.5,
        1.0 / 3.0,
        0.25,
        1.0 / 6.0,
        0.125,
        1.0 / 12.0,
    ];
    for (i, b) in beats.iter().enumerate() {
        let t = division_ticks(i as i32) as f64 / TICKS_PER_BEAT as f64;
        assert_eq!(t, *b);
    }
}

#[test]
fn quarter_note_at_120_bpm_is_500_ms() {
    let beats = division_ticks(6) as f64 / TICKS_PER_BEAT as f64;
    assert_eq!((beats * 60_000.0 / 120.0) as f32, 500.0);
}

#[test]
fn triplets_are_two_thirds() {
    for i in [5, 7, 9, 11, 13] {
        assert_eq!(3 * division_ticks(i), 2 * division_ticks(i - 1));
    }
    for i in [6, 8, 10, 12] {
        assert_eq!(2 * division_ticks(i), division_ticks(i - 2));
    }
}

#[test]
fn labels_name_the_note_lengths() {
    // n/1 divisions last n whole notes of four beats.
    assert_eq!(division_label(0), "2/1");
    assert_eq!(division_ticks(0), 2 * 4 * TICKS_PER_BEAT);
    assert_eq!(division_label(2), "4/1");
    assert_eq!(division_ticks(2), 4 * 4 * TICKS_PER_BEAT);
    assert_eq!(division_label(6), "1/4");
    assert_eq!(division_ticks(6), TICKS_PER_BEAT);
}

#[test]
fn labels() {
    let expected = [
        "2/1", "3/1", "4/1", "1/1", "1/2", "1/2T", "1/4", "1/4T", "1/8", "1/8T", "1/16", "1/16T",
        "1/32", "1/32T",
    ];
    for (i, l) in expected.iter().enumerate() {
        assert_eq!(division_label(i as i32), *l);
    }
    assert_eq!(division_label(-1), "1/32T");
    assert_eq!(division_label(100), "1/32T");
}
