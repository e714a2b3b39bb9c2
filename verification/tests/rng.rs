use shimmer_granular::rng::Rng;

#[test]
fn zero_seed_is_replaced() {
    let mut a = Rng::new(0);
    let mut b = Rng::new(0x9E37_79B9);
    for _ in 0..16 {
        assert_eq!(a.next_u32(), b.next_u32());
    }
}

#[test]
fn xorshift32_known_values() {
    // 1 -> 1 ^ (1 << 13) = 8193 -> 8193 ^ (8193 >> 17) = 8193
    //   -> 8193 ^ (8193 << 5) = 270369
    let mut r = Rng::new(1);
    assert_eq!(r.next_u32(), 270369);
    let x: u32 = 270369;
    let a = x ^ (x << 13);
    let b = a ^ (a >> 17);
    let c = b ^ (b << 5);
    assert_eq!(r.next_u32(), c);
}

#[test]
fn same_seed_same_sequence() {
    let mut a = Rng::new(0xC0FFEE);
    let mut b = Rng::new(0xC0FFEE);
    for _ in 0..1000 {
        assert_eq!(a.next_u32(), b.next_u32());
    }
}

#[test]
fn different_seeds_differ() {
    let mut a = Rng::new(1);
    let mut b = Rng::new(2);
    assert_ne!(a.next_u32(), b.next_u32());
}

#[test]
fn stream_never_zero() {
    for seed in [0u32, 1, 2, 0xFFFF_FFFF, 0x8000_0000, 0xC0FFEE] {
        let mut r = Rng::new(seed);
        for _ in 0..10_000 {
            assert_ne!(r.next_u32(), 0);
        }
    }
}

#[test]
fn next_u24_is_top_bits_of_next_u32() {
    let mut a = Rng::new(12345);
    let mut b = Rng::new(12345);
    for _ in 0..1000 {
        let full = a.next_u32();
        let top = b.next_u24();
        assert_eq!(top, full >> 8);
        assert!(top < (1 << 24));
        // As a fraction of 2^24 it lies in [0, 1).
        let f = top as f32 / (1u32 << 24) as f32;
        assert!((0.0..1.0).contains(&f));
    }
}

#[test]
fn distinct_states_step_to_distinct_states() {
    let mut seen = std::collections::HashSet::new();
    for seed in 1u32..200_000 {
        assert!(seen.insert(Rng::new(seed).next_u32()));
    }
}
