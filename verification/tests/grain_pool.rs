use shimmer_granular::grain_pool::{first_inactive, SpawnCycle, MAX_GRAINS};

#[test]
fn first_free_slot() {
    assert_eq!(first_inactive(&[false; MAX_GRAINS]), Some(0));
    assert_eq!(first_inactive(&[true, true, false, false]), Some(2));
    assert_eq!(first_inactive(&[true; MAX_GRAINS]), None);
    assert_eq!(first_inactive(&[]), None);
    let mut flags = [true; MAX_GRAINS];
    flags[63] = false;
    assert_eq!(first_inactive(&flags), Some(63));
}

#[test]
fn slots_cycle_through_overlap() {
    let mut c = SpawnCycle::new();
    let got: Vec<u64> = (0..7).map(|_| c.next_slot(3)).collect();
    assert_eq!(got, vec![0, 1, 2, 0, 1, 2, 0]);
    c.reset();
    assert_eq!(c.next_slot(3), 0);
    assert_eq!(c.next_slot(1), 0);
}

#[test]
fn huge_overlap_counts_up() {
    let mut c = SpawnCycle::new();
    for k in 0..10u64 {
        assert_eq!(c.next_slot(u64::MAX), k);
    }
}
