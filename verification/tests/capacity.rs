use shimmer_granular::capacity::next_power_of_two;

#[test]
fn small_values() {
    assert_eq!(next_power_of_two(0), 1);
    assert_eq!(next_power_of_two(1), 1);
    assert_eq!(next_power_of_two(2), 2);
    assert_eq!(next_power_of_two(3), 4);
    assert_eq!(next_power_of_two(5), 8);
    assert_eq!(next_power_of_two(1024), 1024);
    assert_eq!(next_power_of_two(1025), 2048);
}

#[test]
fn plugin_buffer_size() {
    // Two seconds at 192 kHz.
    assert_eq!(next_power_of_two(384_000), 524_288);
}

#[test]
fn largest_admitted_value() {
    let top = usize::MAX / 2 + 1;
    assert_eq!(next_power_of_two(top), top);
    assert_eq!(next_power_of_two(top - 1), top);
}

#[test]
fn agrees_with_std() {
    for n in 0usize..5000 {
        assert_eq!(next_power_of_two(n), n.next_power_of_two());
    }
}
