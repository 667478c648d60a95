use hermes::transport::elapsed_seconds;

#[test]
fn a_call_that_took_no_time_counts_for_nothing() {
    assert_eq!(elapsed_seconds(0, 0), 0);
}

#[test]
fn a_second_that_was_begun_counts_in_full() {
    assert_eq!(elapsed_seconds(0, 1), 1);
    assert_eq!(elapsed_seconds(0, 999_999_999), 1);
    assert_eq!(elapsed_seconds(4, 500_000_000), 5);
}

#[test]
fn whole_seconds_count_as_they_are() {
    assert_eq!(elapsed_seconds(1, 0), 1);
    assert_eq!(elapsed_seconds(3600, 0), 3600);
}

#[test]
fn the_longest_time_that_can_be_told() {
    assert_eq!(elapsed_seconds(4_294_967_294, 0), 4_294_967_294);
    assert_eq!(elapsed_seconds(4_294_967_294, 1), u32::MAX);
    assert_eq!(elapsed_seconds(4_294_967_295, 0), u32::MAX);
}

#[test]
fn a_time_too_long_to_tell_counts_as_the_longest() {
    assert_eq!(elapsed_seconds(4_294_967_295, 1), u32::MAX);
    assert_eq!(elapsed_seconds(4_294_967_296, 0), u32::MAX);
    assert_eq!(elapsed_seconds(u64::MAX, 999_999_999), u32::MAX);
}
