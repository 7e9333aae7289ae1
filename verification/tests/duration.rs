use tai_stuff::Duration;

#[test]
fn new_carries_whole_seconds_of_the_nanoseconds() {
    let span = Duration::new(1, 2_000_000_000);
    assert_eq!(span.whole_seconds(), 3);
    assert_eq!(span.subsec_nanoseconds(), 0);
    let span = Duration::new(1, -1_500_000_000);
    assert_eq!(span.whole_seconds(), 0);
    assert_eq!(span.subsec_nanoseconds(), -500_000_000);
}

#[test]
fn new_gives_both_parts_the_same_sign() {
    let span = Duration::new(1, -1);
    assert_eq!((span.whole_seconds(), span.subsec_nanoseconds()), (0, 999_999_999));
    let span = Duration::new(-1, 1);
    assert_eq!((span.whole_seconds(), span.subsec_nanoseconds()), (0, -999_999_999));
    let span = Duration::new(-3, -7);
    assert_eq!((span.whole_seconds(), span.subsec_nanoseconds()), (-3, -7));
    assert_eq!(Duration::new(0, -7), Duration::new(-1, 999_999_993));
}

#[test]
fn seconds_have_no_fraction() {
    let span = Duration::seconds(-37);
    assert_eq!((span.whole_seconds(), span.subsec_nanoseconds()), (-37, 0));
    assert_eq!(Duration::seconds(5), Duration::new(5, 0));
}

#[test]
fn checked_add_normalizes_the_sum() {
    let sum = Duration::new(1, 600_000_000).checked_add(Duration::new(2, 700_000_000));
    assert_eq!(sum, Some(Duration::new(4, 300_000_000)));
    let sum = Duration::new(-1, -600_000_000).checked_add(Duration::new(2, 100_000_000));
    assert_eq!(sum, Some(Duration::new(0, 500_000_000)));
    let sum = Duration::new(5, 0).checked_add(Duration::new(-5, 0));
    assert_eq!(sum, Some(Duration::new(0, 0)));
}

#[test]
fn checked_add_gives_up_on_overflow() {
    let largest = Duration::new(i64::MAX, 999_999_999);
    assert_eq!(largest.checked_add(Duration::new(0, 1)), None);
    assert_eq!(largest.checked_add(Duration::new(0, 0)), Some(largest));
    assert_eq!(Duration::new(i64::MAX, 0).checked_add(Duration::new(1, 0)), None);
    // The whole seconds alone overflow, though the sum would fit.
    assert_eq!(Duration::new(i64::MAX, 0).checked_add(Duration::new(1, 0)), None);
    assert_eq!(Duration::new(i64::MIN, 0).checked_add(Duration::new(-1, 0)), None);
}

#[test]
fn checked_sub_normalizes_the_difference() {
    let difference = Duration::new(1, 100_000_000).checked_sub(Duration::new(0, 200_000_000));
    assert_eq!(difference, Some(Duration::new(0, 900_000_000)));
    let difference = Duration::new(0, 100_000_000).checked_sub(Duration::new(0, 200_000_000));
    assert_eq!(difference, Some(Duration::new(0, -100_000_000)));
    let difference = Duration::new(10, 0).checked_sub(Duration::new(37, 0));
    assert_eq!(difference, Some(Duration::new(-27, 0)));
}

#[test]
fn checked_sub_gives_up_on_overflow() {
    let smallest = Duration::new(i64::MIN, -999_999_999);
    assert_eq!(smallest.checked_sub(Duration::new(0, 1)), None);
    assert_eq!(smallest.checked_sub(Duration::new(0, 0)), Some(smallest));
    assert_eq!(Duration::new(i64::MAX, 0).checked_sub(Duration::new(-1, 0)), None);
}
