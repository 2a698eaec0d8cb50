use burst::backoff::{first_delay, next_delay, FIRST_DELAY};

#[test]
fn the_first_delay_is_one_second() {
    assert_eq!(FIRST_DELAY, 1);
    assert_eq!(first_delay(30), 1);
    assert_eq!(first_delay(1), 1);
    assert_eq!(first_delay(0), 0);
}

#[test]
fn delays_double_up_to_the_cap() {
    let mut delay = first_delay(30);
    let mut seen = vec![delay];
    for _ in 0..6 {
        delay = next_delay(delay, 30);
        seen.push(delay);
    }
    assert_eq!(seen, vec![1, 2, 4, 8, 16, 30, 30]);
}

#[test]
fn doubling_does_not_overflow() {
    assert_eq!(next_delay(u64::MAX, u64::MAX), u64::MAX);
    assert_eq!(next_delay(u64::MAX / 2, u64::MAX), u64::MAX - 1);
    assert_eq!(next_delay(u64::MAX / 2 + 1, u64::MAX), u64::MAX);
    assert_eq!(next_delay(0, 10), 0);
    assert_eq!(next_delay(5, 10), 10);
    assert_eq!(next_delay(6, 10), 10);
    assert_eq!(next_delay(100, 10), 10);
}
