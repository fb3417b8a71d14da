use polymarket_ws::backoff::{BackoffPolicy, BackoffState};

fn doubling() -> BackoffPolicy {
    BackoffPolicy {
        initial_delay_ms: 1_000,
        max_delay_ms: 30_000,
        multiplier_num: 2,
        multiplier_den: 1,
        max_attempts: None,
    }
}

#[test]
fn doubling_delays_grow_to_the_cap() {
    let policy = doubling();
    let mut state = BackoffState::initial(&policy);
    assert_eq!(state, BackoffState { delay_ms: 1_000, attempts: 0 });
    let mut seen = Vec::new();
    for _ in 0..7 {
        state = state.failed(&policy);
        seen.push(state.delay_ms);
    }
    assert_eq!(seen, vec![2_000, 4_000, 8_000, 16_000, 30_000, 30_000, 30_000]);
    assert_eq!(state.attempts, 7);
}

#[test]
fn the_delay_after_k_failures_is_the_capped_power() {
    let policy = BackoffPolicy {
        initial_delay_ms: 3,
        max_delay_ms: 1_000_000,
        multiplier_num: 3,
        multiplier_den: 1,
        max_attempts: None,
    };
    let mut state = BackoffState::initial(&policy);
    for k in 1..=20u32 {
        state = state.failed(&policy);
        let exact = 3u64 * 3u64.pow(k);
        assert_eq!(state.delay_ms, exact.min(1_000_000));
        assert_eq!(state.attempts, k as u64);
    }
}

#[test]
fn a_fractional_factor_is_exact_on_multiples_of_its_denominator() {
    let policy = BackoffPolicy {
        initial_delay_ms: 1_600,
        max_delay_ms: 10_000,
        multiplier_num: 3,
        multiplier_den: 2,
        max_attempts: None,
    };
    assert_eq!(policy.next_delay(1_600), 2_400);
    assert_eq!(policy.next_delay(2_400), 3_600);
    assert_eq!(policy.next_delay(3_600), 5_400);
    assert_eq!(policy.next_delay(5_400), 8_100);
    assert_eq!(policy.next_delay(8_100), 10_000);
}

#[test]
fn a_product_that_is_not_whole_is_rounded_up() {
    let policy = BackoffPolicy {
        initial_delay_ms: 1,
        max_delay_ms: 100,
        multiplier_num: 3,
        multiplier_den: 2,
        max_attempts: None,
    };
    assert_eq!(policy.next_delay(1), 2);
    assert_eq!(policy.next_delay(2), 3);
    assert_eq!(policy.next_delay(3), 5);
    assert_eq!(policy.next_delay(5), 8);
    assert_eq!(policy.next_delay(0), 0);
}

#[test]
fn a_delay_reaches_the_cap_when_the_product_does() {
    let policy = BackoffPolicy {
        initial_delay_ms: 1,
        max_delay_ms: 2,
        multiplier_num: 3,
        multiplier_den: 2,
        max_attempts: None,
    };
    let first = BackoffState::initial(&policy).failed(&policy);
    assert_eq!(first.delay_ms, 2);
    let second = first.failed(&policy);
    assert_eq!(second.delay_ms, 2);

    let policy = BackoffPolicy {
        initial_delay_ms: 2,
        max_delay_ms: 3,
        multiplier_num: 3,
        multiplier_den: 2,
        max_attempts: None,
    };
    let first = BackoffState::initial(&policy).failed(&policy);
    assert_eq!(first.delay_ms, 3);
    assert_eq!(first.failed(&policy).delay_ms, 3);
}

#[test]
fn a_factor_just_above_one_still_grows_to_the_cap() {
    let policy = BackoffPolicy {
        initial_delay_ms: 100,
        max_delay_ms: 150,
        multiplier_num: 201,
        multiplier_den: 200,
        max_attempts: None,
    };
    assert_eq!(policy.next_delay(100), 101);
    let mut state = BackoffState::initial(&policy);
    let mut steps = 0;
    while state.delay_ms < 150 {
        let next = state.failed(&policy);
        assert!(next.delay_ms > state.delay_ms);
        state = next;
        steps += 1;
        assert!(steps <= 50);
    }
    assert_eq!(state.delay_ms, 150);
    assert_eq!(state.failed(&policy).delay_ms, 150);
}

#[test]
fn a_fraction_that_is_not_reduced_is_exact_where_the_product_is_whole() {
    let policy = BackoffPolicy {
        initial_delay_ms: 1,
        max_delay_ms: 1_000,
        multiplier_num: 4,
        multiplier_den: 2,
        max_attempts: None,
    };
    let mut state = BackoffState::initial(&policy);
    for k in 1..=12u32 {
        state = state.failed(&policy);
        assert_eq!(state.delay_ms, (1u64 << k).min(1_000));
    }
    let policy = BackoffPolicy {
        initial_delay_ms: 8,
        max_delay_ms: 1_000,
        multiplier_num: 6,
        multiplier_den: 4,
        max_attempts: None,
    };
    let mut state = BackoffState::initial(&policy);
    let mut seen = Vec::new();
    for _ in 0..3 {
        state = state.failed(&policy);
        seen.push(state.delay_ms);
    }
    assert_eq!(seen, vec![12, 18, 27]);
}

#[test]
fn delays_never_shrink_and_never_pass_the_cap() {
    for (num, den) in [(3u32, 2u32), (7, 5), (201, 200), (2, 1), (10, 3), (1, 1)] {
        let policy = BackoffPolicy {
            initial_delay_ms: 7,
            max_delay_ms: 10_000,
            multiplier_num: num,
            multiplier_den: den,
            max_attempts: None,
        };
        let mut state = BackoffState::initial(&policy);
        let mut exact = 7f64;
        for _ in 0..40 {
            let next = state.failed(&policy);
            exact *= num as f64 / den as f64;
            assert!(next.delay_ms >= state.delay_ms);
            assert!(next.delay_ms <= 10_000);
            assert!(next.delay_ms as f64 >= exact.min(10_000.0) - 1e-6);
            state = next;
        }
    }
}

#[test]
fn next_delay_never_passes_the_cap() {
    let policy = doubling();
    assert_eq!(policy.next_delay(14_999), 29_998);
    assert_eq!(policy.next_delay(15_000), 30_000);
    assert_eq!(policy.next_delay(15_001), 30_000);
    assert_eq!(policy.next_delay(u64::MAX), 30_000);
}

#[test]
fn next_delay_does_not_overflow() {
    let policy = BackoffPolicy {
        initial_delay_ms: 1,
        max_delay_ms: u64::MAX,
        multiplier_num: u32::MAX,
        multiplier_den: 1,
        max_attempts: None,
    };
    assert_eq!(policy.next_delay(u64::MAX), u64::MAX);
    assert_eq!(policy.next_delay(2), 2 * (u32::MAX as u64));
    assert_eq!(policy.next_delay(0), 0);
}

#[test]
fn validity_is_a_denominator() {
    assert!(doubling().is_valid());
    let broken = BackoffPolicy { multiplier_den: 0, ..doubling() };
    assert!(!broken.is_valid());
}

#[test]
fn allows_counts_against_the_cap() {
    let unbounded = doubling();
    assert!(unbounded.allows(0));
    assert!(unbounded.allows(u64::MAX));
    let capped = BackoffPolicy { max_attempts: Some(3), ..doubling() };
    assert!(capped.allows(0));
    assert!(capped.allows(2));
    assert!(!capped.allows(3));
    assert!(!capped.allows(4));
    let none = BackoffPolicy { max_attempts: Some(0), ..doubling() };
    assert!(!none.allows(0));
}

#[test]
fn the_attempt_counter_saturates() {
    let policy = doubling();
    let state = BackoffState { delay_ms: 30_000, attempts: u64::MAX - 1 };
    let state = state.failed(&policy);
    assert_eq!(state.attempts, u64::MAX);
    let state = state.failed(&policy);
    assert_eq!(state.attempts, u64::MAX);
    assert_eq!(state.delay_ms, 30_000);
}
