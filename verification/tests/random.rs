use rand::SeedableRng;
use rand_xorshift::XorShiftRng;
use retry_block::delay::{jitter, jitter_by, jitter_rng, DelaySequence, Range};
use retry_block::duration::Duration;
use retry_block::RetryConfig;

#[test]
fn test_jitter_1_sec() {
    let mut rng = XorShiftRng::seed_from_u64(0);

    let duration = Duration::from_millis(1000);
    assert_ne!(
        jitter_rng(duration, &mut rng),
        jitter_rng(duration, &mut rng)
    )
}

#[test]
fn jitter_by_scales_by_the_upper_bits() {
    let second = Duration::from_secs(1);
    assert_eq!(jitter_by(second, 0), Duration::zero());
    assert_eq!(jitter_by(second, 2047), Duration::zero());
    assert_eq!(jitter_by(second, 1 << 63), Duration::from_millis(500));
    assert_eq!(jitter_by(second, 1 << 62), Duration::from_millis(250));
    assert_eq!(jitter_by(second, 3 << 62), Duration::from_millis(750));
    assert_eq!(jitter_by(second, u64::MAX), Duration::new(0, 999_999_999));
    assert_eq!(jitter_by(Duration::zero(), u64::MAX), Duration::zero());
    assert_eq!(jitter_by(Duration::new(0, 1), u64::MAX), Duration::zero());
}

#[test]
fn jitter_by_scales_the_longest_duration() {
    let half = jitter_by(Duration::max(), 1 << 63);
    assert_eq!(half, Duration::new(u64::MAX / 2, 999_999_999));
    let most = jitter_by(Duration::max(), u64::MAX);
    assert!(most.le(&Duration::max()) && most != Duration::max());
    assert!(most.as_secs() >= u64::MAX - 2048);
}

#[test]
fn jitter_by_agrees_with_scaling_in_floating_point() {
    let base = Duration::from_millis(1000);
    let std_base = std::time::Duration::from_millis(1000);
    let mut rng = XorShiftRng::seed_from_u64(11);
    for _ in 0..200 {
        let bits: u64 = rand::Rng::gen(&mut rng);
        let factor = (bits >> 11) as f64 / (1u64 << 53) as f64;
        let expected = std_base.mul_f64(factor).as_nanos();
        let ours = jitter_by(base, bits).as_nanos();
        assert!(ours <= expected && expected - ours <= 1);
    }
}

#[test]
fn jitter_rng_agrees_with_a_factor_drawn_in_floating_point() {
    let base = Duration::from_secs(3600);
    let std_base = std::time::Duration::from_secs(3600);
    let mut ours = XorShiftRng::seed_from_u64(23);
    let mut theirs = XorShiftRng::seed_from_u64(23);
    for _ in 0..200 {
        let factor: f64 = rand::Rng::gen(&mut theirs);
        let expected = std_base.mul_f64(factor).as_nanos();
        let jittered = jitter_rng(base, &mut ours).as_nanos();
        assert!(jittered.abs_diff(expected) <= 1);
    }
}

#[test]
fn jitter_rng_draws_what_jitter_by_scales() {
    let duration = Duration::from_millis(1000);
    let mut first = XorShiftRng::seed_from_u64(5);
    let mut second = XorShiftRng::seed_from_u64(5);
    for _ in 0..20 {
        let bits: u64 = rand::Rng::gen(&mut second);
        assert_eq!(jitter_rng(duration, &mut first), jitter_by(duration, bits));
    }
}

#[test]
fn jitter_rng_is_determined_by_the_seed() {
    let duration = Duration::from_millis(1000);
    let mut first = XorShiftRng::seed_from_u64(42);
    let mut second = XorShiftRng::seed_from_u64(42);
    for _ in 0..20 {
        assert_eq!(jitter_rng(duration, &mut first), jitter_rng(duration, &mut second));
    }
}

#[test]
fn jitter_rng_stays_below_the_duration() {
    let mut rng = XorShiftRng::seed_from_u64(7);
    let duration = Duration::from_millis(1000);
    let mut shorter = 0;
    for _ in 0..200 {
        let jittered = jitter_rng(duration, &mut rng);
        assert!(jittered.le(&duration));
        if jittered != duration {
            shorter += 1;
        }
    }
    assert_eq!(shorter, 200);
}

#[test]
fn jitter_stays_below_the_duration() {
    let duration = Duration::from_secs(3600);
    let mut distinct = std::collections::HashSet::new();
    for _ in 0..100 {
        let jittered = jitter(duration);
        assert!(jittered.le(&duration));
        distinct.insert(jittered.as_nanos());
    }
    assert!(distinct.len() > 1);
}

#[test]
fn jitter_of_the_longest_duration_is_a_duration() {
    let mut rng = XorShiftRng::seed_from_u64(3);
    for _ in 0..200 {
        assert!(jitter_rng(Duration::max(), &mut rng).le(&Duration::max()));
    }
}

#[test]
fn jitter_of_zero_is_zero() {
    assert_eq!(jitter(Duration::zero()), Duration::zero());
}

#[test]
fn range_inclusive_stays_between_the_bounds() {
    let mut range = Range::from_millis_inclusive(5, 8);
    let mut seen = std::collections::HashSet::new();
    for _ in 0..400 {
        let delay = range.next().unwrap();
        assert_eq!(delay.as_nanos() % 1_000_000, 0);
        let millis = delay.as_millis();
        assert!(5 <= millis && millis <= 8);
        seen.insert(millis);
    }
    // every value of so small a range shows up, the maximum included
    assert_eq!(seen.len(), 4);
}

#[test]
fn range_exclusive_leaves_the_maximum_out() {
    let mut range = Range::from_millis_exclusive(5, 8);
    let mut seen = std::collections::HashSet::new();
    for _ in 0..400 {
        let millis = range.next().unwrap().as_millis();
        assert!(5 <= millis && millis < 8);
        seen.insert(millis);
    }
    assert_eq!(seen.len(), 3);
}

#[test]
fn range_inclusive_of_one_value_repeats_it() {
    let mut range = Range::from_millis_inclusive(250, 250);
    for _ in 0..20 {
        assert_eq!(range.next(), Some(Duration::from_millis(250)));
    }
}

#[test]
fn range_covers_the_whole_width() {
    let mut range = Range::from_millis_inclusive(0, u64::MAX);
    let mut seen = std::collections::HashSet::new();
    for _ in 0..20 {
        seen.insert(range.next().unwrap().as_millis());
    }
    assert!(seen.len() > 1);
}

#[test]
fn range_from_durations_uses_whole_milliseconds() {
    let start = Duration::new(0, 5_900_000);
    let end = Duration::new(0, 8_100_000);
    let mut range = Range::from_durations_exclusive(start, end);
    for _ in 0..200 {
        let millis = range.next().unwrap().as_millis();
        assert!(5 <= millis && millis < 8);
    }
    let mut range = Range::from_durations_inclusive(start, start);
    assert_eq!(range.next(), Some(Duration::from_millis(5)));
    let mut seen = std::collections::HashSet::new();
    let mut range = Range::from_durations_inclusive(start, end);
    for _ in 0..400 {
        seen.insert(range.next().unwrap().as_millis());
    }
    assert_eq!(seen.len(), 4);
}

#[test]
fn range_clone_draws_from_the_same_bounds() {
    let range = Range::from_millis_inclusive(250, 250);
    let mut copy = range.clone();
    assert_eq!(copy.next(), Some(Duration::from_millis(250)));
}

#[test]
fn retry_config_yields_count_delays_in_range() {
    let config = RetryConfig { count: 3, min_backoff: 100, max_backoff: 300 };
    let mut delays = config.into_delays();
    for _ in 0..3 {
        let millis = delays.next().unwrap().as_millis();
        assert!(100 <= millis && millis <= 300);
    }
    assert_eq!(delays.next(), None);
    assert_eq!(delays.next(), None);
}

#[test]
fn retry_config_with_equal_backoffs_is_fixed() {
    let config = RetryConfig { count: 2, min_backoff: 500, max_backoff: 500 };
    let mut delays = config.into_delays();
    assert_eq!(delays.next(), Some(Duration::from_millis(500)));
    assert_eq!(delays.next(), Some(Duration::from_millis(500)));
    assert_eq!(delays.next(), None);
}

#[test]
fn retry_config_with_zero_count_yields_nothing() {
    let config = RetryConfig { count: 0, min_backoff: 100, max_backoff: 300 };
    assert_eq!(config.into_delays().next(), None);
}
