//! Exponential backoff with jitter.

use opcua_tag_browser::Backoff;
use std::time::Duration;

fn nanos(d: Duration) -> u64 {
    d.as_nanos() as u64
}

#[test]
fn starts_at_min_and_caps_at_max() {
    let min = Duration::from_millis(100);
    let max = Duration::from_millis(800);
    let mut backoff = Backoff::new(nanos(min), nanos(max));

    // Jitter is +/-25%, so bound each step against a widened range
    // rather than asserting exact doubling.
    let bounds = |base: Duration| {
        (
            Duration::from_secs_f64(base.as_secs_f64() * 0.75),
            Duration::from_secs_f64(base.as_secs_f64() * 1.25),
        )
    };

    for expected in [100u64, 200, 400, 800, 800, 800] {
        let expected = Duration::from_millis(expected);
        let (lo, hi) = bounds(expected);
        let got = Duration::from_nanos(backoff.next());
        assert!(got >= lo && got <= hi, "{got:?} not within {lo:?}..={hi:?}");
    }
}

#[test]
fn reset_returns_to_min() {
    let min = Duration::from_millis(50);
    let mut backoff = Backoff::new(nanos(min), nanos(Duration::from_secs(10)));

    backoff.next();
    backoff.next();
    backoff.reset();

    let got = Duration::from_nanos(backoff.next());
    assert!(got >= Duration::from_millis(37) && got <= Duration::from_millis(63));
}

#[test]
fn max_below_min_is_clamped_up_to_min() {
    let backoff = Backoff::new(nanos(Duration::from_secs(5)), nanos(Duration::from_secs(1)));
    assert_eq!(Duration::from_nanos(backoff.max()), Duration::from_secs(5));
}

#[test]
fn min_below_a_millisecond_is_raised() {
    let backoff = Backoff::new(10, 20);
    assert_eq!(backoff.min(), 1_000_000);
    assert_eq!(backoff.max(), 1_000_000);
}

#[test]
fn jitter_factor_spans_three_quarters_to_five_quarters() {
    assert_eq!(opcua_tag_browser::jitter(2000, 0), 1500);
    assert_eq!(opcua_tag_browser::jitter(2000, 999), 2499);
    assert_eq!(opcua_tag_browser::jitter(2000, 1500), 2000);
    assert_eq!(opcua_tag_browser::jitter(u64::MAX, 999), u64::MAX);
}

#[test]
fn steps_double_until_capped() {
    // With jitter at most 25%, a 1 s step never yields more than 1.25 s, and
    // a capped 4 s step never less than 3 s.
    let mut backoff = Backoff::new(1_000_000_000, 4_000_000_000);
    let first = backoff.next();
    assert!((750_000_000..=1_250_000_000).contains(&first));
    backoff.next();
    backoff.next();
    let capped = backoff.next();
    assert!((3_000_000_000..=5_000_000_000).contains(&capped));
}
