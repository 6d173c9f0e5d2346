use framectl::progress::{eta_secs, fmt_dur, rate_tenths, should_emit};

#[test]
fn fmt_dur_forms() {
    assert_eq!(fmt_dur(0), "0s");
    assert_eq!(fmt_dur(42), "42s");
    assert_eq!(fmt_dur(59), "59s");
    assert_eq!(fmt_dur(60), "1m00s");
    assert_eq!(fmt_dur(125), "2m05s");
    assert_eq!(fmt_dur(3599), "59m59s");
    assert_eq!(fmt_dur(7322), "122m02s");
}

#[test]
fn emission_is_throttled_but_final_is_forced() {
    assert!(!should_emit(999, 3, 10));
    assert!(should_emit(1000, 3, 10));
    assert!(should_emit(0, 10, 10));
}

#[test]
fn eta_from_rate() {
    // 5 of 10 done in 10 s: 0.5 per second, 5 left, 10 s to go.
    assert_eq!(eta_secs(5, 10, 10_000_000), 10);
    assert_eq!(eta_secs(0, 10, 10_000_000), 0);
    assert_eq!(eta_secs(10, 10, 10_000_000), 0);
    // 3 of 7 in 2.5 s: 4 left at 1.2 per second, 3.33 s, rounded down.
    assert_eq!(eta_secs(3, 7, 2_500_000), 3);
}

#[test]
fn rate_in_tenths() {
    assert_eq!(rate_tenths(5, 10_000_000), 5);
    assert_eq!(rate_tenths(0, 10_000_000), 0);
    assert_eq!(rate_tenths(1, 3_000_000), 3);
    assert_eq!(rate_tenths(2, 3_000_000), 7);
    // elapsed is floored at 100 microseconds
    assert_eq!(rate_tenths(1, 0), 100_000);
}
