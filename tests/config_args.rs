use framectl::config::{
    default_concurrency, has_explicit_end, parse_bool, parse_kv, parse_usize, queue_capacity, Config,
    ConfigError,
};

fn args(list: &[&str]) -> Vec<String> {
    list.iter().map(|s| s.to_string()).collect()
}

#[test]
fn parse_bool_spellings() {
    for s in ["1", "true", "TRUE", "yes", "YES"] {
        assert_eq!(parse_bool(s), Some(true));
    }
    for s in ["0", "false", "FALSE", "no", "NO"] {
        assert_eq!(parse_bool(s), Some(false));
    }
    for s in ["", "True", "y", "2", " 1", "on"] {
        assert_eq!(parse_bool(s), None);
    }
}

#[test]
fn parse_kv_first_match() {
    let a = args(&["--start=3", "--end=9", "--start=5"]);
    assert_eq!(parse_kv(&a, "--start"), Some("3".to_string()));
    assert_eq!(parse_kv(&a, "--end"), Some("9".to_string()));
    assert_eq!(parse_kv(&a, "--concurrency"), None);
}

#[test]
fn parse_kv_needs_equals_sign() {
    let a = args(&["--start", "--startx=2", "--start="]);
    assert_eq!(parse_kv(&a, "--start"), Some(String::new()));
    assert_eq!(parse_kv(&[], "--start"), None);
}

#[test]
fn parse_usize_forms() {
    assert_eq!(parse_usize("0"), Some(0));
    assert_eq!(parse_usize("42"), Some(42));
    assert_eq!(parse_usize("007"), Some(7));
    assert_eq!(parse_usize("+15"), Some(15));
    assert_eq!(parse_usize(""), None);
    assert_eq!(parse_usize("+"), None);
    assert_eq!(parse_usize("-1"), None);
    assert_eq!(parse_usize("1a"), None);
    assert_eq!(parse_usize(" 1"), None);
    assert_eq!(parse_usize("18446744073709551615"), Some(usize::MAX));
    assert_eq!(parse_usize("18446744073709551616"), None);
    assert_eq!(parse_usize("99999999999999999999x"), None);
}

#[test]
fn parse_usize_agrees_with_std() {
    for s in ["0", "12", "+3", "-3", "", "4.0", "0009", "+", "++1", "1_000"] {
        assert_eq!(parse_usize(s), s.parse::<usize>().ok(), "{s}");
    }
}

#[test]
fn default_concurrency_is_capped() {
    assert_eq!(default_concurrency(None), 8);
    assert_eq!(default_concurrency(Some(16)), 8);
    assert_eq!(default_concurrency(Some(3)), 3);
    assert_eq!(default_concurrency(Some(0)), 1);
}

#[test]
fn queue_capacity_twice_workers() {
    assert_eq!(queue_capacity(4), 8);
    assert_eq!(queue_capacity(1), 2);
    assert_eq!(queue_capacity(0), 1);
    assert_eq!(queue_capacity(usize::MAX), usize::MAX);
}

#[test]
fn config_defaults() {
    let c = Config::from_args(&args(&[]), Some(120), Some(4)).unwrap();
    assert_eq!(
        c,
        Config { start: 1, end: 120, concurrency: 4, silent: true, dry_run: false }
    );
    assert_eq!(c.total(), 120);
    assert_eq!(c.queue_capacity(), 8);
}

#[test]
fn config_explicit_values() {
    let a = args(&["--start=3", "--end=9", "--concurrency=2", "--silent=0", "--dry-run=yes"]);
    let c = Config::from_args(&a, Some(500), None).unwrap();
    assert_eq!(c, Config { start: 3, end: 9, concurrency: 2, silent: false, dry_run: true });
    assert_eq!(c.total(), 7);
    assert!(has_explicit_end(&a));
}

#[test]
fn config_bad_values_fall_back() {
    let a = args(&["--start=x", "--end=5", "--silent=maybe", "--concurrency=-2"]);
    let c = Config::from_args(&a, None, Some(2)).unwrap();
    assert_eq!(c, Config { start: 1, end: 5, concurrency: 2, silent: true, dry_run: false });
}

#[test]
fn unresolvable_end_is_configuration_error() {
    let a = args(&[]);
    assert!(!has_explicit_end(&a));
    let r = Config::from_args(&a, None, Some(4));
    assert_eq!(r, Err(ConfigError::InvalidRange { start: 1, end: 0 }));
    assert_eq!(r.unwrap_err().exit_code(), 2);
}

#[test]
fn end_before_start_is_configuration_error() {
    let a = args(&["--start=5", "--end=4"]);
    let r = Config::from_args(&a, None, None);
    assert_eq!(r, Err(ConfigError::InvalidRange { start: 5, end: 4 }));
    let a = args(&["--end=0"]);
    assert_eq!(
        Config::from_args(&a, Some(9), None),
        Err(ConfigError::InvalidRange { start: 1, end: 0 })
    );
}

#[test]
fn zero_workers_is_configuration_error() {
    let a = args(&["--end=4", "--concurrency=0"]);
    let r = Config::from_args(&a, None, None);
    assert_eq!(r, Err(ConfigError::InvalidConcurrency));
    assert_eq!(r.unwrap_err().exit_code(), 2);
}
