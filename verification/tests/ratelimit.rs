use vane::config::AppConfig;
use vane::limiter::Limiter;
use vane::models::{DomainConfig, RateLimitRouteRule, RateLimitRule};
use vane::ratelimit::{
    build_global_limiter, build_route_limiters, build_shared_state, duration_from_parts,
    find_best_match, limit_verdict, limiter_for, parse_std_duration, plan_limits,
    rate_limit_handler, AppState, DurationError, LimitPlan, LimitTrace,
};

fn rule(period: &str, requests: u32) -> RateLimitRule {
    RateLimitRule { period: period.to_string(), requests }
}

fn route_rule(path: &str, period: &str, requests: u32) -> RateLimitRouteRule {
    RateLimitRouteRule { path: path.to_string(), rule: rule(period, requests) }
}

fn state_with(domain: DomainConfig) -> AppState {
    let mut config = AppConfig::new(80, 443);
    config.insert_domain("a.test".to_string(), domain).unwrap();
    build_shared_state(config).unwrap()
}

#[test]
fn periods_are_read_in_seconds() {
    assert_eq!(parse_std_duration("1s"), Ok(1));
    assert_eq!(parse_std_duration("10m"), Ok(600));
    assert_eq!(parse_std_duration("1h"), Ok(3600));
    assert_eq!(parse_std_duration("0s"), Ok(0));
    assert_eq!(parse_std_duration("90s"), Ok(90));
}

#[test]
fn period_units_may_be_upper_case() {
    assert_eq!(parse_std_duration("2H"), Ok(7200));
    assert_eq!(parse_std_duration("3M"), Ok(180));
    assert_eq!(parse_std_duration("4S"), Ok(4));
}

#[test]
fn bad_period_values_are_reported_first() {
    assert_eq!(parse_std_duration(""), Err(DurationError::InvalidValue));
    assert_eq!(parse_std_duration("s"), Err(DurationError::InvalidValue));
    assert_eq!(parse_std_duration("1.5s"), Err(DurationError::InvalidValue));
    assert_eq!(parse_std_duration("-1s"), Err(DurationError::InvalidValue));
    assert_eq!(parse_std_duration("\u{663}s"), Err(DurationError::InvalidValue));
    assert_eq!(parse_std_duration("5\u{663}s"), Err(DurationError::InvalidValue));
    assert_eq!(parse_std_duration("18446744073709551616s"), Err(DurationError::InvalidValue));
    assert_eq!(parse_std_duration("x"), Err(DurationError::InvalidValue));
}

#[test]
fn bad_period_units_are_reported() {
    assert_eq!(parse_std_duration("10"), Err(DurationError::UnsupportedUnit));
    assert_eq!(parse_std_duration("5x"), Err(DurationError::UnsupportedUnit));
    assert_eq!(parse_std_duration("5ms"), Err(DurationError::UnsupportedUnit));
    assert_eq!(parse_std_duration("5 s"), Err(DurationError::UnsupportedUnit));
    assert_eq!(parse_std_duration("+5s"), Err(DurationError::UnsupportedUnit));
    assert_eq!(parse_std_duration("5d"), Err(DurationError::UnsupportedUnit));
}

#[test]
fn periods_that_do_not_fit_are_too_long() {
    assert_eq!(parse_std_duration("18446744073709551615s"), Ok(u64::MAX));
    assert_eq!(parse_std_duration("18446744073709551615m"), Err(DurationError::TooLong));
    assert_eq!(parse_std_duration("18446744073709551615h"), Err(DurationError::TooLong));
    assert_eq!(parse_std_duration("307445734561825860m"), Ok(18446744073709551600));
    assert_eq!(parse_std_duration("307445734561825861m"), Err(DurationError::TooLong));
}

#[test]
fn durations_from_their_parts() {
    assert_eq!(duration_from_parts("2", "m"), Ok(120));
    assert_eq!(duration_from_parts("+2", "h"), Ok(7200));
    assert_eq!(duration_from_parts("2", "M"), Err(DurationError::UnsupportedUnit));
    assert_eq!(duration_from_parts("", "s"), Err(DurationError::InvalidValue));
    assert_eq!(duration_from_parts("x", "y"), Err(DurationError::InvalidValue));
    assert_eq!(duration_from_parts("1", ""), Err(DurationError::UnsupportedUnit));
    assert_eq!(duration_from_parts("1", "ss"), Err(DurationError::UnsupportedUnit));
}

#[test]
fn zero_requests_or_zero_period_disable_a_limiter() {
    assert!(Limiter::new(0, 5).is_none());
    assert!(Limiter::new(1, 0).is_none());
    assert!(matches!(limiter_for(&rule("0s", 5)), Ok(None)));
    assert!(matches!(limiter_for(&rule("1s", 0)), Ok(None)));
    assert!(matches!(limiter_for(&rule("soon", 5)), Ok(None)));
    assert!(matches!(limiter_for(&rule("5d", 5)), Ok(None)));
    assert!(matches!(limiter_for(&rule("18446744073709551615h", 0)), Ok(None)));
    let limiter = limiter_for(&rule("2m", 5)).unwrap().unwrap();
    assert_eq!(limiter.period_secs(), 120);
    assert_eq!(limiter.requests(), 5);
}

#[test]
fn a_bucket_gets_its_requests_back_within_the_period() {
    let limiter = limiter_for(&rule("1m", 60)).unwrap().unwrap();
    assert_eq!(limiter.refill_nanos(), 1_000_000_000);
    let limiter = limiter_for(&rule("1s", 2)).unwrap().unwrap();
    assert_eq!(limiter.refill_nanos(), 500_000_000);
    let limiter = limiter_for(&rule("1h", 1)).unwrap().unwrap();
    assert_eq!(limiter.refill_nanos(), 3_600_000_000_000);
    let limiter = limiter_for(&rule("1s", 3)).unwrap().unwrap();
    assert_eq!(limiter.refill_nanos(), 333_333_333);
    let limiter = Limiter::new(1, u32::MAX).unwrap();
    assert_eq!(limiter.refill_nanos(), 1);
}

#[test]
fn large_quotas_are_in_force() {
    let limiter = limiter_for(&rule("24h", 150_000)).unwrap().unwrap();
    assert_eq!(limiter.period_secs(), 86_400);
    assert_eq!(limiter.requests(), 150_000);
    assert_eq!(limiter.refill_nanos(), 576_000_000);
    assert!(limiter_for(&rule("1h", 2_562_048)).unwrap().is_some());
    assert!(Limiter::new(3, u32::MAX).is_some());
    assert!(Limiter::new(4_611_686_019, 2).is_some());
    assert!(Limiter::new(9_223_372_036, u32::MAX).is_some());

    let mut domain = DomainConfig::plain();
    domain.rate_limit.overrides = vec![route_rule("/bulk", "24h", 150_000)];
    let state = state_with(domain);
    assert_eq!(state.override_limiters.len(), 1);
    assert_eq!(state.override_limiters[0].key, "a.test/bulk");
    let client = "10.0.0.1".to_string();
    let outcome = rate_limit_handler(&state, "a.test", "/bulk", &client, true);
    assert_eq!(outcome.trace.override_check, Some(true));
}

#[test]
fn periods_too_long_to_count_stop_the_build() {
    assert!(Limiter::new(9_223_372_036, 1).is_some());
    assert!(Limiter::new(9_223_372_037, 1).is_none());
    assert!(Limiter::new(u64::MAX, u32::MAX).is_none());
    assert!(matches!(limiter_for(&rule("9223372037s", 1)), Err(DurationError::TooLong)));
    assert!(matches!(
        limiter_for(&rule("18446744073709551615h", 1)),
        Err(DurationError::TooLong)
    ));

    let mut domain = DomainConfig::plain();
    domain.rate_limit.routes = vec![route_rule("/a", "1s", 5), route_rule("/b", "9223372037s", 1)];
    let mut config = AppConfig::new(80, 443);
    config.insert_domain("a.test".to_string(), domain).unwrap();
    assert!(matches!(build_route_limiters(&config), Err(DurationError::TooLong)));
    assert!(matches!(build_shared_state(config), Err(DurationError::TooLong)));

    let mut domain = DomainConfig::plain();
    domain.rate_limit.default = Some(rule("9223372037s", 1));
    let mut config = AppConfig::new(80, 443);
    config.insert_domain("a.test".to_string(), domain).unwrap();
    assert!(matches!(build_global_limiter(&config), Err(DurationError::TooLong)));
}

#[test]
fn a_spent_bucket_refills_at_requests_per_period() {
    let mut domain = DomainConfig::plain();
    domain.rate_limit.default = Some(rule("10s", 20));
    let state = state_with(domain);
    let client = "10.0.0.9".to_string();
    for _ in 0..20 {
        assert!(rate_limit_handler(&state, "a.test", "/", &client, true).allowed);
    }
    assert!(!rate_limit_handler(&state, "a.test", "/", &client, true).allowed);
    let start = std::time::Instant::now();
    while start.elapsed() < std::time::Duration::from_millis(600) {
        std::hint::spin_loop();
    }
    assert!(rate_limit_handler(&state, "a.test", "/", &client, true).allowed);
}

#[test]
fn a_bucket_holds_its_requests_and_no_more() {
    let mut domain = DomainConfig::plain();
    domain.rate_limit.default = Some(rule("1h", 3));
    let state = state_with(domain);
    let client = "10.0.0.1".to_string();
    let answers: Vec<bool> = (0..5)
        .map(|_| rate_limit_handler(&state, "a.test", "/", &client, true).allowed)
        .collect();
    assert_eq!(answers, vec![true, true, true, false, false]);
}

#[test]
fn every_client_has_a_bucket_of_its_own() {
    let mut domain = DomainConfig::plain();
    domain.rate_limit.default = Some(rule("1h", 1));
    let state = state_with(domain);
    let one = "10.0.0.1".to_string();
    let two = "10.0.0.2".to_string();
    assert!(rate_limit_handler(&state, "a.test", "/", &one, true).allowed);
    assert!(!rate_limit_handler(&state, "a.test", "/", &one, true).allowed);
    assert!(rate_limit_handler(&state, "a.test", "/", &two, true).allowed);
    assert!(!rate_limit_handler(&state, "a.test", "/", &two, true).allowed);
}

#[test]
fn limiters_are_keyed_by_host_and_pattern() {
    let mut domain = DomainConfig::plain();
    domain.rate_limit.routes =
        vec![route_rule("/a", "1s", 5), route_rule("/off", "1s", 0), route_rule("/b/*", "1m", 7)];
    domain.rate_limit.overrides = vec![route_rule("/c", "1h", 1), route_rule("/bad", "1d", 1)];
    let mut config = AppConfig::new(80, 443);
    config.insert_domain("a.test".to_string(), domain).unwrap();
    let (routes, overrides) = build_route_limiters(&config).unwrap();
    let keys: Vec<&str> = routes.iter().map(|entry| entry.key.as_str()).collect();
    assert_eq!(keys, vec!["a.test/a", "a.test/b/*"]);
    assert_eq!(routes[1].limiter.period_secs(), 60);
    assert_eq!(routes[1].limiter.requests(), 7);
    let keys: Vec<&str> = overrides.iter().map(|entry| entry.key.as_str()).collect();
    assert_eq!(keys, vec!["a.test/c"]);
    assert_eq!(overrides[0].limiter.period_secs(), 3600);
}

#[test]
fn default_limiter_comes_from_the_first_rule_in_force() {
    let mut first = DomainConfig::plain();
    first.rate_limit.default = Some(rule("1s", 0));
    let mut second = DomainConfig::plain();
    second.rate_limit.default = Some(rule("2s", 4));
    let mut third = DomainConfig::plain();
    third.rate_limit.default = Some(rule("bad", 4));
    let mut config = AppConfig::new(80, 443);
    config.insert_domain("a.test".to_string(), first).unwrap();
    config.insert_domain("b.test".to_string(), second).unwrap();
    config.insert_domain("c.test".to_string(), third).unwrap();
    let limiter = build_global_limiter(&config).unwrap().unwrap();
    assert_eq!(limiter.period_secs(), 2);
    assert_eq!(limiter.requests(), 4);
}

#[test]
fn unreadable_default_period_is_an_error() {
    let mut domain = DomainConfig::plain();
    domain.rate_limit.default = Some(rule("soon", 4));
    let mut config = AppConfig::new(80, 443);
    config.insert_domain("a.test".to_string(), domain).unwrap();
    assert!(matches!(build_global_limiter(&config), Err(DurationError::InvalidValue)));
    assert!(matches!(build_shared_state(config), Err(DurationError::InvalidValue)));
}

#[test]
fn no_default_rule_means_no_default_limiter() {
    let mut config = AppConfig::new(80, 443);
    config.insert_domain("a.test".to_string(), DomainConfig::plain()).unwrap();
    assert!(build_global_limiter(&config).unwrap().is_none());
    let state = build_shared_state(config).unwrap();
    assert!(state.configurable_limiter.is_none());
    assert!(state.route_limiters.is_empty());
    assert!(state.override_limiters.is_empty());
}

#[test]
fn most_specific_limiter_is_found() {
    let mut domain = DomainConfig::plain();
    domain.rate_limit.routes = vec![
        route_rule("/", "1s", 1),
        route_rule("/api/*", "1s", 2),
        route_rule("/api/users", "1s", 3),
    ];
    let state = state_with(domain);
    let found = find_best_match(&state.route_limiters, "a.test/api/users").unwrap();
    assert_eq!(found.pattern, "a.test/api/users");
    assert_eq!(found.index, 2);
    assert_eq!(found.limiter.requests(), 3);
    let found = find_best_match(&state.route_limiters, "a.test/api/orders").unwrap();
    assert_eq!(found.pattern, "a.test/api/*");
    let found = find_best_match(&state.route_limiters, "a.test/other").unwrap();
    assert_eq!(found.pattern, "a.test/");
    assert!(find_best_match(&state.route_limiters, "b.test/api/users").is_none());
}

#[test]
fn later_rule_for_the_same_pattern_wins() {
    let mut domain = DomainConfig::plain();
    domain.rate_limit.routes = vec![route_rule("/a", "1s", 1), route_rule("/a", "1s", 9)];
    let state = state_with(domain);
    let found = find_best_match(&state.route_limiters, "a.test/a").unwrap();
    assert_eq!(found.index, 1);
    assert_eq!(found.limiter.requests(), 9);
}

#[test]
fn plan_prefers_override_then_route_then_default() {
    let mut domain = DomainConfig::plain();
    domain.rate_limit.default = Some(rule("1s", 100));
    domain.rate_limit.routes = vec![route_rule("/a", "1s", 5), route_rule("/b", "1s", 5)];
    domain.rate_limit.overrides = vec![route_rule("/a", "1s", 5)];
    let state = state_with(domain);
    assert_eq!(
        plan_limits(&state, "a.test", "/a"),
        LimitPlan { override_at: Some(0), route_at: None, default_on: false }
    );
    assert_eq!(
        plan_limits(&state, "a.test", "/b"),
        LimitPlan { override_at: None, route_at: Some(1), default_on: true }
    );
    assert_eq!(
        plan_limits(&state, "a.test", "/c"),
        LimitPlan { override_at: None, route_at: None, default_on: true }
    );
    assert_eq!(
        plan_limits(&state, "b.test", "/a"),
        LimitPlan { override_at: None, route_at: None, default_on: false }
    );
}

#[test]
fn default_rule_of_two_per_second_lets_two_through() {
    let mut domain = DomainConfig::plain();
    domain.rate_limit.default = Some(rule("1s", 2));
    let state = state_with(domain);
    let client = "192.0.2.1".to_string();
    let first = rate_limit_handler(&state, "a.test", "/x", &client, true);
    let second = rate_limit_handler(&state, "a.test", "/x", &client, true);
    let third = rate_limit_handler(&state, "a.test", "/x", &client, true);
    assert!(first.allowed);
    assert!(second.allowed);
    assert!(!third.allowed);
    assert_eq!(third.trace.default_check, Some(false));
    assert_eq!(third.trace.route_check, None);
    assert_eq!(third.trace.override_check, None);
}

#[test]
fn shield_refusal_asks_no_limiter() {
    let mut domain = DomainConfig::plain();
    domain.rate_limit.default = Some(rule("1h", 1));
    let state = state_with(domain);
    let client = "192.0.2.1".to_string();
    let refused = rate_limit_handler(&state, "a.test", "/x", &client, false);
    assert!(!refused.allowed);
    assert_eq!(
        refused.trace,
        LimitTrace { shield: false, override_check: None, route_check: None, default_check: None }
    );
    let next = rate_limit_handler(&state, "a.test", "/x", &client, true);
    assert!(next.allowed);
    assert_eq!(next.trace.default_check, Some(true));
}

#[test]
fn exceeding_an_override_leaves_other_routes_alone() {
    let mut domain = DomainConfig::plain();
    domain.rate_limit.overrides = vec![route_rule("/a", "1h", 1)];
    domain.rate_limit.routes = vec![route_rule("/b", "1h", 2)];
    let state = state_with(domain);
    let client = "192.0.2.1".to_string();
    assert!(rate_limit_handler(&state, "a.test", "/a", &client, true).allowed);
    for _ in 0..5 {
        let refused = rate_limit_handler(&state, "a.test", "/a", &client, true);
        assert!(!refused.allowed);
        assert_eq!(refused.trace.override_check, Some(false));
        assert_eq!(refused.trace.route_check, None);
    }
    let first = rate_limit_handler(&state, "a.test", "/b", &client, true);
    let second = rate_limit_handler(&state, "a.test", "/b", &client, true);
    let third = rate_limit_handler(&state, "a.test", "/b", &client, true);
    assert!(first.allowed && second.allowed);
    assert!(!third.allowed);
    assert_eq!(third.trace.route_check, Some(false));
}

#[test]
fn passing_override_bypasses_route_and_default() {
    let mut domain = DomainConfig::plain();
    domain.rate_limit.default = Some(rule("1h", 1));
    domain.rate_limit.routes = vec![route_rule("/a", "1h", 1)];
    domain.rate_limit.overrides = vec![route_rule("/a", "1h", 3)];
    let state = state_with(domain);
    let client = "192.0.2.1".to_string();
    for _ in 0..3 {
        let outcome = rate_limit_handler(&state, "a.test", "/a", &client, true);
        assert!(outcome.allowed);
        assert_eq!(outcome.trace.override_check, Some(true));
        assert_eq!(outcome.trace.route_check, None);
        assert_eq!(outcome.trace.default_check, None);
    }
    let other = rate_limit_handler(&state, "a.test", "/other", &client, true);
    assert!(other.allowed);
    assert_eq!(other.trace.default_check, Some(true));
    let again = rate_limit_handler(&state, "a.test", "/other", &client, true);
    assert!(!again.allowed);
}

#[test]
fn route_refusal_does_not_ask_the_default() {
    let mut domain = DomainConfig::plain();
    domain.rate_limit.default = Some(rule("1h", 1));
    domain.rate_limit.routes = vec![route_rule("/a", "1h", 1)];
    let state = state_with(domain);
    let client = "192.0.2.1".to_string();
    let first = rate_limit_handler(&state, "a.test", "/a", &client, true);
    assert!(first.allowed);
    assert_eq!(first.trace.route_check, Some(true));
    assert_eq!(first.trace.default_check, Some(true));
    let second = rate_limit_handler(&state, "a.test", "/a", &client, true);
    assert!(!second.allowed);
    assert_eq!(second.trace.route_check, Some(false));
    assert_eq!(second.trace.default_check, None);
}

#[test]
fn unknown_host_meets_no_configured_limiter() {
    let mut domain = DomainConfig::plain();
    domain.rate_limit.default = Some(rule("1h", 1));
    let state = state_with(domain);
    let client = "192.0.2.1".to_string();
    for _ in 0..4 {
        let outcome = rate_limit_handler(&state, "b.test", "/x", &client, true);
        assert!(outcome.allowed);
        assert_eq!(outcome.trace.default_check, None);
    }
}

#[test]
fn verdict_follows_the_trace() {
    let pass =
        LimitTrace { shield: true, override_check: None, route_check: None, default_check: None };
    assert!(limit_verdict(&pass));
    assert!(!limit_verdict(&LimitTrace { shield: false, ..pass }));
    assert!(!limit_verdict(&LimitTrace { override_check: Some(false), ..pass }));
    assert!(!limit_verdict(&LimitTrace { route_check: Some(false), ..pass }));
    assert!(!limit_verdict(&LimitTrace { default_check: Some(false), ..pass }));
    assert!(limit_verdict(&LimitTrace {
        route_check: Some(true),
        default_check: Some(true),
        ..pass
    }));
}
