use vane::config::AppConfig;
use vane::error::VaneError;
use vane::models::{DomainConfig, Route};
use vane::routing::{find_best_route, find_target_urls, resolve_targets};

fn route(path: &str, targets: &[&str]) -> Route {
    Route {
        path: path.to_string(),
        targets: targets.iter().map(|t| t.to_string()).collect(),
        websocket: false,
    }
}

fn domain(routes: Vec<Route>) -> DomainConfig {
    let mut domain = DomainConfig::plain();
    domain.routes = routes;
    domain
}

fn config(routes: Vec<Route>) -> AppConfig {
    let mut config = AppConfig::new(80, 443);
    config.insert_domain("a.test".to_string(), domain(routes)).unwrap();
    config
}

#[test]
fn exact_route_beats_wildcard_route() {
    let config = config(vec![route("/api/users", &["b1"]), route("/api/*", &["b2"])]);
    assert_eq!(
        find_target_urls("a.test", "/api/users", &config).ok(),
        Some(Some(vec!["b1".to_string()]))
    );
    assert_eq!(
        find_target_urls("a.test", "/api/orders", &config).ok(),
        Some(Some(vec!["b2".to_string()]))
    );
}

#[test]
fn order_of_routes_does_not_decide() {
    let config = config(vec![route("/api/*", &["b2"]), route("/api/users", &["b1"])]);
    assert_eq!(
        resolve_targets("a.test", "/api/users", &config).ok(),
        Some(vec!["b1".to_string()])
    );
}

#[test]
fn same_pattern_twice_is_ambiguous() {
    let config = config(vec![route("/api/*", &["b1"]), route("/api/*", &["b2"])]);
    assert!(matches!(
        find_target_urls("a.test", "/api/x", &config),
        Err(VaneError::AmbiguousRoute)
    ));
    assert!(matches!(
        resolve_targets("a.test", "/api/x", &config),
        Err(VaneError::AmbiguousRoute)
    ));
    assert_eq!(VaneError::AmbiguousRoute.status_code(), 500);
}

#[test]
fn different_patterns_with_the_same_score_are_ambiguous() {
    let domain = domain(vec![route("/a/*", &["b1"]), route("/*/b", &["b2"])]);
    assert!(matches!(find_best_route("/a/b", &domain), Err(VaneError::AmbiguousRoute)));
    assert_eq!(find_best_route("/a/c", &domain).ok(), Some(Some(vec!["b1".to_string()])));
}

#[test]
fn a_tie_below_the_best_score_is_no_ambiguity() {
    let domain =
        domain(vec![route("/a/*", &["b1"]), route("/*/b", &["b2"]), route("/a/b", &["b3"])]);
    assert_eq!(find_best_route("/a/b", &domain).ok(), Some(Some(vec!["b3".to_string()])));
    let domain =
        domain_with_best_first();
    assert_eq!(find_best_route("/a/b", &domain).ok(), Some(Some(vec!["b3".to_string()])));
}

fn domain_with_best_first() -> DomainConfig {
    domain(vec![route("/a/b", &["b3"]), route("/a/*", &["b1"]), route("/*/b", &["b2"])])
}

#[test]
fn unknown_host_is_host_not_found() {
    let config = config(vec![route("/", &["b1"])]);
    assert!(matches!(
        find_target_urls("b.test", "/", &config),
        Err(VaneError::HostNotFound)
    ));
    assert!(matches!(resolve_targets("", "/", &config), Err(VaneError::HostNotFound)));
}

#[test]
fn no_matching_route_is_no_route_found() {
    let config = config(vec![route("/api", &["b1"])]);
    assert_eq!(find_target_urls("a.test", "/other", &config).ok(), Some(None));
    assert!(matches!(
        resolve_targets("a.test", "/other", &config),
        Err(VaneError::NoRouteFound)
    ));
    let empty = config_without_routes();
    assert!(matches!(resolve_targets("a.test", "/", &empty), Err(VaneError::NoRouteFound)));
}

fn config_without_routes() -> AppConfig {
    config(vec![])
}

#[test]
fn targets_keep_their_order() {
    let config = config(vec![route("/", &["http://one", "http://two", "http://three"])]);
    assert_eq!(
        resolve_targets("a.test", "/x/y", &config).ok(),
        Some(vec!["http://one".to_string(), "http://two".to_string(), "http://three".to_string()])
    );
}
