use vane::path_matcher::{get_match_score, path_segments, MatchScore};

fn score(exact_parts: usize, total_parts: usize) -> Option<MatchScore> {
    Some(MatchScore { exact_parts, total_parts })
}

#[test]
fn root_pattern_matches_every_path() {
    assert_eq!(get_match_score("/", "/anything/at/all"), score(0, 0));
    assert_eq!(get_match_score("/", "/"), score(0, 0));
    assert_eq!(get_match_score("", ""), score(0, 0));
}

#[test]
fn wildcard_matches_one_segment() {
    assert_eq!(get_match_score("/api/*", "/api/users"), score(1, 2));
    assert_eq!(get_match_score("/api/users", "/api/users"), score(2, 2));
    assert_eq!(get_match_score("/api/*", "/api"), None);
    assert_eq!(get_match_score("/api/users", "/api/orders"), None);
    assert_eq!(get_match_score("/*/*", "/a/b"), score(0, 2));
}

#[test]
fn pattern_is_a_prefix_by_segments_not_by_text() {
    assert_eq!(get_match_score("/api", "/api/users/7"), score(1, 1));
    assert_eq!(get_match_score("/ap", "/api/users"), None);
    assert_eq!(get_match_score("/api/users/7/x", "/api/users/7"), None);
}

#[test]
fn empty_segments_are_ignored() {
    assert_eq!(get_match_score("//api///users/", "/api/users"), score(2, 2));
    assert_eq!(get_match_score("api/users", "///api//users//extra"), score(2, 2));
    assert_eq!(path_segments("//a//b/"), vec!["a".to_string(), "b".to_string()]);
    assert_eq!(path_segments("///"), Vec::<String>::new());
}

#[test]
fn wildcard_is_a_whole_segment_only() {
    assert_eq!(get_match_score("/a*", "/ab"), None);
    assert_eq!(get_match_score("/a*", "/a*"), score(1, 1));
    assert_eq!(get_match_score("/**", "/x"), None);
}

#[test]
fn more_exact_segments_give_the_better_score() {
    let exact = get_match_score("/api/users", "/api/users").unwrap();
    let wild = get_match_score("/api/*", "/api/users").unwrap();
    let root = get_match_score("/", "/api/users").unwrap();
    assert!(exact > wild);
    assert!(wild > root);
    assert!(exact.is_better_than(&wild));
    assert!(!wild.is_better_than(&exact));
    assert!(!exact.is_better_than(&exact));
}

#[test]
fn scores_order_by_exact_parts_then_total_parts() {
    let a = MatchScore { exact_parts: 1, total_parts: 3 };
    let b = MatchScore { exact_parts: 1, total_parts: 2 };
    let c = MatchScore { exact_parts: 2, total_parts: 2 };
    assert!(a > b);
    assert!(c > a);
    assert!(a.is_better_than(&b));
    assert!(c.is_better_than(&a));
    assert_eq!(a.max(c), c);
    assert_eq!(b.partial_cmp(&b), Some(std::cmp::Ordering::Equal));
}

#[test]
fn non_ascii_segments_compare_by_character() {
    assert_eq!(get_match_score("/caf\u{e9}/*", "/caf\u{e9}/menu"), score(1, 2));
    assert_eq!(get_match_score("/caf\u{e9}", "/cafe"), None);
}
