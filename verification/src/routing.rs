//! Choosing the route of a request: the most specific pattern that matches
//! its path, and an error where two routes tie for it.

use crate::config::AppConfig;
use crate::error::VaneError;
use crate::models::{DomainConfig, Route};
use crate::path_matcher::{get_match_score, match_score, pattern_matches, MatchScore};
use crate::text::clone_strings;
use vstd::prelude::*;

verus! {

/// Route `i` exists and its pattern matches `path`.
pub open spec fn matches_at(routes: Seq<Route>, path: Seq<char>, i: int) -> bool {
    0 <= i < routes.len() && pattern_matches(routes[i].path@, path)
}

/// The score of route `i` on `path`.
pub open spec fn score_at(routes: Seq<Route>, path: Seq<char>, i: int) -> MatchScore {
    match_score(routes[i].path@, path).unwrap()
}

/// Route `i` matches `path` and no route matches it with a better score.
pub open spec fn is_best_at(routes: Seq<Route>, path: Seq<char>, i: int) -> bool {
    &&& matches_at(routes, path, i)
    &&& forall|j: int| #[trigger]
        matches_at(routes, path, j) ==> !score_at(routes, path, j).beats(score_at(routes, path, i))
}

/// Two different routes both have the best score on `path`.
pub open spec fn tied_best(routes: Seq<Route>, path: Seq<char>, i: int, j: int) -> bool {
    i != j && is_best_at(routes, path, i) && is_best_at(routes, path, j)
}

/// What routing decides for a path.
pub enum RouteChoice {
    /// No route matches.
    NoRoute,
    /// Two or more routes share the best score.
    Ambiguous,
    /// The route at this position has the best score, and it alone.
    Route(int),
}

/// The decision for `path` among `routes`.
pub open spec fn route_choice(routes: Seq<Route>, path: Seq<char>) -> RouteChoice {
    if forall|i: int| !matches_at(routes, path, i) {
        RouteChoice::NoRoute
    } else if exists|i: int, j: int| tied_best(routes, path, i, j) {
        RouteChoice::Ambiguous
    } else {
        RouteChoice::Route(choose|i: int| is_best_at(routes, path, i))
    }
}

/// Finds the route of `path` among the routes of one domain and returns its
/// targets in their configured order: nothing where no route matches, an
/// error where the best score is shared.
pub fn find_best_route(path: &str, domain_config: &DomainConfig) -> (result: Result<
    Option<Vec<String>>,
    VaneError,
>)
    ensures
        match route_choice(domain_config.routes@, path@) {
            RouteChoice::NoRoute => result matches Ok(None),
            RouteChoice::Ambiguous => result matches Err(VaneError::AmbiguousRoute),
            RouteChoice::Route(i) => result matches Ok(Some(targets)) && targets.deep_view()
                == domain_config.routes@[i].targets.deep_view() && is_best_at(
                domain_config.routes@,
                path@,
                i,
            ),
        },
        (exists|i: int, j: int| tied_best(domain_config.routes@, path@, i, j)) <==> result is Err,
{
    let routes = &domain_config.routes;
    let mut best: Option<(MatchScore, usize)> = None;
    let mut ambiguous = false;
    let mut k: usize = 0;
    while k < routes.len()
        invariant
            k <= routes@.len(),
            routes@ == domain_config.routes@,
            best is None ==> !ambiguous && forall|j: int|
                0 <= j < k ==> !matches_at(routes@, path@, j),
            best matches Some((score, b)) ==> {
                &&& b < k
                &&& matches_at(routes@, path@, b as int)
                &&& score == score_at(routes@, path@, b as int)
                &&& forall|j: int|
                    0 <= j < k && #[trigger] matches_at(routes@, path@, j) ==> !score_at(
                        routes@,
                        path@,
                        j,
                    ).beats(score)
                &&& ambiguous <==> exists|j: int|
                    0 <= j < k && j != b && #[trigger] matches_at(routes@, path@, j) && score_at(
                        routes@,
                        path@,
                        j,
                    ) == score
            },
        decreases routes.len() - k,
    {
        if let Some(current) = get_match_score(routes[k].path.as_str(), path) {
            assert(matches_at(routes@, path@, k as int));
            match best {
                Some((score, b)) => {
                    if current.is_better_than(&score) {
                        best = Some((current, k));
                        ambiguous = false;
                        assert forall|j: int|
                            0 <= j < k + 1 && #[trigger] matches_at(
                                routes@,
                                path@,
                                j,
                            ) implies !score_at(routes@, path@, j).beats(current) by {
                            if j < k {
                                assert(!score_at(routes@, path@, j).beats(score));
                            }
                        }
                        assert forall|j: int|
                            0 <= j < k + 1 && j != k && #[trigger] matches_at(
                                routes@,
                                path@,
                                j,
                            ) implies score_at(routes@, path@, j) != current by {
                            assert(!score_at(routes@, path@, j).beats(score));
                        }
                    } else if current == score {
                        ambiguous = true;
                    } else {
                        assert(!current.beats(score) && current != score);
                    }
                },
                None => {
                    best = Some((current, k));
                },
            }
        }
        k = k + 1;
    }
    match best {
        None => {
            Ok(None)
        },
        Some((score, b)) => {
            if ambiguous {
                proof {
                    let j = choose|j: int|
                        0 <= j < k && j != b && #[trigger] matches_at(routes@, path@, j)
                            && score_at(routes@, path@, j) == score;
                    assert(tied_best(routes@, path@, b as int, j));
                }
                Err(VaneError::AmbiguousRoute)
            } else {
                proof {
                    assert(is_best_at(routes@, path@, b as int));
                    assert forall|i: int, j: int| !tied_best(routes@, path@, i, j) by {
                        if tied_best(routes@, path@, i, j) {
                            let si = score_at(routes@, path@, i);
                            let sj = score_at(routes@, path@, j);
                            assert(matches_at(routes@, path@, i));
                            assert(matches_at(routes@, path@, j));
                            assert(matches_at(routes@, path@, b as int));
                            assert(!si.beats(score) && !score.beats(si));
                            assert(!sj.beats(score) && !score.beats(sj));
                        }
                    }
                    let c = choose|i: int| is_best_at(routes@, path@, i);
                    if c != b {
                        assert(tied_best(routes@, path@, c, b as int));
                    }
                }
                Ok(Some(clone_strings(&routes[b].targets)))
            }
        },
    }
}

/// The targets for `host` and `path`: the host must be configured; its
/// routes then decide as `find_best_route` says.
pub fn find_target_urls(host: &str, path: &str, config: &AppConfig) -> (result: Result<
    Option<Vec<String>>,
    VaneError,
>)
    ensures
        match config.domain(host@) {
            None => result matches Err(VaneError::HostNotFound),
            Some(domain) => match route_choice(domain.routes@, path@) {
                RouteChoice::NoRoute => result matches Ok(None),
                RouteChoice::Ambiguous => result matches Err(VaneError::AmbiguousRoute),
                RouteChoice::Route(i) => result matches Ok(Some(targets)) && targets.deep_view()
                    == domain.routes@[i].targets.deep_view() && is_best_at(
                    domain.routes@,
                    path@,
                    i,
                ),
            },
        },
{
    match config.lookup(host) {
        None => Err(VaneError::HostNotFound),
        Some(domain) => find_best_route(path, domain),
    }
}

/// The route of a request as the forwarder needs it: the ordered targets, or
/// the error that answers the request.
pub fn resolve_targets(host: &str, path: &str, config: &AppConfig) -> (result: Result<
    Vec<String>,
    VaneError,
>)
    ensures
        match config.domain(host@) {
            None => result matches Err(VaneError::HostNotFound),
            Some(domain) => match route_choice(domain.routes@, path@) {
                RouteChoice::NoRoute => result matches Err(VaneError::NoRouteFound),
                RouteChoice::Ambiguous => result matches Err(VaneError::AmbiguousRoute),
                RouteChoice::Route(i) => result matches Ok(targets) && targets.deep_view()
                    == domain.routes@[i].targets.deep_view(),
            },
        },
{
    match find_target_urls(host, path, config) {
        Err(e) => Err(e),
        Ok(None) => Err(VaneError::NoRouteFound),
        Ok(Some(targets)) => Ok(targets),
    }
}

/// Where two different routes match a path with the same score and no route
/// matches it with a better one, routing reports the ambiguity.
pub proof fn lemma_tie_at_best_score_is_ambiguous(
    routes: Seq<Route>,
    path: Seq<char>,
    i: int,
    j: int,
)
    requires
        i != j,
        matches_at(routes, path, i),
        matches_at(routes, path, j),
        score_at(routes, path, i) == score_at(routes, path, j),
        forall|k: int| #[trigger]
            matches_at(routes, path, k) ==> !score_at(routes, path, k).beats(
                score_at(routes, path, i),
            ),
    ensures
        route_choice(routes, path) is Ambiguous,
{
    assert(tied_best(routes, path, i, j));
}

/// Of two routes that match a path, the one whose pattern has the worse
/// score is never the route chosen.
pub proof fn lemma_better_route_wins(routes: Seq<Route>, path: Seq<char>, i: int, j: int)
    requires
        matches_at(routes, path, i),
        matches_at(routes, path, j),
        score_at(routes, path, i).beats(score_at(routes, path, j)),
    ensures
        route_choice(routes, path) != RouteChoice::Route(j),
        !is_best_at(routes, path, j),
{
    if route_choice(routes, path) == RouteChoice::Route(j) {
        assert(exists|k: int| matches_at(routes, path, k));
        lemma_some_route_is_best(routes, path, routes.len() as int);
    }
}

/// Among the first `n` routes, where one matches, one has a score that none
/// of them beats.
proof fn lemma_best_of_prefix(routes: Seq<Route>, path: Seq<char>, n: int) -> (b: int)
    requires
        0 <= n <= routes.len(),
        exists|k: int| 0 <= k < n && matches_at(routes, path, k),
    ensures
        0 <= b < n,
        matches_at(routes, path, b),
        forall|k: int|
            0 <= k < n && #[trigger] matches_at(routes, path, k) ==> !score_at(
                routes,
                path,
                k,
            ).beats(score_at(routes, path, b)),
    decreases n,
{
    let last = n - 1;
    if exists|k: int| 0 <= k < last && matches_at(routes, path, k) {
        let b = lemma_best_of_prefix(routes, path, last);
        if matches_at(routes, path, last) && score_at(routes, path, last).beats(
            score_at(routes, path, b),
        ) {
            assert forall|k: int|
                0 <= k < n && #[trigger] matches_at(routes, path, k) implies !score_at(
                routes,
                path,
                k,
            ).beats(score_at(routes, path, last)) by {
                if k < last {
                    assert(!score_at(routes, path, k).beats(score_at(routes, path, b)));
                }
            }
            last
        } else {
            b
        }
    } else {
        assert(matches_at(routes, path, last));
        last
    }
}

/// Where a route matches, some route is best; so routing never chooses a
/// route that is not.
proof fn lemma_some_route_is_best(routes: Seq<Route>, path: Seq<char>, n: int)
    requires
        n == routes.len(),
        exists|k: int| matches_at(routes, path, k),
    ensures
        exists|b: int| is_best_at(routes, path, b),
        route_choice(routes, path) matches RouteChoice::Route(c) ==> is_best_at(routes, path, c),
{
    let w = choose|k: int| matches_at(routes, path, k);
    assert(0 <= w < n && matches_at(routes, path, w));
    let b = lemma_best_of_prefix(routes, path, n);
    assert(is_best_at(routes, path, b));
}

} // verus!
