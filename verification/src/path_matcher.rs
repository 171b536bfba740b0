//! Matching a route pattern against a request path, segment by segment.

use crate::text::{split, split_on};
use vstd::prelude::*;

pub use crate::score::MatchScore;

verus! {

/// The non-empty pieces of `s` between slashes.
pub open spec fn segments(s: Seq<char>) -> Seq<Seq<char>> {
    split(s, '/').filter(|piece: Seq<char>| piece.len() > 0)
}

/// The pattern segment that stands for any one path segment.
pub open spec fn is_wildcard(segment: Seq<char>) -> bool {
    segment == seq!['*']
}

/// Number of segments of `pattern` that are not the wildcard.
pub open spec fn exact_count(pattern: Seq<Seq<char>>) -> nat {
    pattern.filter(|segment: Seq<char>| !is_wildcard(segment)).len()
}

/// `pattern` is a segment-wise prefix of `path`: it has no more segments, and
/// each of its segments is the wildcard or equals the path's segment at the
/// same position.
pub open spec fn is_segment_prefix(pattern: Seq<Seq<char>>, path: Seq<Seq<char>>) -> bool {
    &&& pattern.len() <= path.len()
    &&& forall|i: int|
        0 <= i < pattern.len() ==> is_wildcard(#[trigger] pattern[i]) || pattern[i] == path[i]
}

/// Whether `pattern` matches `path`.
pub open spec fn pattern_matches(pattern: Seq<char>, path: Seq<char>) -> bool {
    is_segment_prefix(segments(pattern), segments(path))
}

/// The score of `pattern` on `path` where it matches.
pub open spec fn match_score(pattern: Seq<char>, path: Seq<char>) -> Option<MatchScore> {
    if pattern_matches(pattern, path) {
        Some(
            MatchScore {
                exact_parts: exact_count(segments(pattern)) as usize,
                total_parts: segments(pattern).len() as usize,
            },
        )
    } else {
        None
    }
}

/// The non-empty pieces of `s` between slashes, in order.
pub fn path_segments(s: &str) -> (out: Vec<String>)
    ensures
        out.deep_view() == segments(s@),
{
    let pieces = split_on(s, '/');
    let ghost keep = |piece: Seq<char>| piece.len() > 0;
    let mut out: Vec<String> = Vec::new();
    let mut i: usize = 0;
    assert(pieces.deep_view().take(0) =~= Seq::<Seq<char>>::empty());
    assert(out.deep_view() =~= Seq::<Seq<char>>::empty());
    while i < pieces.len()
        invariant
            i <= pieces.len(),
            pieces.deep_view() == split(s@, '/'),
            keep == |piece: Seq<char>| piece.len() > 0,
            out.deep_view() == pieces.deep_view().take(i as int).filter(keep),
        decreases pieces.len() - i,
    {
        let ghost before = out.deep_view();
        let ghost seen = pieces.deep_view().take(i as int);
        proof {
            seen.lemma_filter_push(pieces[i as int]@, keep);
            assert(pieces.deep_view().take(i + 1) =~= seen.push(pieces[i as int]@));
        }
        if pieces[i].as_str().unicode_len() > 0 {
            out.push(pieces[i].clone());
            assert(out.deep_view() =~= before.push(pieces[i as int]@));
        }
        i = i + 1;
    }
    assert(pieces.deep_view().take(pieces.len() as int) =~= pieces.deep_view());
    out
}

/// Scores `pattern` against `path`. The pattern matches when it is a
/// segment-wise prefix of the path, `*` standing for any one segment; the
/// score counts its non-wildcard segments and all its segments.
pub fn get_match_score(pattern: &str, path: &str) -> (result: Option<MatchScore>)
    ensures
        result == match_score(pattern@, path@),
        result is Some <==> pattern_matches(pattern@, path@),
{
    let pattern_parts = path_segments(pattern);
    let path_parts = path_segments(path);
    if pattern_parts.len() > path_parts.len() {
        return None;
    }
    let ghost exact = |segment: Seq<char>| !is_wildcard(segment);
    let ghost pat = segments(pattern@);
    let ghost pth = segments(path@);
    let mut exact_parts: usize = 0;
    let mut i: usize = 0;
    assert(pat.take(0) =~= Seq::<Seq<char>>::empty());
    while i < pattern_parts.len()
        invariant
            i <= pattern_parts.len() <= path_parts.len(),
            pat == segments(pattern@),
            pth == segments(path@),
            pattern_parts.deep_view() == pat,
            path_parts.deep_view() == pth,
            exact == |segment: Seq<char>| !is_wildcard(segment),
            exact_parts == pat.take(i as int).filter(exact).len(),
            exact_parts <= i,
            forall|k: int| 0 <= k < i ==> is_wildcard(#[trigger] pat[k]) || pat[k] == pth[k],
        decreases pattern_parts.len() - i,
    {
        proof {
            pat.take(i as int).lemma_filter_push(pat[i as int], exact);
            assert(pat.take(i + 1) =~= pat.take(i as int).push(pat[i as int]));
            assert(pat[i as int] == pattern_parts[i as int]@);
            assert(pth[i as int] == path_parts[i as int]@);
        }
        let segment = pattern_parts[i].as_str();
        let wild = segment.unicode_len() == 1 && segment.get_char(0) == '*';
        assert(wild == is_wildcard(pat[i as int])) by {
            if wild {
                assert(pat[i as int] =~= seq!['*']);
            }
        }
        if wild {
        } else {
            if pattern_parts[i] != path_parts[i] {
                assert(pat[i as int] != pth[i as int]);
                return None;
            }
            exact_parts = exact_parts + 1;
        }
        i = i + 1;
    }
    assert(pat.take(pat.len() as int) =~= pat);
    Some(MatchScore { exact_parts, total_parts: pattern_parts.len() })
}

/// Of two patterns that match the same path, the one with strictly more
/// non-wildcard segments has the better score.
pub proof fn lemma_more_exact_segments_win(first: Seq<char>, second: Seq<char>, path: Seq<char>)
    requires
        pattern_matches(first, path),
        pattern_matches(second, path),
        exact_count(segments(first)) > exact_count(segments(second)),
        segments(path).len() <= usize::MAX,
    ensures
        match_score(first, path) is Some,
        match_score(second, path) is Some,
        match_score(first, path).unwrap().beats(match_score(second, path).unwrap()),
{
    segments(first).lemma_filter_len(|segment: Seq<char>| !is_wildcard(segment));
    segments(second).lemma_filter_len(|segment: Seq<char>| !is_wildcard(segment));
}

/// A pattern without segments, such as `/`, matches every path with the
/// lowest score there is.
pub proof fn lemma_empty_pattern_matches_all(pattern: Seq<char>, path: Seq<char>)
    requires
        segments(pattern).len() == 0,
    ensures
        match_score(pattern, path) == Some(MatchScore { exact_parts: 0, total_parts: 0 }),
        forall|other: MatchScore| !(MatchScore { exact_parts: 0, total_parts: 0 }).beats(other),
{
    assert(segments(pattern).filter(|segment: Seq<char>| !is_wildcard(segment)).len() == 0) by {
        segments(pattern).lemma_filter_len(|segment: Seq<char>| !is_wildcard(segment));
    }
}

} // verus!
