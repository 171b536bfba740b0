//! The specificity score of a pattern that matches a path, and its order.

use std::cmp::Ordering;
use vstd::prelude::*;

verus! {

/// How specifically a pattern matched a path. Scores are ordered by
/// `exact_parts` first and `total_parts` second; the higher score wins.
#[derive(Debug, Clone, Copy, PartialEq, Eq, Ord, Structural)]
pub struct MatchScore {
    /// Number of pattern segments that are not the wildcard.
    pub exact_parts: usize,
    /// Number of segments in the pattern.
    pub total_parts: usize,
}

impl MatchScore {
    /// `self` is strictly more specific than `other`.
    pub open spec fn beats(self, other: MatchScore) -> bool {
        self.exact_parts > other.exact_parts || (self.exact_parts == other.exact_parts
            && self.total_parts > other.total_parts)
    }

    /// Strictly more specific than `other`, in the lexicographic order.
    pub fn is_better_than(&self, other: &MatchScore) -> (r: bool)
        ensures
            r == self.beats(*other),
    {
        self.exact_parts > other.exact_parts || (self.exact_parts == other.exact_parts
            && self.total_parts > other.total_parts)
    }
}

impl PartialOrd for MatchScore {
    fn partial_cmp(&self, other: &MatchScore) -> (r: Option<Ordering>) {
        if self.exact_parts < other.exact_parts {
            Some(Ordering::Less)
        } else if self.exact_parts > other.exact_parts {
            Some(Ordering::Greater)
        } else if self.total_parts < other.total_parts {
            Some(Ordering::Less)
        } else if self.total_parts > other.total_parts {
            Some(Ordering::Greater)
        } else {
            Some(Ordering::Equal)
        }
    }
}

impl vstd::std_specs::cmp::PartialOrdSpecImpl for MatchScore {
    open spec fn obeys_partial_cmp_spec() -> bool {
        true
    }

    open spec fn partial_cmp_spec(&self, other: &MatchScore) -> Option<Ordering> {
        if self.exact_parts < other.exact_parts {
            Some(Ordering::Less)
        } else if self.exact_parts > other.exact_parts {
            Some(Ordering::Greater)
        } else if self.total_parts < other.total_parts {
            Some(Ordering::Less)
        } else if self.total_parts > other.total_parts {
            Some(Ordering::Greater)
        } else {
            Some(Ordering::Equal)
        }
    }
}

/// The order on scores is strict and total: of two different scores exactly
/// one beats the other, and no score beats itself.
pub proof fn lemma_score_order_total(a: MatchScore, b: MatchScore)
    ensures
        !a.beats(a),
        a != b ==> (a.beats(b) <==> !b.beats(a)),
        a == b ==> !a.beats(b) && !b.beats(a),
{
}

/// The order on scores is transitive.
pub proof fn lemma_score_order_transitive(a: MatchScore, b: MatchScore, c: MatchScore)
    requires
        a.beats(b),
        b.beats(c),
    ensures
        a.beats(c),
{
}

} // verus!
