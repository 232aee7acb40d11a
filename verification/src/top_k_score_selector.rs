use vstd::prelude::*;
use crate::candidate::{NEG_INFINITY_SCORE, PostCandidate, ScoredPostsQuery};
use crate::params::TOP_K_CANDIDATES_TO_SELECT;
use crate::selector::Selector;

verus! {

/// Keeps the `TOP_K_CANDIDATES_TO_SELECT` best-scored candidates; unscored ones rank last.
pub struct TopKScoreSelector;

impl Selector<ScoredPostsQuery, PostCandidate> for TopKScoreSelector {
    /// A candidate's score, or the lowest key when it has none.
    open spec fn score_of(&self, candidate: PostCandidate) -> i64 {
        match candidate.score {
            Some(s) => s,
            None => NEG_INFINITY_SCORE,
        }
    }

    open spec fn size_limit(&self) -> Option<usize> {
        Some(TOP_K_CANDIDATES_TO_SELECT)
    }

    fn score(&self, candidate: &PostCandidate) -> (r: i64) {
        candidate.score.unwrap_or(NEG_INFINITY_SCORE)
    }

    fn size(&self) -> (r: Option<usize>) {
        Some(TOP_K_CANDIDATES_TO_SELECT)
    }
}

} // verus!
