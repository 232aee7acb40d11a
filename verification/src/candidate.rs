use vstd::prelude::*;

verus! {

/// The score key that stands for a missing score: it orders below every other key, as negative
/// infinity orders below every other score.
pub const NEG_INFINITY_SCORE: i64 = i64::MIN;

/// A post that the home mixer considers for the timeline: what the filters and selectors read.
///
/// `score` is an integer key whose order is that of the model's score (a higher key means a
/// higher score); `None` means that no scorer has filled it in.
#[derive(Debug, Clone, Copy, PartialEq, Eq, Structural)]
pub struct PostCandidate {
    pub tweet_id: i64,
    pub author_id: u64,
    pub retweeted_tweet_id: Option<u64>,
    pub score: Option<i64>,
}

/// The request for which candidates are scored: the viewer.
#[derive(Debug, Clone, Copy, PartialEq, Eq, Structural)]
pub struct ScoredPostsQuery {
    pub user_id: i64,
}

} // verus!
