use vstd::prelude::*;
use crate::candidate::{PostCandidate, ScoredPostsQuery};
use crate::filter::{
    Filter, FilterResult, is_partition_of, lemma_filter_take_step, lemma_partition_empty,
    lemma_partition_step,
};

verus! {

/// Removes the posts whose author is the viewer.
pub struct SelfTweetFilter;

/// Whether `c` was written by someone other than the viewer `viewer_id`.
pub open spec fn not_by_viewer(c: PostCandidate, viewer_id: u64) -> bool {
    c.author_id != viewer_id
}

/// The viewer's own posts are exactly the removed ones: every kept candidate has another author,
/// every removed one is the viewer's, and each candidate is kept or removed by its author alone.
pub proof fn lemma_self_tweets_removed(candidates: Seq<PostCandidate>, viewer_id: u64)
    ensures
        ({
            let kept = candidates.filter(|c: PostCandidate| not_by_viewer(c, viewer_id));
            let removed = candidates.filter(|c: PostCandidate| !not_by_viewer(c, viewer_id));
            &&& forall|k: int| 0 <= k < kept.len() ==> (#[trigger] kept[k]).author_id != viewer_id
            &&& forall|k: int| 0 <= k < removed.len() ==> (#[trigger] removed[k]).author_id == viewer_id
            &&& forall|k: int|
                0 <= k < candidates.len() && #[trigger] candidates[k].author_id == viewer_id ==> removed.contains(
                    candidates[k],
                )
            &&& forall|k: int|
                0 <= k < candidates.len() && #[trigger] candidates[k].author_id != viewer_id ==> kept.contains(
                    candidates[k],
                )
        }),
{
    candidates.filter_lemma(|c: PostCandidate| not_by_viewer(c, viewer_id));
    candidates.filter_lemma(|c: PostCandidate| !not_by_viewer(c, viewer_id));
}

impl Filter<ScoredPostsQuery, PostCandidate> for SelfTweetFilter {
    /// Keeps the candidates whose author is not the viewer and removes the others, both in their
    /// original order.
    fn filter(&self, query: &ScoredPostsQuery, candidates: Vec<PostCandidate>) -> (r: Result<
        FilterResult<PostCandidate>,
        String,
    >)
        ensures
            r is Ok,
            r matches Ok(res) ==> {
                &&& res.kept@ == candidates@.filter(|c: PostCandidate| not_by_viewer(c, query.user_id as u64))
                &&& res.removed@ == candidates@.filter(|c: PostCandidate| !not_by_viewer(c, query.user_id as u64))
                &&& forall|k: int| 0 <= k < res.kept@.len() ==> (#[trigger] res.kept@[k]).author_id != query.user_id as u64
                &&& forall|k: int| 0 <= k < res.removed@.len() ==> (#[trigger] res.removed@[k]).author_id == query.user_id as u64
            },
    {
        let viewer_id = #[verifier::truncate] (query.user_id as u64);
        let ghost keep = |c: PostCandidate| not_by_viewer(c, viewer_id);
        let ghost drop = |c: PostCandidate| !not_by_viewer(c, viewer_id);
        let mut kept: Vec<PostCandidate> = Vec::new();
        let mut removed: Vec<PostCandidate> = Vec::new();
        let n = candidates.len();
        let mut i: usize = 0;
        proof {
            lemma_partition_empty(candidates@, keep);
            lemma_partition_empty(candidates@, drop);
        }
        while i < n
            invariant
                n == candidates@.len(),
                i <= n,
                keep == (|c: PostCandidate| not_by_viewer(c, viewer_id)),
                drop == (|c: PostCandidate| !not_by_viewer(c, viewer_id)),
                kept@ == candidates@.take(i as int).filter(keep),
                removed@ == candidates@.take(i as int).filter(drop),
                is_partition_of(kept@, removed@, candidates@.take(i as int)),
            decreases n - i,
        {
            let c = candidates[i];
            proof {
                lemma_filter_take_step(candidates@, i as int, keep);
                lemma_filter_take_step(candidates@, i as int, drop);
                lemma_partition_step(kept@, removed@, candidates@, i as int);
            }
            if c.author_id != viewer_id {
                kept.push(c);
            } else {
                removed.push(c);
            }
            i = i + 1;
        }
        assert(candidates@.take(n as int) =~= candidates@);
        proof {
            lemma_self_tweets_removed(candidates@, viewer_id);
        }
        Ok(FilterResult { kept, removed })
    }
}

} // verus!
