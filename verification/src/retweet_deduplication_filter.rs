use vstd::prelude::*;
use std::collections::HashSet;
use crate::candidate::{PostCandidate, ScoredPostsQuery};
use crate::filter::{Filter, FilterResult, is_partition_of, lemma_partition_empty, lemma_partition_step};

verus! {

/// Deduplicates retweets: of the candidates that carry the same tweet (as the original or as a
/// retweet of it), only the first to come is kept.
pub struct RetweetDeduplicationFilter;

/// The tweet that a candidate carries: the retweeted tweet for a retweet, its own id otherwise.
pub open spec fn carried_tweet(c: PostCandidate) -> u64 {
    match c.retweeted_tweet_id {
        Some(id) => id,
        None => c.tweet_id as u64,
    }
}

/// The tweets carried by the candidates of `earlier`.
pub open spec fn seen_tweets(earlier: Seq<PostCandidate>) -> Set<u64> {
    Set::new(|id: u64| exists|j: int| 0 <= j < earlier.len() && carried_tweet(earlier[j]) == id)
}

/// Whether `c`, coming after `earlier`, is kept: only when no earlier candidate carried the
/// tweet that `c` carries, whether as the original or as a retweet.
pub open spec fn keeps_after(earlier: Seq<PostCandidate>, c: PostCandidate) -> bool {
    !seen_tweets(earlier).contains(carried_tweet(c))
}

/// The candidates of `s` that the deduplication keeps, in order.
pub open spec fn dedup_kept(s: Seq<PostCandidate>) -> Seq<PostCandidate>
    decreases s.len(),
{
    if s.len() == 0 {
        s
    } else if keeps_after(s.drop_last(), s.last()) {
        dedup_kept(s.drop_last()).push(s.last())
    } else {
        dedup_kept(s.drop_last())
    }
}

/// The candidates of `s` that the deduplication removes, in order.
pub open spec fn dedup_removed(s: Seq<PostCandidate>) -> Seq<PostCandidate>
    decreases s.len(),
{
    if s.len() == 0 {
        s
    } else if keeps_after(s.drop_last(), s.last()) {
        dedup_removed(s.drop_last())
    } else {
        dedup_removed(s.drop_last()).push(s.last())
    }
}

proof fn lemma_seen_step(s: Seq<PostCandidate>, i: int)
    requires
        0 <= i < s.len(),
    ensures
        seen_tweets(s.take(i + 1)) == seen_tweets(s.take(i)).insert(carried_tweet(s[i])),
{
    let a = seen_tweets(s.take(i + 1));
    let b = seen_tweets(s.take(i)).insert(carried_tweet(s[i]));
    assert forall|id: u64| a.contains(id) <==> b.contains(id) by {
        if a.contains(id) {
            let j = choose|j: int| 0 <= j < i + 1 && carried_tweet(#[trigger] s.take(i + 1)[j]) == id;
            if j < i {
                assert(carried_tweet(s.take(i)[j]) == id);
            }
        }
        if seen_tweets(s.take(i)).contains(id) {
            let j = choose|j: int| 0 <= j < i && carried_tweet(#[trigger] s.take(i)[j]) == id;
            assert(carried_tweet(s.take(i + 1)[j]) == id);
        }
        if id == carried_tweet(s[i]) {
            assert(carried_tweet(s.take(i + 1)[i]) == id);
        }
    }
    assert(a =~= b);
}

proof fn lemma_dedup_step(s: Seq<PostCandidate>, i: int)
    requires
        0 <= i < s.len(),
    ensures
        dedup_kept(s.take(i + 1)) == (if keeps_after(s.take(i), s[i]) {
            dedup_kept(s.take(i)).push(s[i])
        } else {
            dedup_kept(s.take(i))
        }),
        dedup_removed(s.take(i + 1)) == (if keeps_after(s.take(i), s[i]) {
            dedup_removed(s.take(i))
        } else {
            dedup_removed(s.take(i)).push(s[i])
        }),
{
    assert(s.take(i + 1).drop_last() =~= s.take(i));
}

/// Each kept candidate is a candidate of `s`, and at a position no earlier than its rank.
proof fn lemma_dedup_kept_from(s: Seq<PostCandidate>)
    ensures
        dedup_kept(s).len() <= s.len(),
        forall|i: int| 0 <= i < dedup_kept(s).len() ==> exists|j: int| 0 <= j < s.len() && s[j] == #[trigger] dedup_kept(s)[i],
    decreases s.len(),
{
    if s.len() > 0 {
        let prev = s.drop_last();
        lemma_dedup_kept_from(prev);
        assert forall|i: int| 0 <= i < dedup_kept(s).len() implies exists|j: int|
            0 <= j < s.len() && s[j] == #[trigger] dedup_kept(s)[i] by {
            if i < dedup_kept(prev).len() {
                assert(dedup_kept(s)[i] == dedup_kept(prev)[i]);
                let j = choose|j: int| 0 <= j < prev.len() && prev[j] == dedup_kept(prev)[i];
                assert(s[j] == prev[j]);
            } else {
                assert(dedup_kept(s)[i] == s.last());
                assert(s[s.len() - 1] == s.last());
            }
        }
    }
}

/// The deduplication keeps one candidate per tweet, the first to carry it: no two kept
/// candidates carry the same tweet, and every removed candidate carries a tweet that a kept
/// candidate before it carries.
pub proof fn lemma_dedup_keeps_first_carrier(s: Seq<PostCandidate>)
    ensures
        forall|i: int, j: int|
            #![trigger dedup_kept(s)[i], dedup_kept(s)[j]]
            0 <= i < j < dedup_kept(s).len() ==> carried_tweet(dedup_kept(s)[i]) != carried_tweet(
                dedup_kept(s)[j],
            ),
        forall|k: int|
            0 <= k < dedup_removed(s).len() ==> seen_tweets(dedup_kept(s)).contains(
                carried_tweet(#[trigger] dedup_removed(s)[k]),
            ),
    decreases s.len(),
{
    if s.len() > 0 {
        let prev = s.drop_last();
        lemma_dedup_keeps_first_carrier(prev);
        lemma_dedup_kept_from(prev);
        lemma_seen_by_kept(prev);
        let kept = dedup_kept(s);
        assert forall|i: int, j: int|
            #![trigger kept[i], kept[j]]
            0 <= i < j < kept.len() implies carried_tweet(kept[i]) != carried_tweet(kept[j]) by {
            if j < dedup_kept(prev).len() {
                assert(kept[i] == dedup_kept(prev)[i]);
                assert(kept[j] == dedup_kept(prev)[j]);
            } else {
                assert(kept[j] == s.last());
                assert(kept[i] == dedup_kept(prev)[i]);
                let m = choose|m: int| 0 <= m < prev.len() && prev[m] == dedup_kept(prev)[i];
                assert(carried_tweet(prev[m]) == carried_tweet(kept[i]));
            }
        }
        let removed = dedup_removed(s);
        assert forall|k: int| 0 <= k < removed.len() implies seen_tweets(kept).contains(
            carried_tweet(#[trigger] removed[k]),
        ) by {
            let id = carried_tweet(removed[k]);
            if k < dedup_removed(prev).len() {
                assert(removed[k] == dedup_removed(prev)[k]);
                let j = choose|j: int| 0 <= j < dedup_kept(prev).len() && carried_tweet(#[trigger] dedup_kept(prev)[j]) == id;
                assert(kept[j] == dedup_kept(prev)[j]);
            } else {
                assert(removed[k] == s.last());
                assert(seen_tweets(prev).contains(id));
                let j = choose|j: int| 0 <= j < dedup_kept(prev).len() && carried_tweet(#[trigger] dedup_kept(prev)[j]) == id;
                assert(kept[j] == dedup_kept(prev)[j]);
            }
        }
    }
}

/// Every tweet that the candidates of `s` carry is carried by one that the deduplication keeps.
proof fn lemma_seen_by_kept(s: Seq<PostCandidate>)
    ensures
        forall|id: u64| #[trigger] seen_tweets(s).contains(id) ==> seen_tweets(dedup_kept(s)).contains(id),
    decreases s.len(),
{
    if s.len() > 0 {
        let prev = s.drop_last();
        lemma_seen_by_kept(prev);
        assert forall|id: u64| #[trigger] seen_tweets(s).contains(id) implies seen_tweets(dedup_kept(s)).contains(id) by {
            let j = choose|j: int| 0 <= j < s.len() && carried_tweet(#[trigger] s[j]) == id;
            if j < s.len() - 1 {
                assert(carried_tweet(prev[j]) == id);
                assert(seen_tweets(prev).contains(id));
                let k = choose|k: int| 0 <= k < dedup_kept(prev).len() && carried_tweet(#[trigger] dedup_kept(prev)[k]) == id;
                assert(dedup_kept(s)[k] == dedup_kept(prev)[k]);
            } else if keeps_after(prev, s.last()) {
                let n = dedup_kept(prev).len() as int;
                assert(dedup_kept(s)[n] == s.last());
            } else {
                assert(seen_tweets(prev).contains(id));
                let k = choose|k: int| 0 <= k < dedup_kept(prev).len() && carried_tweet(#[trigger] dedup_kept(prev)[k]) == id;
                assert(dedup_kept(s)[k] == dedup_kept(prev)[k]);
            }
        }
    }
}

impl Filter<ScoredPostsQuery, PostCandidate> for RetweetDeduplicationFilter {
    /// Keeps each candidate whose tweet (the retweeted one for a retweet, its own for an
    /// original) no earlier candidate carried, and removes the others. Both lists keep the
    /// candidates' order.
    fn filter(&self, query: &ScoredPostsQuery, candidates: Vec<PostCandidate>) -> (r: Result<
        FilterResult<PostCandidate>,
        String,
    >)
        ensures
            r is Ok,
            r matches Ok(res) ==> {
                &&& res.kept@ == dedup_kept(candidates@)
                &&& res.removed@ == dedup_removed(candidates@)
            },
    {
        broadcast use vstd::std_specs::hash::group_hash_axioms;
        let mut seen_tweet_ids: HashSet<u64> = HashSet::new();
        let mut kept: Vec<PostCandidate> = Vec::new();
        let mut removed: Vec<PostCandidate> = Vec::new();
        let n = candidates.len();
        let mut i: usize = 0;
        proof {
            lemma_partition_empty(candidates@, |c: PostCandidate| true);
            assert(candidates@.take(0) =~= Seq::<PostCandidate>::empty());
            assert(seen_tweets(candidates@.take(0)) =~= Set::<u64>::empty());
        }
        while i < n
            invariant
                n == candidates@.len(),
                i <= n,
                seen_tweet_ids@ == seen_tweets(candidates@.take(i as int)),
                kept@ == dedup_kept(candidates@.take(i as int)),
                removed@ == dedup_removed(candidates@.take(i as int)),
                is_partition_of(kept@, removed@, candidates@.take(i as int)),
            decreases n - i,
        {
            let candidate = candidates[i];
            proof {
                lemma_seen_step(candidates@, i as int);
                lemma_dedup_step(candidates@, i as int);
                lemma_partition_step(kept@, removed@, candidates@, i as int);
            }
            // The tweet this candidate carries: the retweeted one, or its own.
            let tweet_id = match candidate.retweeted_tweet_id {
                Some(retweeted_id) => retweeted_id,
                None => #[verifier::truncate] (candidate.tweet_id as u64),
            };
            // Kept only at the tweet's first occurrence, as an original or as a retweet.
            if seen_tweet_ids.insert(tweet_id) {
                kept.push(candidate);
            } else {
                removed.push(candidate);
            }
            i = i + 1;
        }
        assert(candidates@.take(n as int) =~= candidates@);
        Ok(FilterResult { kept, removed })
    }
}

} // verus!
