use vstd::prelude::*;
use crate::ordering::sort_keys_descending;

verus! {

/// `order` lists each position below `n` exactly once.
pub open spec fn is_permutation_of_positions(order: Seq<int>, n: nat) -> bool {
    &&& order.len() == n
    &&& forall|i: int| 0 <= i < n ==> 0 <= #[trigger] order[i] < n
    &&& forall|i: int, j: int| 0 <= i < j < n ==> #[trigger] order[i] != #[trigger] order[j]
}

/// `sorted` is `s` reordered by `order` so that keys never increase.
pub open spec fn is_descending_reorder<C>(
    sorted: Seq<C>,
    s: Seq<C>,
    order: Seq<int>,
    key: spec_fn(C) -> i64,
) -> bool {
    &&& is_permutation_of_positions(order, s.len())
    &&& sorted.len() == s.len()
    &&& forall|i: int| 0 <= i < s.len() ==> #[trigger] sorted[i] == s[order[i]]
    &&& forall|i: int, j: int| 0 <= i < j < s.len() ==> key(#[trigger] sorted[i]) >= key(#[trigger] sorted[j])
}

/// `sorted` holds the elements of `s` by descending key.
pub open spec fn is_sorted_descending<C>(sorted: Seq<C>, s: Seq<C>, key: spec_fn(C) -> i64) -> bool {
    exists|order: Seq<int>| is_descending_reorder(sorted, s, order, key)
}

/// `sorted` holds the elements of `s` by descending key, and elements with equal keys keep the
/// order they had in `s`: the stable sort, which is unique.
pub open spec fn is_stable_sorted_descending<C>(
    sorted: Seq<C>,
    s: Seq<C>,
    key: spec_fn(C) -> i64,
) -> bool {
    exists|order: Seq<int>|
        {
            &&& is_descending_reorder(sorted, s, order, key)
            &&& forall|i: int, j: int|
                0 <= i < j < s.len() && key(#[trigger] sorted[i]) == key(#[trigger] sorted[j])
                    ==> order[i] < order[j]
        }
}

/// The first `limit` elements of `s`, or all of them when there is no limit.
pub open spec fn truncated<C>(s: Seq<C>, limit: Option<usize>) -> Seq<C> {
    match limit {
        Some(k) if k < s.len() => s.take(k as int),
        _ => s,
    }
}

/// Selectors order the candidates by score and keep the best of them.
pub trait Selector<Q, C>: Send + Sync where Q: Clone + Send + Sync + 'static, C: Clone + Send + Sync + 'static {
    /// The score by which `candidate` is ordered (a higher value ranks first).
    spec fn score_of(&self, candidate: C) -> i64;

    /// How many candidates `select` keeps at most; `None` keeps all.
    spec fn size_limit(&self) -> Option<usize>;

    /// Selects by default by sorting (see `sort`) and keeping the first `size()` candidates.
    fn select(&self, query: &Q, candidates: Vec<C>) -> (r: Vec<C>)
        default_ensures
            exists|sorted: Seq<C>|
                {
                    &&& is_stable_sorted_descending(sorted, candidates@, |c: C| self.score_of(c))
                    &&& r@ == truncated(sorted, self.size_limit())
                },
    {
        let ghost input = candidates@;
        let mut sorted = self.sort(candidates);
        let ghost all_sorted = sorted@;
        if let Some(limit) = self.size() {
            sorted.truncate(limit);
        }
        assert(sorted@ == truncated(all_sorted, self.size_limit()));
        sorted
    }

    /// Whether this selector runs for `query`; by default it always does.
    fn enable(&self, query: &Q) -> (r: bool)
        default_ensures
            r,
    {
        true
    }

    /// The score by which `candidate` is ordered.
    fn score(&self, candidate: &C) -> (r: i64)
        ensures
            r == self.score_of(*candidate),
    ;

    /// Sorts the candidates by descending score; candidates with equal scores keep their order.
    fn sort(&self, candidates: Vec<C>) -> (r: Vec<C>)
        ensures
            is_stable_sorted_descending(r@, candidates@, |c: C| self.score_of(c)),
    {
        let n = candidates.len();
        let ghost key = |c: C| self.score_of(c);
        // Pair each candidate's score with its position.
        let mut keyed: Vec<(i64, usize)> = Vec::new();
        let mut i: usize = 0;
        while i < n
            invariant
                n == candidates@.len(),
                i <= n,
                keyed@.len() == i,
                forall|k: int| 0 <= k < i ==> #[trigger] keyed@[k] == (self.score_of(candidates@[k]), k as usize),
            decreases n - i,
        {
            let s = self.score(&candidates[i]);
            keyed.push((s, i));
            i = i + 1;
        }
        let ghost unsorted = keyed@;
        sort_keys_descending(&mut keyed);
        proof {
            lemma_sorted_positions(unsorted, keyed@);
        }
        // Lay the candidates out in slots that can be emptied one by one.
        let mut slots: Vec<Option<C>> = Vec::new();
        let mut reversed: Vec<C> = Vec::new();
        let mut source = candidates;
        while source.len() > 0
            invariant
                source@.len() + reversed@.len() == n,
                forall|k: int| 0 <= k < reversed@.len() ==> #[trigger] reversed@[k] == candidates@[n - 1 - k],
                forall|k: int| 0 <= k < source@.len() ==> #[trigger] source@[k] == candidates@[k],
            decreases source@.len(),
        {
            let c = source.pop().unwrap();
            reversed.push(c);
        }
        while reversed.len() > 0
            invariant
                reversed@.len() + slots@.len() == n,
                forall|k: int| 0 <= k < reversed@.len() ==> #[trigger] reversed@[k] == candidates@[n - 1 - k],
                forall|k: int| 0 <= k < slots@.len() ==> #[trigger] slots@[k] == Some(candidates@[k]),
            decreases reversed@.len(),
        {
            let c = reversed.pop().unwrap();
            slots.push(Some(c));
        }
        let mut sorted: Vec<C> = Vec::new();
        let mut j: usize = 0;
        while j < n
            invariant
                n == candidates@.len(),
                slots@.len() == n,
                keyed@.len() == n,
                j <= n,
                sorted@.len() == j,
                forall|k: int| 0 <= k < n ==> (#[trigger] keyed@[k]).1 < n,
                forall|k: int| 0 <= k < n ==> (#[trigger] keyed@[k]).0 == self.score_of(candidates@[keyed@[k].1 as int]),
                forall|a: int, b: int| 0 <= a < b < n ==> (#[trigger] keyed@[a]).1 != (#[trigger] keyed@[b]).1,
                forall|k: int| 0 <= k < j ==> #[trigger] sorted@[k] == candidates@[keyed@[k].1 as int],
                forall|p: int|
                    0 <= p < n ==> (#[trigger] slots@[p] is Some <==> forall|k: int| 0 <= k < j ==> keyed@[k].1 != p),
                forall|p: int| 0 <= p < n && #[trigger] slots@[p] is Some ==> slots@[p] == Some(candidates@[p]),
            decreases n - j,
        {
            let p = keyed[j].1;
            assert(slots@[p as int] is Some);
            let mut taken: Option<C> = None;
            slots.set_and_swap(p, &mut taken);
            let c = taken.unwrap();
            sorted.push(c);
            j = j + 1;
        }
        proof {
            let order = Seq::new(n as nat, |k: int| keyed@[k].1 as int);
            assert(is_descending_reorder(sorted@, candidates@, order, key));
        }
        sorted
    }

    /// How many candidates to keep; by default there is no limit.
    fn size(&self) -> (r: Option<usize>)
        ensures
            r == self.size_limit(),
    ;
}

/// Selection keeps the best: as many candidates as the limit allows (all when there is none),
/// each scoring at least as high as every candidate left out.
pub proof fn lemma_selection_keeps_best<C>(
    sorted: Seq<C>,
    candidates: Seq<C>,
    key: spec_fn(C) -> i64,
    limit: Option<usize>,
)
    requires
        is_sorted_descending(sorted, candidates, key),
    ensures
        truncated(sorted, limit).len() == match limit {
            Some(k) => if (k as nat) < candidates.len() {
                k as nat
            } else {
                candidates.len()
            },
            None => candidates.len(),
        },
        forall|i: int, j: int|
            0 <= i < truncated(sorted, limit).len() <= j < sorted.len() ==> key(
                #[trigger] truncated(sorted, limit)[i],
            ) >= key(#[trigger] sorted[j]),
{
    let order = choose|order: Seq<int>| is_descending_reorder(sorted, candidates, order, key);
    assert forall|i: int, j: int|
        0 <= i < truncated(sorted, limit).len() <= j < sorted.len() implies key(
        #[trigger] truncated(sorted, limit)[i],
    ) >= key(#[trigger] sorted[j]) by {
        assert(truncated(sorted, limit)[i] == sorted[i]);
    }
}

/// After the stable sort, the positions are a permutation of the original ones and each pair's
/// key is the key of the position it names.
proof fn lemma_sorted_positions(unsorted: Seq<(i64, usize)>, sorted: Seq<(i64, usize)>)
    requires
        forall|k: int| 0 <= k < unsorted.len() ==> #[trigger] unsorted[k].1 == k,
        sorted.to_multiset() == unsorted.to_multiset(),
    ensures
        sorted.len() == unsorted.len(),
        forall|k: int| 0 <= k < sorted.len() ==> (#[trigger] sorted[k]).1 < sorted.len(),
        forall|k: int| 0 <= k < sorted.len() ==> #[trigger] sorted[k] == unsorted[sorted[k].1 as int],
        forall|a: int, b: int| 0 <= a < b < sorted.len() ==> (#[trigger] sorted[a]).1 != (#[trigger] sorted[b]).1,
{
    broadcast use vstd::seq_lib::group_to_multiset_ensures;
    assert forall|i: int, j: int|
        0 <= i < unsorted.len() && 0 <= j < unsorted.len() && i != j implies unsorted[i]
        != unsorted[j] by {
        assert(unsorted[i].1 == i && unsorted[j].1 == j);
    }
    assert(unsorted.no_duplicates());
    sorted.to_multiset_ensures();
    unsorted.to_multiset_ensures();
    assert(sorted.to_multiset().len() == unsorted.to_multiset().len());
    unsorted.lemma_multiset_has_no_duplicates();
    sorted.lemma_multiset_has_no_duplicates_conv();
    assert forall|k: int| 0 <= k < sorted.len() implies (#[trigger] sorted[k]).1 < sorted.len()
        && sorted[k] == unsorted[sorted[k].1 as int] by {
        assert(sorted.contains(sorted[k]));
        assert(sorted.to_multiset().count(sorted[k]) > 0);
        assert(unsorted.to_multiset().count(sorted[k]) > 0);
        assert(unsorted.contains(sorted[k]));
        let i = choose|i: int| 0 <= i < unsorted.len() && unsorted[i] == sorted[k];
        assert(unsorted[i].1 == i);
    }
    assert forall|a: int, b: int| 0 <= a < b < sorted.len() implies (#[trigger] sorted[a]).1
        != (#[trigger] sorted[b]).1 by {
        assert(sorted[a] == unsorted[sorted[a].1 as int]);
        assert(sorted[b] == unsorted[sorted[b].1 as int]);
    }
}

} // verus!
