use vstd::prelude::*;

verus! {

/// What a filter hands back: the candidates that go on to the next stage and those it dropped.
pub struct FilterResult<C> {
    pub kept: Vec<C>,
    pub removed: Vec<C>,
}

/// `kept` and `removed` together hold exactly the candidates, each as often as it came in.
pub open spec fn is_partition_of<C>(kept: Seq<C>, removed: Seq<C>, candidates: Seq<C>) -> bool {
    kept.to_multiset().add(removed.to_multiset()) =~= candidates.to_multiset()
}

/// Taking one more element of `s` extends its filtered prefix by that element when it passes.
pub proof fn lemma_filter_take_step<C>(s: Seq<C>, i: int, p: spec_fn(C) -> bool)
    requires
        0 <= i < s.len(),
    ensures
        s.take(i + 1).filter(p) == (if p(s[i]) {
            s.take(i).filter(p).push(s[i])
        } else {
            s.take(i).filter(p)
        }),
{
    reveal(Seq::filter);
    assert(s.take(i + 1).drop_last() =~= s.take(i));
}

/// The empty prefix filters to nothing and is split into two empty lists.
pub proof fn lemma_partition_empty<C>(s: Seq<C>, p: spec_fn(C) -> bool)
    ensures
        s.take(0).filter(p) == Seq::<C>::empty(),
        is_partition_of(Seq::<C>::empty(), Seq::<C>::empty(), s.take(0)),
{
    broadcast use vstd::seq_lib::group_to_multiset_ensures, vstd::multiset::group_multiset_axioms;
    reveal(Seq::filter);
    assert(s.take(0) =~= Seq::<C>::empty());
    vstd::multiset::lemma_multiset_empty_len(Seq::<C>::empty().to_multiset());
}

/// Sending the next candidate to either list keeps the two lists a split of the prefix read so far.
pub proof fn lemma_partition_step<C>(kept: Seq<C>, removed: Seq<C>, s: Seq<C>, i: int)
    requires
        0 <= i < s.len(),
        is_partition_of(kept, removed, s.take(i)),
    ensures
        is_partition_of(kept.push(s[i]), removed, s.take(i + 1)),
        is_partition_of(kept, removed.push(s[i]), s.take(i + 1)),
{
    broadcast use vstd::seq_lib::group_to_multiset_ensures, vstd::multiset::group_multiset_axioms;
    assert(s.take(i + 1) =~= s.take(i).push(s[i]));
}

/// Filters run one after another and split the candidates into kept and removed ones.
pub trait Filter<Q, C>: Send + Sync where Q: Clone + Send + Sync + 'static, C: Clone + Send + Sync + 'static {
    /// Whether this filter runs for `query`; by default it always does.
    fn enable(&self, query: &Q) -> (r: bool)
        default_ensures
            r,
    {
        true
    }

    /// Splits `candidates` into those kept (which go on to the next stage) and those removed.
    /// On success every candidate lands in exactly one of the two lists.
    fn filter(&self, query: &Q, candidates: Vec<C>) -> (r: Result<FilterResult<C>, String>)
        ensures
            r matches Ok(res) ==> is_partition_of(res.kept@, res.removed@, candidates@),
    ;
}

} // verus!
