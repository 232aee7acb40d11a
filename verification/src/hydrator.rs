use vstd::prelude::*;

verus! {

/// `candidates` after pairing its first elements with those of `hydrated` through `merge`:
/// position `i` below both lengths holds `merge(candidates[i], hydrated[i])`, the rest is as it was.
pub open spec fn merged_pairwise<C>(
    candidates: Seq<C>,
    hydrated: Seq<C>,
    merge: spec_fn(C, C) -> C,
) -> Seq<C> {
    Seq::new(
        candidates.len(),
        |i: int|
            if i < hydrated.len() {
                merge(candidates[i], hydrated[i])
            } else {
                candidates[i]
            },
    )
}

/// Hydrators run in parallel and fill in fields of the candidates.
pub trait Hydrator<Q, C>: Send + Sync where Q: Clone + Send + Sync + 'static, C: Clone + Send + Sync + 'static {
    /// What `update` makes of `candidate` given the hydrated copy `hydrated`: the candidate with
    /// the fields this hydrator is responsible for taken from `hydrated`.
    spec fn updated(&self, candidate: C, hydrated: C) -> C;

    /// Whether this hydrator runs for `query`; by default it always does.
    fn enable(&self, query: &Q) -> (r: bool)
        default_ensures
            r,
    {
        true
    }

    /// Hydrates the candidates. On success the result has one entry per candidate, in the same
    /// order: a hydrator never drops a candidate (that is a filter's work).
    fn hydrate(&self, query: &Q, candidates: &[C]) -> (r: Result<Vec<C>, String>)
        ensures
            r matches Ok(v) ==> v@.len() == candidates@.len(),
    ;

    /// Copies into `candidate` the fields this hydrator is responsible for.
    fn update(&self, candidate: &mut C, hydrated: C)
        ensures
            *final(candidate) == self.updated(*old(candidate), hydrated),
    ;

    /// Updates each candidate from the hydrated entry at the same position; candidates past the
    /// end of `hydrated` stay as they are, and entries of `hydrated` past the candidates are dropped.
    fn update_all(&self, candidates: &mut [C], hydrated: Vec<C>)
        ensures
            final(candidates)@ == merged_pairwise(
                old(candidates)@,
                hydrated@,
                |c: C, h: C| self.updated(c, h),
            ),
    {
        let n = candidates.len();
        let m = hydrated.len();
        // Hand the hydrated entries out front first: reverse them once, then pop.
        let mut pending: Vec<C> = Vec::new();
        let mut source = hydrated;
        while source.len() > 0
            invariant
                source@.len() + pending@.len() == m,
                forall|k: int| 0 <= k < pending@.len() ==> pending@[k] == hydrated@[m - 1 - k],
                forall|k: int| 0 <= k < source@.len() ==> source@[k] == hydrated@[k],
            decreases source@.len(),
        {
            let h = source.pop().unwrap();
            pending.push(h);
        }
        let ghost before = candidates@;
        let mut i: usize = 0;
        while i < n && pending.len() > 0
            invariant
                n == before.len(),
                candidates@.len() == n,
                i <= n,
                i <= m,
                pending@.len() == m - i,
                forall|k: int| 0 <= k < pending@.len() ==> pending@[k] == hydrated@[m - 1 - k],
                forall|k: int| 0 <= k < i ==> candidates@[k] == self.updated(before[k], hydrated@[k]),
                forall|k: int| i <= k < n ==> candidates@[k] == before[k],
            decreases n - i,
        {
            let h = pending.pop().unwrap();
            self.update(&mut candidates[i], h);
            i = i + 1;
        }
        assert(candidates@ =~= merged_pairwise(before, hydrated@, |c: C, h: C| self.updated(c, h)));
    }
}

} // verus!
