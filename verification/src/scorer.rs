use vstd::prelude::*;
use crate::hydrator::merged_pairwise;

verus! {

/// Scorers run one after another and fill in the candidates' score fields.
pub trait Scorer<Q, C>: Send + Sync where Q: Clone + Send + Sync + 'static, C: Clone + Send + Sync + 'static {
    /// What `update` makes of `candidate` given the scored copy `scored`: the candidate with the
    /// fields this scorer is responsible for taken from `scored`.
    spec fn updated(&self, candidate: C, scored: C) -> C;

    /// Whether this scorer runs for `query`; by default it always does.
    fn enable(&self, query: &Q) -> (r: bool)
        default_ensures
            r,
    {
        true
    }

    /// Scores the candidates. On success the result has one entry per candidate, in the same
    /// order: a scorer never drops a candidate (that is a filter's work).
    fn score(&self, query: &Q, candidates: &[C]) -> (r: Result<Vec<C>, String>)
        ensures
            r matches Ok(v) ==> v@.len() == candidates@.len(),
    ;

    /// Copies into `candidate` the fields this scorer is responsible for.
    fn update(&self, candidate: &mut C, scored: C)
        ensures
            *final(candidate) == self.updated(*old(candidate), scored),
    ;

    /// Updates each candidate from the scored entry at the same position; candidates past the
    /// end of `scored` stay as they are, and entries of `scored` past the candidates are dropped.
    fn update_all(&self, candidates: &mut [C], scored: Vec<C>)
        ensures
            final(candidates)@ == merged_pairwise(
                old(candidates)@,
                scored@,
                |c: C, h: C| self.updated(c, h),
            ),
    {
        let n = candidates.len();
        let m = scored.len();
        // Hand the scored entries out front first: reverse them once, then pop.
        let mut pending: Vec<C> = Vec::new();
        let mut source = scored;
        while source.len() > 0
            invariant
                source@.len() + pending@.len() == m,
                forall|k: int| 0 <= k < pending@.len() ==> pending@[k] == scored@[m - 1 - k],
                forall|k: int| 0 <= k < source@.len() ==> source@[k] == scored@[k],
            decreases source@.len(),
        {
            let h = source.pop().unwrap();
            pending.push(h);
        }
        let ghost before = candidates@;
        let mut i: usize = 0;
        while i < n && pending.len() > 0
            invariant
                n == before.len(),
                candidates@.len() == n,
                i <= n,
                i <= m,
                pending@.len() == m - i,
                forall|k: int| 0 <= k < pending@.len() ==> pending@[k] == scored@[m - 1 - k],
                forall|k: int| 0 <= k < i ==> candidates@[k] == self.updated(before[k], scored@[k]),
                forall|k: int| i <= k < n ==> candidates@[k] == before[k],
            decreases n - i,
        {
            let h = pending.pop().unwrap();
            self.update(&mut candidates[i], h);
            i = i + 1;
        }
        assert(candidates@ =~= merged_pairwise(before, scored@, |c: C, h: C| self.updated(c, h)));
    }
}

} // verus!
