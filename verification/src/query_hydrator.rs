use vstd::prelude::*;

verus! {

/// Query hydrators fill in fields of the query before candidates are fetched.
pub trait QueryHydrator<Q>: Send + Sync where Q: Clone + Send + Sync + 'static {
    /// What `update` makes of `query` given the hydrated copy `hydrated`: the query with the
    /// fields this hydrator is responsible for taken from `hydrated`.
    spec fn updated(&self, query: Q, hydrated: Q) -> Q;

    /// Whether this query hydrator runs for `query`; by default it always does.
    fn enable(&self, query: &Q) -> (r: bool)
        default_ensures
            r,
    {
        true
    }

    /// Returns a new query with this hydrator's fields filled in.
    fn hydrate(&self, query: &Q) -> Result<Q, String>;

    /// Copies into `query` the fields this hydrator is responsible for.
    fn update(&self, query: &mut Q, hydrated: Q)
        ensures
            *final(query) == self.updated(*old(query), hydrated),
    ;
}

} // verus!
