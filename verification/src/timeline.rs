use vstd::prelude::*;
use std::collections::VecDeque;

verus! {

/// Minimal post reference stored in a user's timeline: only the id and the creation time.
#[derive(Debug, Clone, Copy, PartialEq, Eq, Hash, Structural)]
pub struct TinyPost {
    pub post_id: i64,
    pub created_at: i64,
}

impl TinyPost {
    /// Creates a reference to post `post_id` created at `created_at`.
    pub fn new(post_id: i64, created_at: i64) -> (r: Self)
        ensures
            r.post_id == post_id,
            r.created_at == created_at,
    {
        TinyPost { post_id, created_at }
    }
}

/// `VecDeque::capacity`: how many entries `t` holds before it reallocates. Nothing is promised
/// of the value: it is what the allocator gave.
#[verifier::external_body]
pub fn timeline_capacity(t: &VecDeque<TinyPost>) -> usize {
    t.capacity()
}

/// `VecDeque::shrink_to`: gives back memory down to `min_capacity`; the entries stay as they are.
#[verifier::external_body]
pub fn timeline_shrink_to(t: &mut VecDeque<TinyPost>, min_capacity: usize)
    ensures
        final(t)@ == old(t)@,
{
    t.shrink_to(min_capacity)
}

} // verus!
