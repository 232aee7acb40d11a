use vstd::prelude::*;
use crate::light_post::LightPost;
use crate::timeline::TinyPost;

verus! {

/// Every key of `s` is at least the next one, and entries with equal keys keep ascending
/// positions (`.1`).
pub open spec fn keys_descending_stable(s: Seq<(i64, usize)>) -> bool {
    forall|i: int, j: int|
        0 <= i < j < s.len() ==> #[trigger] s[i].0 > #[trigger] s[j].0 || (s[i].0 == s[j].0 && s[i].1
            < s[j].1)
}

/// Sorts `(key, position)` pairs by descending key with `slice::sort_by_key`, which is stable:
/// pairs with equal keys keep their order, and since each pair starts at its own position, that
/// order is by ascending position. The result holds the same pairs.
#[verifier::external_body]
pub fn sort_keys_descending(v: &mut Vec<(i64, usize)>)
    requires
        forall|k: int| 0 <= k < old(v)@.len() ==> #[trigger] old(v)@[k].1 == k,
    ensures
        final(v)@.to_multiset() == old(v)@.to_multiset(),
        keys_descending_stable(final(v)@),
{
    v.sort_by_key(|p| std::cmp::Reverse(p.0));
}

/// The posts of `s` are in order of creation time (oldest first).
pub open spec fn posts_by_creation(s: Seq<LightPost>) -> bool {
    forall|i: int, j: int| 0 <= i < j < s.len() ==> (#[trigger] s[i]).created_at <= (#[trigger] s[j]).created_at
}

/// The entries of `s` are in order of creation time (oldest first).
pub open spec fn entries_by_creation(s: Seq<TinyPost>) -> bool {
    forall|i: int, j: int| 0 <= i < j < s.len() ==> (#[trigger] s[i]).created_at <= (#[trigger] s[j]).created_at
}

/// Sorts posts by creation time with `slice::sort_unstable_by_key`: the result holds the same
/// posts, oldest first; the order of posts created at the same time is not promised.
#[verifier::external_body]
pub fn sort_posts_by_creation(v: &mut Vec<LightPost>)
    ensures
        final(v)@.to_multiset() == old(v)@.to_multiset(),
        posts_by_creation(final(v)@),
{
    v.sort_unstable_by_key(|p| p.created_at);
}

/// Sorts timeline entries by creation time with `slice::sort_unstable_by_key`: the result holds
/// the same entries, oldest first; the order of entries created at the same time is not promised.
#[verifier::external_body]
pub fn sort_entries_by_creation(v: &mut Vec<TinyPost>)
    ensures
        final(v)@.to_multiset() == old(v)@.to_multiset(),
        entries_by_creation(final(v)@),
{
    v.sort_unstable_by_key(|p| p.created_at);
}

} // verus!
