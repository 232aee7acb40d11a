use vstd::prelude::*;
use std::collections::VecDeque;
use dashmap::DashMap;
use dashmap::mapref::one::Ref;
use crate::light_post::LightPost;
use crate::timeline::TinyPost;

verus! {

#[verifier::external_type_specification]
#[verifier::external_body]
#[verifier::reject_recursive_types(K)]
#[verifier::reject_recursive_types(V)]
#[verifier::reject_recursive_types(S)]
pub struct ExDashMap<K, V, S>(DashMap<K, V, S>);

#[verifier::external_type_specification]
#[verifier::external_body]
#[verifier::reject_recursive_types(K)]
#[verifier::reject_recursive_types(V)]
pub struct ExRef<'a, K, V>(Ref<'a, K, V>);

// The names below take a map's entries as the value of the map itself. That holds while the map
// is changed only through the `&mut` wrappers of this file; a write through `DashMap`'s own
// shared-reference methods during a read would change the entries behind it. The maps of this
// crate are private fields of the post store, which no function hands out.

/// The entries of a concurrent map of posts by id.
pub uninterp spec fn stored_posts(m: DashMap<i64, LightPost>) -> Map<i64, LightPost>;

/// The entries of a concurrent map of flags by post id.
pub uninterp spec fn flagged_ids(m: DashMap<i64, bool>) -> Map<i64, bool>;

/// The entries of a concurrent map of timelines by user id, each timeline as its sequence.
pub uninterp spec fn timelines(m: DashMap<i64, VecDeque<TinyPost>>) -> Map<i64, Seq<TinyPost>>;

/// The timeline that a read guard of a timeline map refers to.
pub uninterp spec fn guarded_timeline(r: Ref<'_, i64, VecDeque<TinyPost>>) -> Seq<TinyPost>;

/// `keys` lists each key of `m` once.
pub open spec fn enumerates<V>(keys: Seq<i64>, m: Map<i64, V>) -> bool {
    keys.no_duplicates() && keys.to_set() =~= m.dom()
}

// ---- posts by id ----

/// `DashMap::new`: an empty map.
#[verifier::external_body]
pub fn posts_new() -> (m: DashMap<i64, LightPost>)
    ensures
        stored_posts(m) =~= Map::empty(),
{
    DashMap::new()
}

/// `DashMap::get`, copying the value out: the post stored under `id`, if any.
#[verifier::external_body]
pub fn posts_get(m: &DashMap<i64, LightPost>, id: i64) -> (r: Option<LightPost>)
    ensures
        r == stored_posts(*m).get(id),
{
    m.get(&id).map(|entry| *entry.value())
}

/// `DashMap::insert`: stores `post` under `id` and returns the post it replaces, if any.
#[verifier::external_body]
pub fn posts_insert(m: &mut DashMap<i64, LightPost>, id: i64, post: LightPost) -> (r: Option<
    LightPost,
>)
    ensures
        stored_posts(*final(m)) == stored_posts(*old(m)).insert(id, post),
        r == stored_posts(*old(m)).get(id),
{
    m.insert(id, post)
}

/// `DashMap::remove`: drops the post stored under `id`, if any.
#[verifier::external_body]
pub fn posts_remove(m: &mut DashMap<i64, LightPost>, id: i64) -> (r: Option<LightPost>)
    ensures
        stored_posts(*final(m)) == stored_posts(*old(m)).remove(id),
        r == stored_posts(*old(m)).get(id),
{
    m.remove(&id).map(|(_, post)| post)
}

/// `DashMap::clear`: drops every post.
#[verifier::external_body]
pub fn posts_clear(m: &mut DashMap<i64, LightPost>)
    ensures
        stored_posts(*final(m)) =~= Map::empty(),
{
    m.clear()
}

/// `DashMap::len`: the number of stored posts.
#[verifier::external_body]
pub fn posts_len(m: &DashMap<i64, LightPost>) -> (r: usize)
    ensures
        r == stored_posts(*m).len(),
{
    m.len()
}

// ---- flags by post id ----

/// `DashMap::new`: an empty map.
#[verifier::external_body]
pub fn flags_new() -> (m: DashMap<i64, bool>)
    ensures
        flagged_ids(m) =~= Map::empty(),
{
    DashMap::new()
}

/// `DashMap::insert`: sets the flag of `id` to `value`.
#[verifier::external_body]
pub fn flags_insert(m: &mut DashMap<i64, bool>, id: i64, value: bool) -> (r: Option<bool>)
    ensures
        flagged_ids(*final(m)) == flagged_ids(*old(m)).insert(id, value),
        r == flagged_ids(*old(m)).get(id),
{
    m.insert(id, value)
}

/// `DashMap::remove`: drops the flag of `id`, if any.
#[verifier::external_body]
pub fn flags_remove(m: &mut DashMap<i64, bool>, id: i64) -> (r: Option<bool>)
    ensures
        flagged_ids(*final(m)) == flagged_ids(*old(m)).remove(id),
        r == flagged_ids(*old(m)).get(id),
{
    m.remove(&id).map(|(_, value)| value)
}

/// `DashMap::contains_key`: whether `id` has a flag.
#[verifier::external_body]
pub fn flags_contains(m: &DashMap<i64, bool>, id: i64) -> (r: bool)
    ensures
        r == flagged_ids(*m).contains_key(id),
{
    m.contains_key(&id)
}

/// `DashMap::iter`, keeping the keys: each flagged id once, in the map's own order.
#[verifier::external_body]
pub fn flags_keys(m: &DashMap<i64, bool>) -> (r: Vec<i64>)
    ensures
        enumerates(r@, flagged_ids(*m)),
{
    m.iter().map(|entry| *entry.key()).collect()
}

/// `DashMap::len`: the number of flagged ids.
#[verifier::external_body]
pub fn flags_len(m: &DashMap<i64, bool>) -> (r: usize)
    ensures
        r == flagged_ids(*m).len(),
{
    m.len()
}

// ---- timelines by user id ----

/// `DashMap::new`: an empty map.
#[verifier::external_body]
pub fn timelines_new() -> (m: DashMap<i64, VecDeque<TinyPost>>)
    ensures
        timelines(m) =~= Map::empty(),
{
    DashMap::new()
}

/// `DashMap::get`: a read guard on the timeline of `user`, if there is one.
#[verifier::external_body]
pub fn timeline_get<'a>(m: &'a DashMap<i64, VecDeque<TinyPost>>, user: i64) -> (r: Option<
    Ref<'a, i64, VecDeque<TinyPost>>,
>)
    ensures
        r is Some <==> timelines(*m).contains_key(user),
        r matches Some(guard) ==> guarded_timeline(guard) == timelines(*m)[user],
{
    m.get(&user)
}

/// `Ref::value`: the timeline that `guard` holds.
#[verifier::external_body]
pub fn guarded_value<'b>(guard: &'b Ref<'_, i64, VecDeque<TinyPost>>) -> (r: &'b VecDeque<TinyPost>)
    ensures
        r@ == guarded_timeline(*guard),
{
    guard.value()
}

/// `DashMap::remove`: takes the timeline of `user` out of the map, if there is one.
#[verifier::external_body]
pub fn timelines_take(m: &mut DashMap<i64, VecDeque<TinyPost>>, user: i64) -> (r: Option<
    VecDeque<TinyPost>,
>)
    ensures
        timelines(*final(m)) == timelines(*old(m)).remove(user),
        r is Some <==> timelines(*old(m)).contains_key(user),
        r matches Some(t) ==> t@ == timelines(*old(m))[user],
{
    m.remove(&user).map(|(_, timeline)| timeline)
}

/// `DashMap::insert`: stores `timeline` as the timeline of `user`.
#[verifier::external_body]
pub fn timelines_put(m: &mut DashMap<i64, VecDeque<TinyPost>>, user: i64, timeline: VecDeque<TinyPost>)
    ensures
        timelines(*final(m)) == timelines(*old(m)).insert(user, timeline@),
{
    m.insert(user, timeline);
}

/// `DashMap::iter`, keeping the keys: each user with a timeline once, in the map's own order.
#[verifier::external_body]
pub fn timelines_keys(m: &DashMap<i64, VecDeque<TinyPost>>) -> (r: Vec<i64>)
    ensures
        enumerates(r@, timelines(*m)),
{
    m.iter().map(|entry| *entry.key()).collect()
}

/// `DashMap::len`: the number of users with a timeline.
#[verifier::external_body]
pub fn timelines_len(m: &DashMap<i64, VecDeque<TinyPost>>) -> (r: usize)
    ensures
        r == timelines(*m).len(),
{
    m.len()
}

/// `DashMap::clear`: drops every timeline.
#[verifier::external_body]
pub fn timelines_clear(m: &mut DashMap<i64, VecDeque<TinyPost>>)
    ensures
        timelines(*final(m)) =~= Map::empty(),
{
    m.clear()
}

} // verus!
