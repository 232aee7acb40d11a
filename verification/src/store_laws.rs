use vstd::prelude::*;
use crate::light_post::{LightPost, TweetDeleteEvent};
use crate::ordering::{entries_by_creation, posts_by_creation};
use crate::store_model::{
    PostStoreView, after_trim, entry_of, inserted_at, recent_posts, with_posts, appended,
    is_recent, expired_prefix_len, first_eligible, is_expired,
    is_original, lemma_expired_prefix, posts_for_users, scan_window, timeline_or_empty,
    user_posts, with_deletion, with_deletions, with_post, without_deleted_posts,
};
use crate::config::DELETE_EVENT_KEY;
use crate::timeline::TinyPost;
use crate::post_store::{elapsed_reading, stopped_only_on_timeout};
use std::time::Instant;

verus! {

/// A post that was deleted is not stored again when it comes in afterwards: taking it in leaves
/// the store as the deletion left it.
pub proof fn lemma_deleted_post_stays_out(s: PostStoreView, event: TweetDeleteEvent, post: LightPost)
    requires
        post.post_id == event.post_id,
    ensures
        with_post(with_deletion(s, event), post) == with_deletion(s, event),
        !with_post(with_deletion(s, event), post).posts.contains_key(post.post_id),
{
}

/// Taking in the same post twice adds it to the timelines once: the second time only the stored
/// copy is replaced.
pub proof fn lemma_insert_twice_adds_one_entry(s: PostStoreView, post: LightPost)
    ensures
        with_post(with_post(s, post), post).original == with_post(s, post).original,
        with_post(with_post(s, post), post).secondary == with_post(s, post).secondary,
        with_post(with_post(s, post), post).video == with_post(s, post).video,
        with_post(with_post(s, post), post).posts == with_post(s, post).posts,
{
    let t = with_post(s, post);
    if !s.deleted.contains(post.post_id) {
        assert(t.posts.contains_key(post.post_id));
        assert(t.posts.insert(post.post_id, post) =~= t.posts);
    }
}

/// What is read back of a write: after a new original post comes in (not deleted, not stored
/// before), the first post that a read of its author's original timeline hands out is that post,
/// unless the request excludes it.
pub proof fn lemma_new_original_post_is_read_first(
    s: PostStoreView,
    post: LightPost,
    max_per_user: nat,
    excluded: Set<i64>,
    request_user_id: i64,
)
    requires
        !s.deleted.contains(post.post_id),
        !s.posts.contains_key(post.post_id),
        is_original(post),
        !excluded.contains(post.post_id),
        max_per_user >= 1,
    ensures
        ({
            let t = with_post(s, post);
            let read = user_posts(t, t.original[post.author_id], max_per_user, excluded, Set::empty(), request_user_id);
            &&& t.original.contains_key(post.author_id)
            &&& read.len() >= 1
            &&& read[0] == post
        }),
{
    let t = with_post(s, post);
    let timeline = t.original[post.author_id];
    assert(timeline == timeline_or_empty(s.original, post.author_id).push(entry_of(post)));
    assert(timeline.last() == entry_of(post));
    let window = scan_window(timeline, excluded, crate::config::MAX_TINY_POSTS_PER_USER_SCAN as nat);
    assert(window[0] == entry_of(post));
    assert(t.posts[post.post_id] == post);
    assert(Set::<i64>::empty().is_empty());
}

/// Every post that a read hands out is one whose id is not marked deleted.
pub proof fn lemma_read_skips_deleted(
    s: PostStoreView,
    m: Map<i64, Seq<TinyPost>>,
    users: Seq<i64>,
    max_per_user: nat,
    excluded: Set<i64>,
    following: Set<i64>,
    request_user_id: i64,
)
    ensures
        forall|k: int|
            0 <= k < posts_for_users(s, m, users, max_per_user, excluded, following, request_user_id).len()
                ==> !s.deleted.contains(
                #[trigger] posts_for_users(s, m, users, max_per_user, excluded, following, request_user_id)[k].post_id,
            ),
    decreases users.len(),
{
    if users.len() > 0 {
        lemma_read_skips_deleted(s, m, users.drop_last(), max_per_user, excluded, following, request_user_id);
        let user = users.last();
        if m.contains_key(user) {
            let w = scan_window(m[user], excluded, crate::config::MAX_TINY_POSTS_PER_USER_SCAN as nat);
            lemma_first_eligible_facts(s, w, following, request_user_id, max_per_user);
        }
    }
}

/// A read of one author hands out at most `max_per_user` posts, each stored, not deleted,
/// referred to by a timeline entry that is not excluded (when posts are stored under their ids),
/// and never a retweet of the requester's own post.
pub proof fn lemma_user_read_bounds(
    s: PostStoreView,
    timeline: Seq<TinyPost>,
    max_per_user: nat,
    excluded: Set<i64>,
    following: Set<i64>,
    request_user_id: i64,
)
    requires
        s.posts_keyed_by_id(),
    ensures
        ({
            let read = user_posts(s, timeline, max_per_user, excluded, following, request_user_id);
            &&& read.len() <= max_per_user
            &&& forall|k: int|
                0 <= k < read.len() ==> {
                    &&& s.posts.contains_key(#[trigger] read[k].post_id)
                    &&& !s.deleted.contains(read[k].post_id)
                    &&& !excluded.contains(read[k].post_id)
                    &&& !(read[k].is_retweet && read[k].source_user_id == Some(request_user_id))
                }
        }),
{
    let w = scan_window(timeline, excluded, crate::config::MAX_TINY_POSTS_PER_USER_SCAN as nat);
    lemma_window_not_excluded(timeline, excluded, crate::config::MAX_TINY_POSTS_PER_USER_SCAN as nat);
    lemma_first_eligible_facts(s, w, following, request_user_id, max_per_user);
}

/// The entries of a scan window are entries whose ids are not excluded.
proof fn lemma_window_not_excluded(timeline: Seq<TinyPost>, excluded: Set<i64>, limit: nat)
    ensures
        forall|k: int|
            0 <= k < scan_window(timeline, excluded, limit).len() ==> !excluded.contains(
                #[trigger] scan_window(timeline, excluded, limit)[k].post_id,
            ),
    decreases timeline.len(),
{
    if timeline.len() > 0 && limit > 0 {
        if excluded.contains(timeline.last().post_id) {
            lemma_window_not_excluded(timeline.drop_last(), excluded, limit);
            assert(scan_window(timeline, excluded, limit) == scan_window(timeline.drop_last(), excluded, limit));
        } else {
            lemma_window_not_excluded(timeline.drop_last(), excluded, (limit - 1) as nat);
            let rest = scan_window(timeline.drop_last(), excluded, (limit - 1) as nat);
            assert forall|k: int|
                0 <= k < scan_window(timeline, excluded, limit).len() implies !excluded.contains(
                #[trigger] scan_window(timeline, excluded, limit)[k].post_id,
            ) by {
                if k > 0 {
                    assert(scan_window(timeline, excluded, limit)[k] == rest[k - 1]);
                } else {
                    assert(scan_window(timeline, excluded, limit)[0] == timeline.last());
                }
            }
        }
    }
}

/// The posts that `first_eligible` picks: at most `limit`, each stored, eligible, and referred
/// to by an entry of the window.
proof fn lemma_first_eligible_facts(
    s: PostStoreView,
    window: Seq<TinyPost>,
    following: Set<i64>,
    request_user_id: i64,
    limit: nat,
)
    ensures
        first_eligible(s, window, following, request_user_id, limit).len() <= limit,
        forall|k: int|
            0 <= k < first_eligible(s, window, following, request_user_id, limit).len() ==> {
                let post = #[trigger] first_eligible(s, window, following, request_user_id, limit)[k];
                &&& exists|j: int| 0 <= j < window.len() && s.posts.contains_key(window[j].post_id)
                    && s.posts[window[j].post_id] == post
                &&& !s.deleted.contains(post.post_id)
                &&& !(post.is_retweet && post.source_user_id == Some(request_user_id))
                &&& crate::store_model::reply_visible(post, s.posts, following)
            },
    decreases window.len(),
{
    if window.len() > 0 && limit > 0 {
        let id = window[0].post_id;
        let picked = s.posts.contains_key(id) && crate::store_model::post_eligible(
            s,
            s.posts[id],
            following,
            request_user_id,
        );
        let next_limit: nat = if picked { (limit - 1) as nat } else { limit };
        lemma_first_eligible_facts(s, window.drop_first(), following, request_user_id, next_limit);
        let rest = first_eligible(s, window.drop_first(), following, request_user_id, next_limit);
        let all = first_eligible(s, window, following, request_user_id, limit);
        assert forall|k: int| 0 <= k < all.len() implies {
            let post = #[trigger] all[k];
            &&& exists|j: int| 0 <= j < window.len() && s.posts.contains_key(window[j].post_id)
                && s.posts[window[j].post_id] == post
            &&& !s.deleted.contains(post.post_id)
            &&& !(post.is_retweet && post.source_user_id == Some(request_user_id))
            &&& crate::store_model::reply_visible(post, s.posts, following)
        } by {
            if picked {
                if k == 0 {
                    assert(all[0] == s.posts[id]);
                    assert(0 <= 0 < window.len() && s.posts.contains_key(window[0].post_id));
                } else {
                    assert(all[k] == rest[k - 1]);
                    let j = choose|j: int|
                        0 <= j < window.drop_first().len() && s.posts.contains_key(
                            window.drop_first()[j].post_id,
                        ) && s.posts[window.drop_first()[j].post_id] == rest[k - 1];
                    assert(window[j + 1] == window.drop_first()[j]);
                }
            } else {
                assert(all[k] == rest[k]);
                let j = choose|j: int|
                    0 <= j < window.drop_first().len() && s.posts.contains_key(
                        window.drop_first()[j].post_id,
                    ) && s.posts[window.drop_first()[j].post_id] == rest[k];
                assert(window[j + 1] == window.drop_first()[j]);
            }
        }
    }
}

/// Trimming leaves no timeline whose oldest entry (the front) is expired; when the timelines are
/// sorted oldest first, it leaves no expired entry at all.
pub proof fn lemma_trim_leaves_no_expired(s: PostStoreView, now: u64)
    ensures
        forall|user: i64|
            #[trigger] after_trim(s, now).original.contains_key(user) ==> !is_expired(
                after_trim(s, now).original[user][0],
                now,
                s.retention_seconds,
            ),
        forall|user: i64, j: int|
            after_trim(s, now).original.contains_key(user) && entries_by_creation(s.original[user])
                && 0 <= j < after_trim(s, now).original[user].len() ==> !is_expired(
                #[trigger] after_trim(s, now).original[user][j],
                now,
                s.retention_seconds,
            ),
{
    let r = s.retention_seconds;
    assert forall|user: i64| #[trigger] after_trim(s, now).original.contains_key(user) implies !is_expired(
        after_trim(s, now).original[user][0],
        now,
        r,
    ) by {
        let t = s.original[user];
        lemma_expired_prefix(t, now, r);
        let c = expired_prefix_len(t, now, r);
        assert(after_trim(s, now).original[user][0] == t[c as int]);
    }
    assert forall|user: i64, j: int|
        after_trim(s, now).original.contains_key(user) && entries_by_creation(s.original[user]) && 0
            <= j < after_trim(s, now).original[user].len() implies !is_expired(
        #[trigger] after_trim(s, now).original[user][j],
        now,
        r,
    ) by {
        let t = s.original[user];
        lemma_expired_prefix(t, now, r);
        let c = expired_prefix_len(t, now, r);
        assert(after_trim(s, now).original[user][j] == t[c + j]);
        assert(t[c + j].created_at >= t[c as int].created_at);
    }
}

/// After the deleted posts are dropped, no stored post has a deleted id.
pub proof fn lemma_no_deleted_post_stored(s: PostStoreView)
    ensures
        forall|id: i64|
            #[trigger] without_deleted_posts(s).posts.contains_key(id) ==> !without_deleted_posts(
                s,
            ).deleted.contains(id),
{
}

/// The entries of the timeline of `user` in `m` that refer to post `id`.
pub open spec fn entries_for(m: Map<i64, Seq<TinyPost>>, user: i64, id: i64) -> Seq<TinyPost> {
    timeline_or_empty(m, user).filter(|t: TinyPost| t.post_id == id)
}

/// Adding an entry for another post leaves the entries for `id` as they are.
proof fn lemma_append_other(m: Map<i64, Seq<TinyPost>>, author: i64, entry: TinyPost, id: i64)
    requires
        entry.post_id != id,
    ensures
        forall|user: i64| #[trigger] entries_for(appended(m, author, entry), user, id) == entries_for(m, user, id),
{
    assert forall|user: i64| #[trigger] entries_for(appended(m, author, entry), user, id) == entries_for(m, user, id) by {
        if user == author {
            let p = |t: TinyPost| t.post_id == id;
            let t = timeline_or_empty(m, user);
            reveal(Seq::filter);
            assert(t.push(entry).drop_last() =~= t);
            assert(timeline_or_empty(appended(m, author, entry), user) == t.push(entry));
        }
    }
}

/// Once an id is marked deleted, no batch of posts that comes in brings it back: the store does
/// not hold a post with that id afterwards, no timeline gains an entry for it, and the deleted
/// ids stay as they were.
pub proof fn lemma_deleted_id_stays_out_of_batch(s: PostStoreView, posts: Seq<LightPost>, id: i64)
    requires
        s.deleted.contains(id),
        !s.posts.contains_key(id),
    ensures
        with_posts(s, posts).deleted == s.deleted,
        !with_posts(s, posts).posts.contains_key(id),
        forall|user: i64| #[trigger] entries_for(with_posts(s, posts).original, user, id) == entries_for(s.original, user, id),
        forall|user: i64| #[trigger] entries_for(with_posts(s, posts).secondary, user, id) == entries_for(s.secondary, user, id),
        forall|user: i64| #[trigger] entries_for(with_posts(s, posts).video, user, id) == entries_for(s.video, user, id),
    decreases posts.len(),
{
    if posts.len() > 0 {
        let prev = with_posts(s, posts.drop_last());
        lemma_deleted_id_stays_out_of_batch(s, posts.drop_last(), id);
        let post = posts.last();
        if !prev.deleted.contains(post.post_id) && !prev.posts.contains_key(post.post_id) {
            assert(post.post_id != id);
            let e = entry_of(post);
            lemma_append_other(prev.original, post.author_id, e, id);
            lemma_append_other(prev.secondary, post.author_id, e, id);
            lemma_append_other(prev.video, post.author_id, e, id);
        }
    }
}

/// A post that was deleted is not handed out by any read after later batches of posts come in.
pub proof fn lemma_deleted_id_never_served(
    s: PostStoreView,
    posts: Seq<LightPost>,
    id: i64,
    m: Map<i64, Seq<TinyPost>>,
    users: Seq<i64>,
    max_per_user: nat,
    excluded: Set<i64>,
    following: Set<i64>,
    request_user_id: i64,
)
    requires
        s.deleted.contains(id),
        !s.posts.contains_key(id),
    ensures
        forall|k: int|
            0 <= k < posts_for_users(with_posts(s, posts), m, users, max_per_user, excluded, following, request_user_id).len()
                ==> (#[trigger] posts_for_users(with_posts(s, posts), m, users, max_per_user, excluded, following, request_user_id)[k]).post_id != id,
{
    lemma_deleted_id_stays_out_of_batch(s, posts, id);
    lemma_read_skips_deleted(with_posts(s, posts), m, users, max_per_user, excluded, following, request_user_id);
}

/// The deletion timeline entry of a deletion event: the post id with the deletion time.
pub open spec fn deletion_entry(event: TweetDeleteEvent) -> TinyPost {
    TinyPost { post_id: event.post_id, created_at: event.deleted_at }
}

/// Deletion events go to the deletion timeline in the order they come: it becomes the timeline
/// before followed by one entry per event.
pub proof fn lemma_deletions_appended_in_order(s: PostStoreView, events: Seq<TweetDeleteEvent>)
    ensures
        timeline_or_empty(with_deletions(s, events).original, DELETE_EVENT_KEY) == timeline_or_empty(
            s.original,
            DELETE_EVENT_KEY,
        ) + events.map_values(|e: TweetDeleteEvent| deletion_entry(e)),
    decreases events.len(),
{
    let f = |e: TweetDeleteEvent| deletion_entry(e);
    if events.len() == 0 {
        assert(timeline_or_empty(s.original, DELETE_EVENT_KEY) + events.map_values(f) =~= timeline_or_empty(s.original, DELETE_EVENT_KEY));
    } else {
        lemma_deletions_appended_in_order(s, events.drop_last());
        let base = timeline_or_empty(s.original, DELETE_EVENT_KEY);
        assert((base + events.drop_last().map_values(f)).push(f(events.last())) =~= base + events.map_values(f));
    }
}

/// Each timeline of `m` is a prefix of the same user's timeline in `later`.
pub open spec fn timelines_extended(m: Map<i64, Seq<TinyPost>>, later: Map<i64, Seq<TinyPost>>) -> bool {
    forall|user: i64| #[trigger] m.contains_key(user) ==> later.contains_key(user) && m[user].is_prefix_of(later[user])
}

/// Every map of timelines extends itself.
proof fn lemma_extended_refl(m: Map<i64, Seq<TinyPost>>)
    ensures
        timelines_extended(m, m),
{
    assert forall|user: i64| #[trigger] m.contains_key(user) implies m[user].is_prefix_of(m[user]) by {
        assert(m[user] =~= m[user].subrange(0, m[user].len() as int));
    }
}

/// Extending is transitive.
proof fn lemma_extended_trans(a: Map<i64, Seq<TinyPost>>, b: Map<i64, Seq<TinyPost>>, c: Map<i64, Seq<TinyPost>>)
    requires
        timelines_extended(a, b),
        timelines_extended(b, c),
    ensures
        timelines_extended(a, c),
{
    assert forall|user: i64| #[trigger] a.contains_key(user) implies c.contains_key(user) && a[user].is_prefix_of(c[user]) by {
        assert(b.contains_key(user));
        assert forall|j: int| 0 <= j < a[user].len() implies a[user][j] == c[user][j] by {
            assert(a[user][j] == b[user].subrange(0, a[user].len() as int)[j]);
            assert(b[user][j] == c[user].subrange(0, b[user].len() as int)[j]);
        }
        assert(a[user] =~= c[user].subrange(0, a[user].len() as int));
    }
}

/// Adding an entry at the newest end extends the timelines.
proof fn lemma_appended_extends(m: Map<i64, Seq<TinyPost>>, user: i64, entry: TinyPost)
    ensures
        timelines_extended(m, appended(m, user, entry)),
{
    let later = appended(m, user, entry);
    assert forall|u: i64| #[trigger] m.contains_key(u) implies later.contains_key(u) && m[u].is_prefix_of(later[u]) by {
        if u == user {
            assert(m[u] =~= m[u].push(entry).subrange(0, m[u].len() as int));
        } else {
            assert(m[u] =~= later[u].subrange(0, m[u].len() as int));
        }
    }
}

/// Taking in posts only adds entries at the newest end (the back) of timelines: each timeline
/// before is a prefix of the same user's timeline after, and the deleted ids stay as they were.
pub proof fn lemma_insert_only_appends(s: PostStoreView, posts: Seq<LightPost>)
    ensures
        with_posts(s, posts).deleted == s.deleted,
        timelines_extended(s.original, with_posts(s, posts).original),
        timelines_extended(s.secondary, with_posts(s, posts).secondary),
        timelines_extended(s.video, with_posts(s, posts).video),
    decreases posts.len(),
{
    if posts.len() == 0 {
        lemma_extended_refl(s.original);
        lemma_extended_refl(s.secondary);
        lemma_extended_refl(s.video);
    } else {
        let prev = with_posts(s, posts.drop_last());
        let post = posts.last();
        let next = with_post(prev, post);
        lemma_insert_only_appends(s, posts.drop_last());
        let e = entry_of(post);
        lemma_appended_extends(prev.original, post.author_id, e);
        lemma_appended_extends(prev.secondary, post.author_id, e);
        lemma_appended_extends(prev.video, post.author_id, e);
        lemma_extended_refl(prev.original);
        lemma_extended_refl(prev.secondary);
        lemma_extended_refl(prev.video);
        assert(timelines_extended(prev.original, next.original));
        assert(timelines_extended(prev.secondary, next.secondary));
        assert(timelines_extended(prev.video, next.video));
        lemma_extended_trans(s.original, prev.original, next.original);
        lemma_extended_trans(s.secondary, prev.secondary, next.secondary);
        lemma_extended_trans(s.video, prev.video, next.video);
    }
}

/// Once an id is marked deleted, a later insert at any time `now` leaves the deletions as they
/// were and does not store the post again, nor add an entry for it to any timeline.
pub proof fn lemma_deleted_id_stays_out_of_insert(
    s: PostStoreView,
    posts: Seq<LightPost>,
    now: i64,
    result: PostStoreView,
    id: i64,
)
    requires
        s.deleted.contains(id),
        !s.posts.contains_key(id),
        inserted_at(s, posts, now, result),
    ensures
        result.deleted == s.deleted,
        !result.posts.contains_key(id),
        forall|user: i64| #[trigger] entries_for(result.original, user, id) == entries_for(s.original, user, id),
        forall|user: i64| #[trigger] entries_for(result.secondary, user, id) == entries_for(s.secondary, user, id),
        forall|user: i64| #[trigger] entries_for(result.video, user, id) == entries_for(s.video, user, id),
{
    let ordered = choose|ordered: Seq<LightPost>|
        {
            &&& ordered.to_multiset() == recent_posts(posts, now, s.retention_seconds).to_multiset()
            &&& posts_by_creation(ordered)
            &&& result == with_posts(s, ordered)
        };
    lemma_deleted_id_stays_out_of_batch(s, ordered, id);
}

/// A deletion is kept through later deletions and batches of posts, and through sorting: the id
/// stays marked deleted (only a trim that drops its entry from the deletion timeline forgets it).
pub proof fn lemma_deletion_persists(
    s: PostStoreView,
    id: i64,
    events: Seq<TweetDeleteEvent>,
    posts: Seq<LightPost>,
    sorted: PostStoreView,
)
    requires
        s.deleted.contains(id),
        crate::store_model::sorted_store(s, sorted),
    ensures
        with_deletions(s, events).deleted.contains(id),
        with_posts(s, posts).deleted.contains(id),
        sorted.deleted.contains(id),
    decreases events.len() + posts.len(),
{
    if events.len() > 0 {
        lemma_deletion_persists(s, id, events.drop_last(), Seq::empty(), sorted);
    }
    if posts.len() > 0 {
        lemma_deletion_persists(s, id, Seq::empty(), posts.drop_last(), sorted);
    }
}

/// The posts of `s` have pairwise distinct creation times.
pub open spec fn distinct_creation_times(s: Seq<LightPost>) -> bool {
    forall|i: int, j: int| 0 <= i < j < s.len() ==> (#[trigger] s[i]).created_at != (#[trigger] s[j]).created_at
}

/// How often `x` occurs among the posts of `s` that pass `p`.
proof fn lemma_filter_count(s: Seq<LightPost>, p: spec_fn(LightPost) -> bool, x: LightPost)
    ensures
        s.filter(p).to_multiset().count(x) == if p(x) { s.to_multiset().count(x) } else { 0 },
    decreases s.len(),
{
    broadcast use vstd::seq_lib::group_to_multiset_ensures, vstd::multiset::group_multiset_axioms;
    reveal(Seq::filter);
    if s.len() == 0 {
        assert(s.filter(p) =~= Seq::<LightPost>::empty());
        vstd::multiset::lemma_multiset_empty_len(Seq::<LightPost>::empty().to_multiset());
        vstd::multiset::lemma_multiset_empty_len(s.to_multiset());
    } else {
        lemma_filter_count(s.drop_last(), p, x);
        assert(s =~= s.drop_last().push(s.last()));
    }
}

/// Two orderings of the same posts, both oldest first with distinct creation times, are the same.
proof fn lemma_sorted_unique(a: Seq<LightPost>, b: Seq<LightPost>)
    requires
        a.to_multiset() == b.to_multiset(),
        posts_by_creation(a),
        posts_by_creation(b),
        distinct_creation_times(a),
    ensures
        a == b,
    decreases a.len(),
{
    broadcast use vstd::seq_lib::group_to_multiset_ensures, vstd::multiset::group_multiset_axioms;
    a.to_multiset_ensures();
    b.to_multiset_ensures();
    assert(a.to_multiset().len() == b.to_multiset().len());
    if a.len() == 0 {
        assert(a =~= b);
    } else {
        let x = a.last();
        let y = b.last();
        assert(b.to_multiset().count(y) > 0);
        assert(a.to_multiset().count(y) > 0);
        assert(a.contains(y));
        let k = choose|k: int| 0 <= k < a.len() && a[k] == y;
        assert(a.to_multiset().count(x) > 0);
        assert(b.to_multiset().count(x) > 0);
        assert(b.contains(x));
        let m = choose|m: int| 0 <= m < b.len() && b[m] == x;
        if k < a.len() - 1 {
            assert(a[k].created_at <= a[a.len() - 1].created_at);
            assert(b[m].created_at <= b[b.len() - 1].created_at);
            assert(false);
        }
        assert(x == y);
        assert(a =~= a.drop_last().push(x));
        assert(b =~= b.drop_last().push(x));
        assert(a.drop_last().to_multiset() =~= b.drop_last().to_multiset()) by {
            let ma = a.drop_last().to_multiset();
            let mb = b.drop_last().to_multiset();
            assert(a.drop_last().push(x).to_multiset() =~= ma.insert(x));
            assert(b.drop_last().push(x).to_multiset() =~= mb.insert(x));
            assert forall|z: LightPost| ma.count(z) == mb.count(z) by {
                assert(ma.insert(x).count(z) == mb.insert(x).count(z));
            }
        }
        lemma_sorted_unique(a.drop_last(), b.drop_last());
    }
}

/// The order in which a batch lists its posts does not matter when their creation times are
/// distinct: taking in any reordering at the same time `now` leaves the store the same.
pub proof fn lemma_insert_order_irrelevant(
    s: PostStoreView,
    posts: Seq<LightPost>,
    reordered: Seq<LightPost>,
    now: i64,
    r1: PostStoreView,
    r2: PostStoreView,
)
    requires
        reordered.to_multiset() == posts.to_multiset(),
        distinct_creation_times(posts),
        inserted_at(s, posts, now, r1),
        inserted_at(s, reordered, now, r2),
    ensures
        r1 == r2,
{
    broadcast use vstd::seq_lib::group_to_multiset_ensures, vstd::multiset::group_multiset_axioms;
    let p = |post: LightPost| is_recent(post, now, s.retention_seconds);
    let o1 = choose|ordered: Seq<LightPost>|
        {
            &&& ordered.to_multiset() == recent_posts(posts, now, s.retention_seconds).to_multiset()
            &&& posts_by_creation(ordered)
            &&& r1 == with_posts(s, ordered)
        };
    let o2 = choose|ordered: Seq<LightPost>|
        {
            &&& ordered.to_multiset() == recent_posts(reordered, now, s.retention_seconds).to_multiset()
            &&& posts_by_creation(ordered)
            &&& r2 == with_posts(s, ordered)
        };
    assert(recent_posts(posts, now, s.retention_seconds).to_multiset() =~= recent_posts(reordered, now, s.retention_seconds).to_multiset()) by {
        assert forall|x: LightPost| recent_posts(posts, now, s.retention_seconds).to_multiset().count(x)
            == recent_posts(reordered, now, s.retention_seconds).to_multiset().count(x) by {
            lemma_filter_count(posts, p, x);
            lemma_filter_count(reordered, p, x);
        }
    }
    // The posts of `o1` come from `posts`, which holds each at most once.
    assert(posts.no_duplicates()) by {
        assert forall|i: int, j: int| 0 <= i < posts.len() && 0 <= j < posts.len() && i != j implies posts[i] != posts[j] by {
            if i < j {
                assert(posts[i].created_at != posts[j].created_at);
            } else {
                assert(posts[j].created_at != posts[i].created_at);
            }
        }
    }
    posts.lemma_multiset_has_no_duplicates();
    assert forall|x: LightPost| o1.to_multiset().contains(x) implies o1.to_multiset().count(x) == 1 by {
        lemma_filter_count(posts, p, x);
    }
    o1.lemma_multiset_has_no_duplicates_conv();
    assert(distinct_creation_times(o1)) by {
        assert forall|i: int, j: int| 0 <= i < j < o1.len() implies (#[trigger] o1[i]).created_at != (#[trigger] o1[j]).created_at by {
            assert(o1.to_multiset().count(o1[i]) > 0);
            assert(o1.to_multiset().count(o1[j]) > 0);
            lemma_filter_count(posts, p, o1[i]);
            lemma_filter_count(posts, p, o1[j]);
            assert(posts.to_multiset().count(o1[i]) > 0);
            assert(posts.to_multiset().count(o1[j]) > 0);
            assert(posts.contains(o1[i]));
            assert(posts.contains(o1[j]));
            let a = choose|a: int| 0 <= a < posts.len() && posts[a] == o1[i];
            let b = choose|b: int| 0 <= b < posts.len() && posts[b] == o1[j];
            assert(o1[i] != o1[j]);
            assert(a != b);
            if a < b {
                assert(posts[a].created_at != posts[b].created_at);
            } else {
                assert(posts[b].created_at != posts[a].created_at);
            }
        }
    }
    lemma_sorted_unique(o1, o2);
}


/// A post enters its author's video timeline exactly when it is new (neither deleted nor stored
/// before), is no reply, and has a video itself or retweets a stored post that is no reply and
/// has a video; it then goes to the newest end (the back) of that timeline.
pub proof fn lemma_video_timeline_takes_video_posts(s: PostStoreView, post: LightPost)
    ensures
        ({
            let stored = s.posts.insert(post.post_id, post);
            let video_post = !post.is_reply && (post.has_video || (post.is_retweet && match post.source_post_id {
                Some(source) => stored.contains_key(source) && stored[source].has_video
                    && !stored[source].is_reply,
                None => false,
            }));
            &&& (with_post(s, post).video != s.video <==> (!s.deleted.contains(post.post_id)
                && !s.posts.contains_key(post.post_id) && video_post))
            &&& (with_post(s, post).video != s.video ==> with_post(s, post).video == s.video.insert(
                post.author_id,
                timeline_or_empty(s.video, post.author_id).push(entry_of(post)),
            ))
        }),
{
    let author = post.author_id;
    let grown = appended(s.video, author, entry_of(post));
    assert(grown[author].len() == timeline_or_empty(s.video, author).len() + 1);
    if s.video.contains_key(author) {
        assert(timeline_or_empty(s.video, author) == s.video[author]);
        if grown == s.video {
            assert(grown[author] == s.video[author]);
        }
    } else {
        assert(grown.contains_key(author));
    }
}

/// The ids named by deletion events.
pub open spec fn event_ids(events: Seq<TweetDeleteEvent>) -> Set<i64> {
    Set::new(|id: i64| exists|k: int| 0 <= k < events.len() && #[trigger] events[k].post_id == id)
}

/// Deletion events drop the post of every event and mark every event's id deleted, and nothing
/// else: no other post is dropped or id marked, and the reply and video timelines stay as they
/// were.
pub proof fn lemma_deletions_drop_and_mark(s: PostStoreView, events: Seq<TweetDeleteEvent>)
    ensures
        with_deletions(s, events).deleted == s.deleted + event_ids(events),
        with_deletions(s, events).posts == s.posts.remove_keys(event_ids(events)),
        with_deletions(s, events).secondary == s.secondary,
        with_deletions(s, events).video == s.video,
        forall|k: int|
            0 <= k < events.len() ==> with_deletions(s, events).deleted.contains(#[trigger] events[k].post_id)
                && !with_deletions(s, events).posts.contains_key(events[k].post_id),
    decreases events.len(),
{
    if events.len() == 0 {
        assert(event_ids(events) =~= Set::empty());
        assert(s.deleted + Set::empty() =~= s.deleted);
        assert(s.posts.remove_keys(Set::empty()) =~= s.posts);
    } else {
        let prev = events.drop_last();
        let last = events.last();
        lemma_deletions_drop_and_mark(s, prev);
        assert(event_ids(events) =~= event_ids(prev).insert(last.post_id)) by {
            assert forall|id: i64| event_ids(events).contains(id) implies event_ids(prev).insert(last.post_id).contains(id) by {
                let k = choose|k: int| 0 <= k < events.len() && #[trigger] events[k].post_id == id;
                if k < events.len() - 1 {
                    assert(prev[k].post_id == id);
                }
            }
            assert forall|id: i64| event_ids(prev).contains(id) implies event_ids(events).contains(id) by {
                let k = choose|k: int| 0 <= k < prev.len() && #[trigger] prev[k].post_id == id;
                assert(events[k].post_id == id);
            }
            assert(events[events.len() - 1].post_id == last.post_id);
        }
        assert(with_deletions(s, events).deleted =~= s.deleted + event_ids(events));
        assert(with_deletions(s, events).posts =~= s.posts.remove_keys(event_ids(events)));
    }
    assert forall|k: int| 0 <= k < events.len() implies with_deletions(s, events).deleted.contains(#[trigger] events[k].post_id)
        && !with_deletions(s, events).posts.contains_key(events[k].post_id) by {
        assert(event_ids(events).contains(events[k].post_id));
    }
}

/// The deletion timelines of `m` (under `DELETE_EVENT_KEY`) hold no entry for `id` that is
/// expired at time `now`.
pub open spec fn no_expired_deletion_entry(m: Map<i64, Seq<TinyPost>>, id: i64, now: u64, retention_seconds: u64) -> bool {
    let t = timeline_or_empty(m, DELETE_EVENT_KEY);
    forall|j: int| 0 <= j < t.len() && (#[trigger] t[j]).post_id == id ==> !is_expired(t[j], now, retention_seconds)
}

/// A deletion entry that is not expired keeps its id out of `expired_ids` for the deletion key.
proof fn lemma_unexpired_deletion_kept(m: Map<i64, Seq<TinyPost>>, id: i64, now: u64, retention_seconds: u64)
    requires
        no_expired_deletion_entry(m, id, now, retention_seconds),
    ensures
        !crate::store_model::expired_ids(m, set![DELETE_EVENT_KEY], now, retention_seconds).contains(id),
{
    if crate::store_model::expired_ids(m, set![DELETE_EVENT_KEY], now, retention_seconds).contains(id) {
        let (u, j) = choose|u: i64, j: int|
            #![trigger set![DELETE_EVENT_KEY].contains(u), m[u][j]]
            set![DELETE_EVENT_KEY].contains(u) && m.contains_key(u) && 0 <= j < expired_prefix_len(
                m[u],
                now,
                retention_seconds,
            ) && m[u][j].post_id == id;
        lemma_expired_prefix(m[u], now, retention_seconds);
        assert(u == DELETE_EVENT_KEY);
        assert(timeline_or_empty(m, DELETE_EVENT_KEY) == m[u]);
        assert(is_expired(m[u][j], now, retention_seconds));
    }
}

/// Trimming forgets a deletion only when it drops an expired entry for that id from a deletion
/// timeline: the deleted ids after a trim are among those before, and a deleted id without an
/// expired deletion entry stays deleted.
pub proof fn lemma_trim_keeps_unexpired_deletions(s: PostStoreView, now: u64)
    ensures
        after_trim(s, now).deleted.subset_of(s.deleted),
        forall|id: i64|
            #[trigger] s.deleted.contains(id) && no_expired_deletion_entry(s.original, id, now, s.retention_seconds)
                && no_expired_deletion_entry(s.secondary, id, now, s.retention_seconds)
                && no_expired_deletion_entry(s.video, id, now, s.retention_seconds) ==> after_trim(
                s,
                now,
            ).deleted.contains(id),
{
    let r = s.retention_seconds;
    assert forall|id: i64|
        #[trigger] s.deleted.contains(id) && no_expired_deletion_entry(s.original, id, now, r)
            && no_expired_deletion_entry(s.secondary, id, now, r)
            && no_expired_deletion_entry(s.video, id, now, r) implies after_trim(s, now).deleted.contains(id) by {
        lemma_unexpired_deletion_kept(s.original, id, now, r);
        lemma_unexpired_deletion_kept(s.secondary, id, now, r);
        lemma_unexpired_deletion_kept(s.video, id, now, r);
    }
}

/// Completing the initial load keeps every deletion that trimming keeps, and among the posts
/// left by trimming drops exactly those marked deleted; the timelines are those left by trimming.
/// A deleted id it keeps is not stored again by any later batch of posts.
pub proof fn lemma_finalize_keeps_deletions(
    s: PostStoreView,
    sorted: PostStoreView,
    now: u64,
    posts: Seq<LightPost>,
)
    requires
        crate::store_model::sorted_store(s, sorted),
    ensures
        ({
            let t = after_trim(sorted, now);
            let f = without_deleted_posts(t);
            &&& f.deleted == t.deleted
            &&& f.deleted.subset_of(s.deleted)
            &&& forall|id: i64| #[trigger] f.posts.contains_key(id) <==> t.posts.contains_key(id) && !t.deleted.contains(id)
            &&& forall|id: i64| #[trigger] f.posts.contains_key(id) ==> f.posts[id] == t.posts[id]
            &&& f.original == t.original && f.secondary == t.secondary && f.video == t.video
            &&& forall|id: i64| #[trigger] f.deleted.contains(id) ==> !with_posts(f, posts).posts.contains_key(id)
        }),
{
    let t = after_trim(sorted, now);
    let f = without_deleted_posts(t);
    lemma_trim_keeps_unexpired_deletions(sorted, now);
    assert forall|id: i64| #[trigger] f.deleted.contains(id) implies !with_posts(f, posts).posts.contains_key(id) by {
        lemma_deleted_id_stays_out_of_batch(f, posts, id);
    }
}

/// A read stops early only on a timeout: when every reading of the time elapsed since
/// `start_time` stays below the store's request timeout, the read covers every requested author.
pub proof fn lemma_read_within_timeout_covers_all(
    s: PostStoreView,
    m: Map<i64, Seq<TinyPost>>,
    users: Seq<i64>,
    max_per_user: nat,
    excluded: Set<i64>,
    following: Set<i64>,
    request_user_id: i64,
    start_time: Instant,
    n: int,
    result: Seq<LightPost>,
)
    requires
        crate::store_model::read_prefix(s, m, users, max_per_user, excluded, following, request_user_id, n, result),
        stopped_only_on_timeout(s.request_timeout_ms, start_time, n, users.len() as int),
        forall|elapsed_ms: u128| #[trigger] elapsed_reading(start_time, elapsed_ms) ==> elapsed_ms < s.request_timeout_ms,
    ensures
        n == users.len(),
        result == posts_for_users(s, m, users, max_per_user, excluded, following, request_user_id),
{
    assert(users.take(users.len() as int) =~= users);
}

/// Where a post goes when it comes in: a deleted post changes nothing; otherwise it is stored
/// under its id (replacing a stored copy), and when it is new its entry goes to the newest end of
/// its author's original timeline if it is neither a reply nor a retweet, else of its author's
/// reply-and-retweet timeline. A post stored before changes no timeline.
pub proof fn lemma_insert_places_post(s: PostStoreView, post: LightPost)
    ensures
        s.deleted.contains(post.post_id) ==> with_post(s, post) == s,
        !s.deleted.contains(post.post_id) ==> with_post(s, post).posts == s.posts.insert(post.post_id, post),
        with_post(s, post).deleted == s.deleted,
        s.posts.contains_key(post.post_id) ==> with_post(s, post).original == s.original
            && with_post(s, post).secondary == s.secondary && with_post(s, post).video == s.video,
        !s.deleted.contains(post.post_id) && !s.posts.contains_key(post.post_id) ==> {
            let entry = TinyPost { post_id: post.post_id, created_at: post.created_at };
            if !post.is_reply && !post.is_retweet {
                &&& with_post(s, post).original == s.original.insert(
                    post.author_id,
                    timeline_or_empty(s.original, post.author_id).push(entry),
                )
                &&& with_post(s, post).secondary == s.secondary
            } else {
                &&& with_post(s, post).original == s.original
                &&& with_post(s, post).secondary == s.secondary.insert(
                    post.author_id,
                    timeline_or_empty(s.secondary, post.author_id).push(entry),
                )
            }
        },
{
}

/// The posts of a batch that are taken in at time `now` are exactly those created before `now`
/// and at most the retention period before it, in their order.
pub proof fn lemma_recent_posts_are_recent(posts: Seq<LightPost>, now: i64, retention_seconds: u64)
    ensures
        forall|k: int|
            0 <= k < recent_posts(posts, now, retention_seconds).len() ==> {
                let p = #[trigger] recent_posts(posts, now, retention_seconds)[k];
                &&& p.created_at < now
                &&& now - p.created_at <= retention_seconds
                &&& posts.contains(p)
            },
        forall|k: int|
            0 <= k < posts.len() && (#[trigger] posts[k]).created_at < now && now - posts[k].created_at
                <= retention_seconds ==> recent_posts(posts, now, retention_seconds).contains(posts[k]),
{
    let keep = |post: LightPost| is_recent(post, now, retention_seconds);
    posts.filter_lemma(keep);
    let recent = recent_posts(posts, now, retention_seconds);
    assert forall|k: int| 0 <= k < recent.len() implies posts.contains(#[trigger] recent[k]) by {
        assert(recent.contains(recent[k]));
        posts.lemma_filter_contains_rev(keep, recent[k]);
    }
}

/// A read hands out a reply only when replies are not being checked (`following` empty, as for
/// original timelines) or its parent is stored and is either an original post, or a reply to the
/// conversation's root while the reply is addressed to a user in `following`.
pub proof fn lemma_read_replies_visible(
    s: PostStoreView,
    timeline: Seq<TinyPost>,
    max_per_user: nat,
    excluded: Set<i64>,
    following: Set<i64>,
    request_user_id: i64,
)
    ensures
        forall|k: int|
            0 <= k < user_posts(s, timeline, max_per_user, excluded, following, request_user_id).len()
                ==> {
                let post = #[trigger] user_posts(s, timeline, max_per_user, excluded, following, request_user_id)[k];
                following.is_empty() || match post.in_reply_to_post_id {
                    None => true,
                    Some(parent_id) => s.posts.contains_key(parent_id) && (
                        (!s.posts[parent_id].is_reply && !s.posts[parent_id].is_retweet) || (
                            post.conversation_id is Some && s.posts[parent_id].in_reply_to_post_id
                                == post.conversation_id && post.in_reply_to_user_id is Some
                                && following.contains(post.in_reply_to_user_id->0))),
                }
            },
{
    let w = scan_window(timeline, excluded, crate::config::MAX_TINY_POSTS_PER_USER_SCAN as nat);
    lemma_first_eligible_facts(s, w, following, request_user_id, max_per_user);
}

} // verus!
