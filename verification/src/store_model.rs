use vstd::prelude::*;
use crate::config::{DELETE_EVENT_KEY, MAX_TINY_POSTS_PER_USER_SCAN};
use crate::light_post::{LightPost, TweetDeleteEvent};
use crate::timeline::TinyPost;

verus! {

/// What a post store holds: the posts by id, three timelines per user (original posts, replies
/// and retweets, video posts; each oldest first, so that the newest entry is at the back), the ids
/// of deleted posts, and its settings.
#[verifier::ext_equal]
pub struct PostStoreView {
    pub posts: Map<i64, LightPost>,
    pub original: Map<i64, Seq<TinyPost>>,
    pub secondary: Map<i64, Seq<TinyPost>>,
    pub video: Map<i64, Seq<TinyPost>>,
    pub deleted: Set<i64>,
    pub retention_seconds: u64,
    pub request_timeout_ms: u64,
}

/// One of the three kinds of timeline that a store keeps for each author.
#[derive(Debug, Clone, Copy, PartialEq, Eq, Structural)]
pub enum TimelineKind {
    /// Posts that are neither replies nor retweets (and the deletion timeline).
    Original,
    /// Replies and retweets.
    Secondary,
    /// Posts with a video.
    Video,
}

impl PostStoreView {
    /// Each post is stored under its own id.
    pub open spec fn posts_keyed_by_id(self) -> bool {
        forall|id: i64| #[trigger] self.posts.contains_key(id) ==> self.posts[id].post_id == id
    }

    /// The timelines of the given kind.
    pub open spec fn timelines_of(self, kind: TimelineKind) -> Map<i64, Seq<TinyPost>> {
        match kind {
            TimelineKind::Original => self.original,
            TimelineKind::Secondary => self.secondary,
            TimelineKind::Video => self.video,
        }
    }
}

// ---------------------------------------------------------------- writing

/// The timeline of `user` in `m`, empty when there is none.
pub open spec fn timeline_or_empty(m: Map<i64, Seq<TinyPost>>, user: i64) -> Seq<TinyPost> {
    if m.contains_key(user) {
        m[user]
    } else {
        Seq::empty()
    }
}

/// `m` with `entry` added at the newest end (the back) of the timeline of `user`.
pub open spec fn appended(m: Map<i64, Seq<TinyPost>>, user: i64, entry: TinyPost) -> Map<
    i64,
    Seq<TinyPost>,
> {
    m.insert(user, timeline_or_empty(m, user).push(entry))
}

/// The timeline entry that refers to `post`.
pub open spec fn entry_of(post: LightPost) -> TinyPost {
    TinyPost { post_id: post.post_id, created_at: post.created_at }
}

/// A post that is neither a reply nor a retweet.
pub open spec fn is_original(post: LightPost) -> bool {
    !post.is_reply && !post.is_retweet
}

/// Whether `post` belongs in the video timeline of its author, given the stored `posts` (which
/// hold `post` itself): a post that is not a reply and has a video, or that retweets a stored
/// post that is not a reply and has one.
pub open spec fn video_eligible(post: LightPost, posts: Map<i64, LightPost>) -> bool {
    &&& !post.is_reply
    &&& (post.has_video || (post.is_retweet && match post.source_post_id {
        Some(source) => posts.contains_key(source) && !posts[source].is_reply
            && posts[source].has_video,
        None => false,
    }))
}

/// The store after taking in `post`: a deleted post is ignored; a post already stored replaces
/// the stored copy and nothing else; a new post is stored and added to its author's original or
/// secondary timeline, and to the video timeline when it is video eligible.
pub open spec fn with_post(s: PostStoreView, post: LightPost) -> PostStoreView {
    if s.deleted.contains(post.post_id) {
        s
    } else if s.posts.contains_key(post.post_id) {
        PostStoreView { posts: s.posts.insert(post.post_id, post), ..s }
    } else {
        let posts = s.posts.insert(post.post_id, post);
        PostStoreView {
            posts,
            original: if is_original(post) {
                appended(s.original, post.author_id, entry_of(post))
            } else {
                s.original
            },
            secondary: if is_original(post) {
                s.secondary
            } else {
                appended(s.secondary, post.author_id, entry_of(post))
            },
            video: if video_eligible(post, posts) {
                appended(s.video, post.author_id, entry_of(post))
            } else {
                s.video
            },
            ..s
        }
    }
}

/// The store after taking in `posts` one by one, in order.
pub open spec fn with_posts(s: PostStoreView, posts: Seq<LightPost>) -> PostStoreView
    decreases posts.len(),
{
    if posts.len() == 0 {
        s
    } else {
        with_post(with_posts(s, posts.drop_last()), posts.last())
    }
}

/// `post` was created before `now` and at most `retention_seconds` before it.
pub open spec fn is_recent(post: LightPost, now: i64, retention_seconds: u64) -> bool {
    post.created_at < now && now - post.created_at <= retention_seconds
}

/// The posts of `posts` that are recent at time `now`, in order.
pub open spec fn recent_posts(posts: Seq<LightPost>, now: i64, retention_seconds: u64) -> Seq<LightPost> {
    posts.filter(|post: LightPost| is_recent(post, now, retention_seconds))
}

/// `result` is `s` after taking in, oldest first, the posts of `posts` that are recent at time
/// `now` (posts created at the same time may come in either order).
pub open spec fn inserted_at(s: PostStoreView, posts: Seq<LightPost>, now: i64, result: PostStoreView) -> bool {
    exists|ordered: Seq<LightPost>|
        {
            &&& ordered.to_multiset() == recent_posts(posts, now, s.retention_seconds).to_multiset()
            &&& crate::ordering::posts_by_creation(ordered)
            &&& result == with_posts(s, ordered)
        }
}

/// The store after the deletion `event`: the post is dropped, its id is marked deleted, and the
/// event is added to the deletion timeline (kept under `DELETE_EVENT_KEY` among the original
/// timelines) with the deletion time.
pub open spec fn with_deletion(s: PostStoreView, event: TweetDeleteEvent) -> PostStoreView {
    PostStoreView {
        posts: s.posts.remove(event.post_id),
        deleted: s.deleted.insert(event.post_id),
        original: appended(
            s.original,
            DELETE_EVENT_KEY,
            TinyPost { post_id: event.post_id, created_at: event.deleted_at },
        ),
        ..s
    }
}

/// The store after the deletions `events`, in order.
pub open spec fn with_deletions(s: PostStoreView, events: Seq<TweetDeleteEvent>) -> PostStoreView
    decreases events.len(),
{
    if events.len() == 0 {
        s
    } else {
        with_deletion(with_deletions(s, events.drop_last()), events.last())
    }
}

// ---------------------------------------------------------------- reading

/// The entries of `timeline` read from its newest end (the back) whose id is not `excluded`,
/// newest first, at most `limit`.
pub open spec fn scan_window(timeline: Seq<TinyPost>, excluded: Set<i64>, limit: nat) -> Seq<
    TinyPost,
>
    decreases timeline.len(),
{
    if timeline.len() == 0 || limit == 0 {
        Seq::empty()
    } else if excluded.contains(timeline.last().post_id) {
        scan_window(timeline.drop_last(), excluded, limit)
    } else {
        seq![timeline.last()] + scan_window(timeline.drop_last(), excluded, (limit - 1) as nat)
    }
}

/// Whether a reply may be shown: always when `following` is empty (original timelines); else a
/// non-reply, or a reply to a stored post that is an original, or a reply that goes to a post
/// which itself replies to the conversation root, addressed to a user in `following`.
pub open spec fn reply_visible(post: LightPost, posts: Map<i64, LightPost>, following: Set<i64>) -> bool {
    following.is_empty() || match post.in_reply_to_post_id {
        None => true,
        Some(replied_id) => posts.contains_key(replied_id) && {
            let replied = posts[replied_id];
            (!replied.is_retweet && !replied.is_reply) || match post.conversation_id {
                Some(root) => replied.in_reply_to_post_id == Some(root) && match post.in_reply_to_user_id {
                    Some(user) => following.contains(user),
                    None => false,
                },
                None => false,
            }
        },
    }
}

/// Whether a stored `post` is handed to `request_user_id`: not deleted, not a retweet of the
/// requester's own post, and a visible reply if it is one.
pub open spec fn post_eligible(
    s: PostStoreView,
    post: LightPost,
    following: Set<i64>,
    request_user_id: i64,
) -> bool {
    &&& !s.deleted.contains(post.post_id)
    &&& !(post.is_retweet && post.source_user_id == Some(request_user_id))
    &&& reply_visible(post, s.posts, following)
}

/// The stored, eligible posts that the entries of `window` refer to, in order, at most `limit`.
pub open spec fn first_eligible(
    s: PostStoreView,
    window: Seq<TinyPost>,
    following: Set<i64>,
    request_user_id: i64,
    limit: nat,
) -> Seq<LightPost>
    decreases window.len(),
{
    if window.len() == 0 || limit == 0 {
        Seq::empty()
    } else {
        let id = window[0].post_id;
        if s.posts.contains_key(id) && post_eligible(s, s.posts[id], following, request_user_id) {
            seq![s.posts[id]] + first_eligible(
                s,
                window.drop_first(),
                following,
                request_user_id,
                (limit - 1) as nat,
            )
        } else {
            first_eligible(s, window.drop_first(), following, request_user_id, limit)
        }
    }
}

/// What one author's `timeline` contributes to a request: among its newest
/// `MAX_TINY_POSTS_PER_USER_SCAN` entries that are not excluded, the first `max_per_user` that
/// refer to stored, eligible posts, newest first.
pub open spec fn user_posts(
    s: PostStoreView,
    timeline: Seq<TinyPost>,
    max_per_user: nat,
    excluded: Set<i64>,
    following: Set<i64>,
    request_user_id: i64,
) -> Seq<LightPost> {
    first_eligible(
        s,
        scan_window(timeline, excluded, MAX_TINY_POSTS_PER_USER_SCAN as nat),
        following,
        request_user_id,
        max_per_user,
    )
}

/// What the authors `users` contribute, one after another, from the timelines `m`; an author
/// without a timeline contributes nothing.
pub open spec fn posts_for_users(
    s: PostStoreView,
    m: Map<i64, Seq<TinyPost>>,
    users: Seq<i64>,
    max_per_user: nat,
    excluded: Set<i64>,
    following: Set<i64>,
    request_user_id: i64,
) -> Seq<LightPost>
    decreases users.len(),
{
    if users.len() == 0 {
        Seq::empty()
    } else {
        let user = users.last();
        posts_for_users(s, m, users.drop_last(), max_per_user, excluded, following, request_user_id)
            + if m.contains_key(user) {
            user_posts(s, m[user], max_per_user, excluded, following, request_user_id)
        } else {
            Seq::empty()
        }
    }
}

/// What a request over `users` gets from the timelines `m` when it handles the first `n` users
/// before its time runs out (all of them when the store has no request timeout).
pub open spec fn read_prefix(
    s: PostStoreView,
    m: Map<i64, Seq<TinyPost>>,
    users: Seq<i64>,
    max_per_user: nat,
    excluded: Set<i64>,
    following: Set<i64>,
    request_user_id: i64,
    n: int,
    result: Seq<LightPost>,
) -> bool {
    &&& 0 <= n <= users.len()
    &&& (s.request_timeout_ms == 0 ==> n == users.len())
    &&& result == posts_for_users(s, m, users.take(n), max_per_user, excluded, following, request_user_id)
}

// ---------------------------------------------------------------- trimming and sorting

/// An entry older than the retention period at time `now`.
pub open spec fn is_expired(entry: TinyPost, now: u64, retention_seconds: u64) -> bool {
    now - entry.created_at > retention_seconds
}

/// How many entries at the oldest end (the front) of `timeline` are expired, up to the first
/// that is not.
pub open spec fn expired_prefix_len(timeline: Seq<TinyPost>, now: u64, retention_seconds: u64) -> nat
    decreases timeline.len(),
{
    if timeline.len() > 0 && is_expired(timeline[0], now, retention_seconds) {
        1 + expired_prefix_len(timeline.drop_first(), now, retention_seconds)
    } else {
        0
    }
}

/// `timeline` without its expired oldest entries.
pub open spec fn trimmed(timeline: Seq<TinyPost>, now: u64, retention_seconds: u64) -> Seq<TinyPost> {
    timeline.skip(expired_prefix_len(timeline, now, retention_seconds) as int)
}

/// The timelines of `m` among `done` trimmed (and dropped once empty), the others as they are.
pub open spec fn trimmed_among(
    m: Map<i64, Seq<TinyPost>>,
    done: Set<i64>,
    now: u64,
    retention_seconds: u64,
) -> Map<i64, Seq<TinyPost>> {
    Map::new(
        |user: i64|
            m.contains_key(user) && (!done.contains(user) || trimmed(
                m[user],
                now,
                retention_seconds,
            ).len() > 0),
        |user: i64|
            if done.contains(user) {
                trimmed(m[user], now, retention_seconds)
            } else {
                m[user]
            },
    )
}

/// Every timeline of `m` trimmed, and the ones left empty dropped.
pub open spec fn trimmed_timelines(m: Map<i64, Seq<TinyPost>>, now: u64, retention_seconds: u64) -> Map<
    i64,
    Seq<TinyPost>,
> {
    trimmed_among(m, m.dom(), now, retention_seconds)
}

/// The ids of the entries that trimming drops from the timelines of the users in `users`.
pub open spec fn expired_ids(
    m: Map<i64, Seq<TinyPost>>,
    users: Set<i64>,
    now: u64,
    retention_seconds: u64,
) -> Set<i64> {
    Set::new(
        |id: i64|
            exists|user: i64, j: int|
                #![trigger users.contains(user), m[user][j]]
                users.contains(user) && m.contains_key(user) && 0 <= j < expired_prefix_len(
                    m[user],
                    now,
                    retention_seconds,
                ) && m[user][j].post_id == id,
    )
}

/// The ids of the first `count` entries of `timeline`.
pub open spec fn prefix_ids(timeline: Seq<TinyPost>, count: int) -> Set<i64> {
    Set::new(|id: i64| exists|j: int| 0 <= j < count && #[trigger] timeline[j].post_id == id)
}

/// `x` as a `usize`, or `usize::MAX` when it does not fit.
pub open spec fn capped(x: nat) -> usize {
    if x > usize::MAX {
        usize::MAX
    } else {
        x as usize
    }
}

/// The expired oldest entries are exactly the first `expired_prefix_len` ones.
pub proof fn lemma_expired_prefix(timeline: Seq<TinyPost>, now: u64, retention_seconds: u64)
    ensures
        expired_prefix_len(timeline, now, retention_seconds) <= timeline.len(),
        forall|j: int|
            0 <= j < expired_prefix_len(timeline, now, retention_seconds) ==> is_expired(
                #[trigger] timeline[j],
                now,
                retention_seconds,
            ),
        expired_prefix_len(timeline, now, retention_seconds) < timeline.len() ==> !is_expired(
            timeline[expired_prefix_len(timeline, now, retention_seconds) as int],
            now,
            retention_seconds,
        ),
    decreases timeline.len(),
{
    if timeline.len() > 0 && is_expired(timeline[0], now, retention_seconds) {
        let rest = timeline.drop_first();
        lemma_expired_prefix(rest, now, retention_seconds);
        assert forall|j: int|
            0 <= j < expired_prefix_len(timeline, now, retention_seconds) implies is_expired(
            #[trigger] timeline[j],
            now,
            retention_seconds,
        ) by {
            if j > 0 {
                assert(timeline[j] == rest[j - 1]);
            }
        }
        let c = expired_prefix_len(timeline, now, retention_seconds);
        if c < timeline.len() {
            assert(timeline[c as int] == rest[c - 1]);
        }
    }
}

/// Trimming one more user adds the ids of that user's expired entries.
pub proof fn lemma_expired_ids_insert(
    m: Map<i64, Seq<TinyPost>>,
    done: Set<i64>,
    user: i64,
    now: u64,
    retention_seconds: u64,
)
    requires
        m.contains_key(user),
    ensures
        expired_ids(m, done.insert(user), now, retention_seconds) == expired_ids(
            m,
            done,
            now,
            retention_seconds,
        ) + prefix_ids(m[user], expired_prefix_len(m[user], now, retention_seconds) as int),
{
    let lhs = expired_ids(m, done.insert(user), now, retention_seconds);
    let rhs = expired_ids(m, done, now, retention_seconds) + prefix_ids(
        m[user],
        expired_prefix_len(m[user], now, retention_seconds) as int,
    );
    assert forall|id: i64| lhs.contains(id) <==> rhs.contains(id) by {
        if lhs.contains(id) {
            let (u, j) = choose|u: i64, j: int|
                #![trigger done.insert(user).contains(u), m[u][j]]
                done.insert(user).contains(u) && m.contains_key(u) && 0 <= j < expired_prefix_len(
                    m[u],
                    now,
                    retention_seconds,
                ) && m[u][j].post_id == id;
            if u != user {
                assert(done.contains(u));
                assert(expired_ids(m, done, now, retention_seconds).contains(id));
            } else {
                assert(m[user][j].post_id == id);
            }
        }
        if expired_ids(m, done, now, retention_seconds).contains(id) {
            let (u, j) = choose|u: i64, j: int|
                #![trigger done.contains(u), m[u][j]]
                done.contains(u) && m.contains_key(u) && 0 <= j < expired_prefix_len(
                    m[u],
                    now,
                    retention_seconds,
                ) && m[u][j].post_id == id;
            assert(done.insert(user).contains(u));
        }
        if prefix_ids(m[user], expired_prefix_len(m[user], now, retention_seconds) as int).contains(id) {
            let j = choose|j: int|
                0 <= j < expired_prefix_len(m[user], now, retention_seconds) && #[trigger] m[user][j].post_id == id;
            assert(done.insert(user).contains(user));
        }
    }
    assert(lhs =~= rhs);
}

/// The sum of `f` over `users`.
pub open spec fn sum_over(users: Seq<i64>, f: spec_fn(i64) -> nat) -> nat
    decreases users.len(),
{
    if users.len() == 0 {
        0
    } else {
        sum_over(users.drop_last(), f) + f(users.last())
    }
}

/// `order` lists each element of `users` once.
pub open spec fn is_order_of(order: Seq<i64>, users: Set<i64>) -> bool {
    order.no_duplicates() && order.to_set() == users
}

/// The sum of `f` over the set `users` (taken in any order: see `lemma_sum_over_reorder`).
pub open spec fn sum_over_set(users: Set<i64>, f: spec_fn(i64) -> nat) -> nat {
    sum_over(choose|order: Seq<i64>| is_order_of(order, users), f)
}

/// Dropping one element from a sum takes its value off.
pub proof fn lemma_sum_over_remove(users: Seq<i64>, f: spec_fn(i64) -> nat, k: int)
    requires
        0 <= k < users.len(),
    ensures
        sum_over(users, f) == sum_over(users.remove(k), f) + f(users[k]),
    decreases users.len(),
{
    if k < users.len() - 1 {
        lemma_sum_over_remove(users.drop_last(), f, k);
        assert(users.remove(k).drop_last() =~= users.drop_last().remove(k));
        assert(users.remove(k).last() == users.last());
    } else {
        assert(users.remove(k) =~= users.drop_last());
    }
}

/// A sum does not depend on the order in which the elements are taken.
pub proof fn lemma_sum_over_reorder(a: Seq<i64>, b: Seq<i64>, f: spec_fn(i64) -> nat)
    requires
        a.no_duplicates(),
        b.no_duplicates(),
        a.to_set() == b.to_set(),
    ensures
        sum_over(a, f) == sum_over(b, f),
    decreases a.len(),
{
    if a.len() == 0 {
        if b.len() > 0 {
            assert(b.to_set().contains(b[0]));
        }
    } else {
        let x = a.last();
        assert(a.to_set().contains(x));
        assert(b.to_set().contains(x));
        let k = choose|k: int| 0 <= k < b.len() && b[k] == x;
        lemma_sum_over_remove(b, f, k);
        let a2 = a.drop_last();
        let b2 = b.remove(k);
        assert(a2.to_set() =~= b2.to_set()) by {
            assert forall|y: i64| a2.to_set().contains(y) <==> b2.to_set().contains(y) by {
                if a2.to_set().contains(y) {
                    let i = choose|i: int| 0 <= i < a2.len() && a2[i] == y;
                    assert(a[i] == y && i != a.len() - 1);
                    assert(a.to_set().contains(y));
                    let j = choose|j: int| 0 <= j < b.len() && b[j] == y;
                    assert(j != k);
                    if j < k {
                        assert(b2[j] == y);
                    } else {
                        assert(b2[j - 1] == y);
                    }
                }
                if b2.to_set().contains(y) {
                    let j = choose|j: int| 0 <= j < b2.len() && b2[j] == y;
                    let jj = if j < k { j } else { j + 1 };
                    assert(b[jj] == y && jj != k);
                    assert(b.to_set().contains(y));
                    let i = choose|i: int| 0 <= i < a.len() && a[i] == y;
                    assert(i != a.len() - 1);
                    assert(a2[i] == y);
                }
            }
        }
        lemma_sum_over_reorder(a2, b2, f);
    }
}

/// Each element once, in some order, stands for the set: the sum over that order is the sum
/// over the set.
pub proof fn lemma_sum_over_set(order: Seq<i64>, users: Set<i64>, f: spec_fn(i64) -> nat)
    requires
        order.no_duplicates(),
        order.to_set() == users,
    ensures
        sum_over(order, f) == sum_over_set(users, f),
{
    assert(is_order_of(order, users));
    let chosen = choose|order: Seq<i64>| is_order_of(order, users);
    lemma_sum_over_reorder(order, chosen, f);
}

/// How many entries trimming drops from the timeline of a user in `m`.
pub open spec fn expired_at(m: Map<i64, Seq<TinyPost>>, now: u64, retention_seconds: u64) -> spec_fn(i64) -> nat {
    |user: i64| if m.contains_key(user) {
        expired_prefix_len(m[user], now, retention_seconds)
    } else {
        0
    }
}

/// How many entries the timeline of a user in `m` holds.
pub open spec fn entries_at(m: Map<i64, Seq<TinyPost>>) -> spec_fn(i64) -> nat {
    |user: i64| if m.contains_key(user) {
        m[user].len()
    } else {
        0
    }
}

/// The store after trimming at time `now`: every timeline loses its expired oldest entries
/// (and is dropped once empty), the posts those entries refer to are dropped, and the ids
/// dropped from a deletion timeline are no longer marked deleted.
pub open spec fn after_trim(s: PostStoreView, now: u64) -> PostStoreView {
    let r = s.retention_seconds;
    PostStoreView {
        posts: s.posts.remove_keys(
            expired_ids(s.original, s.original.dom(), now, r) + expired_ids(
                s.secondary,
                s.secondary.dom(),
                now,
                r,
            ) + expired_ids(s.video, s.video.dom(), now, r),
        ),
        original: trimmed_timelines(s.original, now, r),
        secondary: trimmed_timelines(s.secondary, now, r),
        video: trimmed_timelines(s.video, now, r),
        deleted: s.deleted - (expired_ids(s.original, set![DELETE_EVENT_KEY], now, r)
            + expired_ids(s.secondary, set![DELETE_EVENT_KEY], now, r) + expired_ids(
            s.video,
            set![DELETE_EVENT_KEY],
            now,
            r,
        )),
        ..s
    }
}

/// `sorted` holds the timelines of `m`, each with the same entries, oldest first (so that its
/// newest end, the back, holds the newest entry).
pub open spec fn timelines_sorted_from(m: Map<i64, Seq<TinyPost>>, sorted: Map<i64, Seq<TinyPost>>) -> bool {
    &&& sorted.dom() == m.dom()
    &&& forall|user: i64| #[trigger] m.contains_key(user) ==> {
        &&& sorted[user].to_multiset() == m[user].to_multiset()
        &&& crate::ordering::entries_by_creation(sorted[user])
    }
}

/// `sorted` is `s` with every timeline sorted by creation time.
pub open spec fn sorted_store(s: PostStoreView, sorted: PostStoreView) -> bool {
    &&& timelines_sorted_from(s.original, sorted.original)
    &&& timelines_sorted_from(s.secondary, sorted.secondary)
    &&& timelines_sorted_from(s.video, sorted.video)
    &&& sorted == PostStoreView {
        original: sorted.original,
        secondary: sorted.secondary,
        video: sorted.video,
        ..s
    }
}

/// `s` without the stored posts whose ids are marked deleted.
pub open spec fn without_deleted_posts(s: PostStoreView) -> PostStoreView {
    PostStoreView { posts: s.posts.remove_keys(s.deleted), ..s }
}

} // verus!
