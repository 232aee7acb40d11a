use vstd::prelude::*;
use std::collections::{HashSet, VecDeque};
use std::time::Instant;
use dashmap::DashMap;
use crate::clock::{elapsed_millis, unix_time_secs};
use crate::config::{
    DELETE_EVENT_KEY, MAX_ORIGINAL_POSTS_PER_AUTHOR, MAX_REPLY_POSTS_PER_AUTHOR,
    MAX_TINY_POSTS_PER_USER_SCAN, MAX_VIDEO_POSTS_PER_AUTHOR,
};
use crate::filter::lemma_filter_take_step;
use crate::light_post::{LightPost, TweetDeleteEvent};
use crate::ordering::{entries_by_creation, sort_entries_by_creation, sort_posts_by_creation};
use crate::shared_map::{
    enumerates, flagged_ids, flags_contains, flags_insert, flags_keys, flags_len, flags_new, flags_remove,
    guarded_value, posts_clear, posts_get, posts_insert, posts_len, posts_new, posts_remove,
    stored_posts, timeline_get, timelines, timelines_clear, timelines_keys, timelines_len,
    timelines_new, timelines_put, timelines_take,
};
use crate::store_model::{
    PostStoreView, TimelineKind, after_trim, appended, capped, entries_at, expired_at, expired_ids,
    expired_prefix_len, first_eligible, inserted_at, is_expired, is_recent,
    lemma_expired_ids_insert, lemma_expired_prefix, lemma_sum_over_set, post_eligible,
    posts_for_users, prefix_ids,
    read_prefix, recent_posts, reply_visible, scan_window, sorted_store, sum_over, sum_over_set,
    timelines_sorted_from, trimmed_among, trimmed_timelines, user_posts, with_deletion,
    with_deletions, with_post, with_posts, without_deleted_posts,
};
use crate::timeline::TinyPost;

verus! {

/// A store of recent posts grouped by author, for in-network candidate retrieval.
///
/// Posts are kept by id; each author has three timelines of post references, oldest first (new
/// entries go to the back, and reads start from there): original posts, replies and retweets, and
/// video posts. Deleted post ids are remembered so that a deleted post is never stored again.
pub struct PostStore {
    /// The posts, the timelines and the deleted ids.
    maps: StoreMaps,
    /// How long posts are kept, in seconds.
    retention_seconds: u64,
    /// How long a multi-author read may take, in milliseconds (0: no limit).
    request_timeout_ms: u64,
}

/// The maps that a post store keeps.
struct StoreMaps {
    /// Full post data by post id.
    posts: DashMap<i64, LightPost>,
    /// Original posts (neither replies nor retweets) by author.
    original_posts_by_user: DashMap<i64, VecDeque<TinyPost>>,
    /// Replies and retweets by author.
    secondary_posts_by_user: DashMap<i64, VecDeque<TinyPost>>,
    /// Video posts by author.
    video_posts_by_user: DashMap<i64, VecDeque<TinyPost>>,
    /// Ids of deleted posts.
    deleted_posts: DashMap<i64, bool>,
}

impl StoreMaps {
    /// What the maps hold, in a store with the given settings.
    spec fn with_settings(self, retention_seconds: u64, request_timeout_ms: u64) -> PostStoreView {
        PostStoreView {
            posts: stored_posts(self.posts),
            original: timelines(self.original_posts_by_user),
            secondary: timelines(self.secondary_posts_by_user),
            video: timelines(self.video_posts_by_user),
            deleted: flagged_ids(self.deleted_posts).dom(),
            retention_seconds,
            request_timeout_ms,
        }
    }

    /// Each stored post sits under its own id.
    spec fn keyed(self) -> bool {
        forall|id: i64| #[trigger] stored_posts(self.posts).contains_key(id) ==> stored_posts(self.posts)[id].post_id == id
    }

    /// Maps with nothing in them.
    fn empty() -> (r: Self)
        ensures
            r.keyed(),
            forall|retention_seconds: u64, request_timeout_ms: u64|
                #[trigger] r.with_settings(retention_seconds, request_timeout_ms) == (PostStoreView {
                    posts: Map::empty(),
                    original: Map::empty(),
                    secondary: Map::empty(),
                    video: Map::empty(),
                    deleted: Set::empty(),
                    retention_seconds,
                    request_timeout_ms,
                }),
    {
        let r = StoreMaps {
            posts: posts_new(),
            original_posts_by_user: timelines_new(),
            secondary_posts_by_user: timelines_new(),
            video_posts_by_user: timelines_new(),
            deleted_posts: flags_new(),
        };
        assert(flagged_ids(r.deleted_posts).dom() =~= Set::empty());
        r
    }

    /// Takes in one post (see `with_post`).
    fn insert_post(&mut self, post: LightPost)
        requires
            old(self).keyed(),
        ensures
            final(self).keyed(),
            forall|retention_seconds: u64, request_timeout_ms: u64|
                #[trigger] final(self).with_settings(retention_seconds, request_timeout_ms) == with_post(
                    old(self).with_settings(retention_seconds, request_timeout_ms),
                    post,
                ),
    {
        let post_id = post.post_id;
        let author_id = post.author_id;
        let is_original = !post.is_reply && !post.is_retweet;
        if flags_contains(&self.deleted_posts, post_id) {
            return;
        }
        // Store the full post data.
        let replaced = posts_insert(&mut self.posts, post_id, post);
        if replaced.is_some() {
            // Already stored: it is not added to the timelines again.
            assert forall|retention_seconds: u64, request_timeout_ms: u64|
                #[trigger] self.with_settings(retention_seconds, request_timeout_ms) == with_post(
                    old(self).with_settings(retention_seconds, request_timeout_ms),
                    post,
                ) by {
                assert(self.with_settings(retention_seconds, request_timeout_ms) =~= with_post(
                    old(self).with_settings(retention_seconds, request_timeout_ms),
                    post,
                ));
            }
            return;
        }
        let tiny_post = TinyPost::new(post_id, post.created_at);
        if is_original {
            append_entry(&mut self.original_posts_by_user, author_id, tiny_post);
        } else {
            append_entry(&mut self.secondary_posts_by_user, author_id, tiny_post);
        }
        let mut video_eligible = post.has_video;
        // A retweet of a post with a video counts as a video post.
        if !video_eligible && post.is_retweet {
            if let Some(source_post_id) = post.source_post_id {
                if let Some(source_post) = posts_get(&self.posts, source_post_id) {
                    video_eligible = !source_post.is_reply && source_post.has_video;
                }
            }
        }
        if post.is_reply {
            video_eligible = false;
        }
        if video_eligible {
            append_entry(&mut self.video_posts_by_user, author_id, tiny_post);
        }
        assert forall|retention_seconds: u64, request_timeout_ms: u64|
            #[trigger] self.with_settings(retention_seconds, request_timeout_ms) == with_post(
                old(self).with_settings(retention_seconds, request_timeout_ms),
                post,
            ) by {
            assert(self.with_settings(retention_seconds, request_timeout_ms) =~= with_post(
                old(self).with_settings(retention_seconds, request_timeout_ms),
                post,
            ));
        }
    }
}

impl PostStore {
    /// Each stored post sits under its own id.
    #[verifier::type_invariant]
    spec fn posts_under_their_ids(self) -> bool {
        self.maps.keyed()
    }
}

impl View for PostStore {
    type V = PostStoreView;

    closed spec fn view(&self) -> PostStoreView {
        self.maps.with_settings(self.retention_seconds, self.request_timeout_ms)
    }
}

/// Whether a read that has taken `elapsed_ms` milliseconds has run out of time under a request
/// timeout of `request_timeout_ms` milliseconds (0: no timeout).
pub fn request_timed_out(request_timeout_ms: u64, elapsed_ms: u128) -> (r: bool)
    ensures
        r == (request_timeout_ms != 0 && elapsed_ms >= request_timeout_ms),
{
    request_timeout_ms != 0 && elapsed_ms >= request_timeout_ms as u128
}

/// `elapsed_ms` is a value that a call of `elapsed_millis` on `start_time` hands back: a reading
/// of the milliseconds elapsed since `start_time`.
pub open spec fn elapsed_reading(start_time: Instant, elapsed_ms: u128) -> bool {
    call_ensures(elapsed_millis, (&start_time,), elapsed_ms)
}

/// A read over `user_count` authors that handled the first `handled` of them stopped early only
/// when the store has a request timeout and a reading of the time elapsed since `start_time`
/// reached it.
pub open spec fn stopped_only_on_timeout(
    request_timeout_ms: u64,
    start_time: Instant,
    handled: int,
    user_count: int,
) -> bool {
    handled < user_count ==> request_timeout_ms != 0 && exists|elapsed_ms: u128|
        #[trigger] elapsed_reading(start_time, elapsed_ms) && elapsed_ms >= request_timeout_ms
}

/// Whether `entry` is older than `retention_seconds` at time `current_time`.
fn entry_expired(entry: &TinyPost, current_time: u64, retention_seconds: u64) -> (r: bool)
    ensures
        r == is_expired(*entry, current_time, retention_seconds),
{
    (current_time as i128) - (entry.created_at as i128) > (retention_seconds as i128)
}

/// Trims the timelines of `posts_by_user` at time `current_time`: drops their expired oldest
/// entries and the posts those refer to, forgets the deletion of the ids dropped from the
/// deletion timeline, and drops timelines left empty. Returns how many entries it dropped.
fn trim_map(
    posts_by_user: &mut DashMap<i64, VecDeque<TinyPost>>,
    posts_map: &mut DashMap<i64, LightPost>,
    deleted_posts: &mut DashMap<i64, bool>,
    current_time: u64,
    retention_seconds: u64,
) -> (trimmed: usize)
    ensures
        timelines(*final(posts_by_user)) == trimmed_timelines(
            timelines(*old(posts_by_user)),
            current_time,
            retention_seconds,
        ),
        stored_posts(*final(posts_map)) == stored_posts(*old(posts_map)).remove_keys(
            expired_ids(
                timelines(*old(posts_by_user)),
                timelines(*old(posts_by_user)).dom(),
                current_time,
                retention_seconds,
            ),
        ),
        flagged_ids(*final(deleted_posts)).dom() == flagged_ids(*old(deleted_posts)).dom()
            - expired_ids(
            timelines(*old(posts_by_user)),
            set![DELETE_EVENT_KEY],
            current_time,
            retention_seconds,
        ),
        exists|users: Seq<i64>|
            #![trigger enumerates(users, timelines(*old(posts_by_user)))]
            enumerates(users, timelines(*old(posts_by_user))) && trimmed == capped(
                sum_over(users, expired_at(timelines(*old(posts_by_user)), current_time, retention_seconds)),
            ),
{
    let ghost m0 = timelines(*posts_by_user);
    let ghost p0 = stored_posts(*posts_map);
    let ghost d0 = flagged_ids(*deleted_posts).dom();
    let ghost del = set![DELETE_EVENT_KEY];
    let users = timelines_keys(posts_by_user);
    let mut trimmed: usize = 0;
    let n = users.len();
    let mut i: usize = 0;
    proof {
        assert(users@.take(0).to_set() =~= Set::<i64>::empty());
        assert(trimmed_among(m0, Set::empty(), current_time, retention_seconds) =~= m0);
        assert(expired_ids(m0, Set::empty(), current_time, retention_seconds) =~= Set::empty());
        assert(Set::<i64>::empty().intersect(del) =~= Set::<i64>::empty());
        assert(p0.remove_keys(Set::empty()) =~= p0);
        assert(d0 - Set::<i64>::empty() =~= d0);
    }
    while i < n
        invariant
            n == users@.len(),
            i <= n,
            enumerates(users@, m0),
            del == set![DELETE_EVENT_KEY],
            timelines(*posts_by_user) == trimmed_among(
                m0,
                users@.take(i as int).to_set(),
                current_time,
                retention_seconds,
            ),
            stored_posts(*posts_map) == p0.remove_keys(
                expired_ids(m0, users@.take(i as int).to_set(), current_time, retention_seconds),
            ),
            flagged_ids(*deleted_posts).dom() == d0 - expired_ids(
                m0,
                users@.take(i as int).to_set().intersect(del),
                current_time,
                retention_seconds,
            ),
            trimmed == capped(sum_over(users@.take(i as int), expired_at(m0, current_time, retention_seconds))),
        decreases n - i,
    {
        let user_id = users[i];
        let ghost done = users@.take(i as int).to_set();
        let ghost timeline0 = m0[user_id];
        let ghost count = expired_prefix_len(timeline0, current_time, retention_seconds);
        let ghost posts_before = stored_posts(*posts_map);
        let ghost deleted_before = flagged_ids(*deleted_posts).dom();
        let ghost trimmed_before = sum_over(users@.take(i as int), expired_at(m0, current_time, retention_seconds));
        proof {
            assert(users@.to_set().contains(user_id));
            assert(m0.contains_key(user_id));
            assert(!done.contains(user_id)) by {
                if done.contains(user_id) {
                    let k = choose|k: int| 0 <= k < i && #[trigger] users@.take(i as int)[k] == user_id;
                    assert(users@[k] == users@[i as int]);
                }
            }
            assert(users@.take(i + 1).to_set() =~= done.insert(user_id)) by {
                assert(users@.take(i + 1) =~= users@.take(i as int).push(user_id));
                users@.take(i as int).lemma_push_to_set_commute(user_id);
            }
            assert(users@.take(i + 1).drop_last() =~= users@.take(i as int));
            lemma_expired_prefix(timeline0, current_time, retention_seconds);
            lemma_expired_ids_insert(m0, done, user_id, current_time, retention_seconds);
            if user_id == DELETE_EVENT_KEY {
                assert(done.insert(user_id).intersect(del) =~= done.intersect(del).insert(user_id));
                lemma_expired_ids_insert(m0, done.intersect(del), user_id, current_time, retention_seconds);
            } else {
                assert(done.insert(user_id).intersect(del) =~= done.intersect(del));
            }
        }
        match timelines_take(posts_by_user, user_id) {
            Some(mut user_posts) => {
                let mut popped: usize = 0;
                let initial_len = user_posts.len();
                proof {
                    assert(user_posts@ =~= timeline0.skip(0));
                    assert(prefix_ids(timeline0, 0) =~= Set::empty());
                    assert(posts_before.remove_keys(Set::empty()) =~= posts_before);
                    assert(deleted_before - Set::<i64>::empty() =~= deleted_before);
                }
                // Drop entries from the oldest end while they are expired.
                while user_posts.len() > 0 && entry_expired(&user_posts[0], current_time, retention_seconds)
                    invariant
                        popped <= count,
                        count <= timeline0.len(),
                        timeline0.len() == initial_len,
                        count == expired_prefix_len(timeline0, current_time, retention_seconds),
                        forall|j: int| 0 <= j < count ==> is_expired(#[trigger] timeline0[j], current_time, retention_seconds),
                        count < initial_len ==> !is_expired(timeline0[count as int], current_time, retention_seconds),
                        user_posts@ == timeline0.skip(popped as int),
                        stored_posts(*posts_map) == posts_before.remove_keys(prefix_ids(timeline0, popped as int)),
                        flagged_ids(*deleted_posts).dom() == deleted_before - (if user_id == DELETE_EVENT_KEY {
                            prefix_ids(timeline0, popped as int)
                        } else {
                            Set::empty()
                        }),
                        trimmed == capped(trimmed_before + popped as nat),
                    decreases user_posts@.len(),
                {
                    proof {
                        assert(user_posts@[0] == timeline0[popped as int]);
                        assert(popped < count);
                    }
                    let trimmed_post = user_posts.pop_front().unwrap();
                    proof {
                        let k = popped as int;
                        assert(trimmed_post == timeline0[k]);
                        assert(prefix_ids(timeline0, k + 1) =~= prefix_ids(timeline0, k).insert(trimmed_post.post_id)) by {
                            assert(timeline0[k].post_id == trimmed_post.post_id);
                        }
                    }
                    posts_remove(posts_map, trimmed_post.post_id);
                    if user_id == DELETE_EVENT_KEY {
                        flags_remove(deleted_posts, trimmed_post.post_id);
                    }
                    trimmed = trimmed.saturating_add(1);
                    popped = popped + 1;
                    proof {
                        assert(user_posts@ =~= timeline0.skip(popped as int));
                        assert(stored_posts(*posts_map) =~= posts_before.remove_keys(prefix_ids(timeline0, popped as int)));
                        assert(flagged_ids(*deleted_posts).dom() =~= deleted_before - (if user_id == DELETE_EVENT_KEY {
                            prefix_ids(timeline0, popped as int)
                        } else {
                            Set::empty()
                        }));
                    }
                }
                proof {
                    if popped < count {
                        assert(user_posts@[0] == timeline0[popped as int]);
                    }
                    assert(popped == count);
                }
                // Give back memory a timeline no longer needs.
                let len = user_posts.len();
                let capacity = crate::timeline::timeline_capacity(&user_posts);
                if capacity > 0 && len <= (capacity - 1) / 2 {
                    crate::timeline::timeline_shrink_to(&mut user_posts, len + len / 2);
                }
                if user_posts.len() > 0 {
                    timelines_put(posts_by_user, user_id, user_posts);
                }
            },
            None => {
                assert(false);
            },
        }
        i = i + 1;
        proof {
            let done2 = users@.take(i as int).to_set();
            assert(timelines(*posts_by_user) =~= trimmed_among(m0, done2, current_time, retention_seconds));
            assert(stored_posts(*posts_map) =~= p0.remove_keys(
                expired_ids(m0, done2, current_time, retention_seconds),
            ));
            assert(flagged_ids(*deleted_posts).dom() =~= d0 - expired_ids(
                m0,
                done2.intersect(del),
                current_time,
                retention_seconds,
            ));
        }
    }
    proof {
        assert(users@.take(n as int) =~= users@);
        assert(users@.to_set() =~= m0.dom());
        assert(trimmed_among(m0, m0.dom(), current_time, retention_seconds) == trimmed_timelines(m0, current_time, retention_seconds));
        let e_all = expired_ids(m0, m0.dom().intersect(del), current_time, retention_seconds);
        let e_del = expired_ids(m0, del, current_time, retention_seconds);
        assert forall|id: i64| e_all.contains(id) <==> e_del.contains(id) by {
            if e_del.contains(id) {
                let (u, j) = choose|u: i64, j: int|
                    #![trigger del.contains(u), m0[u][j]]
                    del.contains(u) && m0.contains_key(u) && 0 <= j < expired_prefix_len(
                        m0[u],
                        current_time,
                        retention_seconds,
                    ) && m0[u][j].post_id == id;
                assert(m0.dom().intersect(del).contains(u));
            }
        }
        assert(e_all =~= e_del);
    }
    trimmed
}

/// `timeline` sorted by creation time, oldest first; entries created at the same time may come
/// in either order.
fn sorted_timeline(timeline: VecDeque<TinyPost>) -> (r: VecDeque<TinyPost>)
    ensures
        r@.to_multiset() == timeline@.to_multiset(),
        entries_by_creation(r@),
{
    let mut entries: Vec<TinyPost> = Vec::new();
    let n = timeline.len();
    let mut i: usize = 0;
    while i < n
        invariant
            n == timeline@.len(),
            i <= n,
            entries@ == timeline@.take(i as int),
        decreases n - i,
    {
        entries.push(timeline[i]);
        i = i + 1;
        proof {
            assert(entries@ =~= timeline@.take(i as int));
        }
    }
    assert(entries@ =~= timeline@);
    sort_entries_by_creation(&mut entries);
    let mut r: VecDeque<TinyPost> = VecDeque::new();
    let mut k: usize = 0;
    while k < entries.len()
        invariant
            k <= entries@.len(),
            r@ == entries@.take(k as int),
        decreases entries@.len() - k,
    {
        r.push_back(entries[k]);
        k = k + 1;
        proof {
            assert(r@ =~= entries@.take(k as int));
        }
    }
    assert(r@ =~= entries@);
    r
}

/// Sorts every timeline of `posts_by_user` by creation time, oldest first, so that reading from
/// the newest end (the back) gives the newest entries first.
fn sort_map(posts_by_user: &mut DashMap<i64, VecDeque<TinyPost>>)
    ensures
        timelines_sorted_from(timelines(*old(posts_by_user)), timelines(*final(posts_by_user))),
{
    let ghost m0 = timelines(*posts_by_user);
    let users = timelines_keys(posts_by_user);
    let n = users.len();
    let mut i: usize = 0;
    while i < n
        invariant
            n == users@.len(),
            i <= n,
            enumerates(users@, m0),
            timelines(*posts_by_user).dom() == m0.dom(),
            forall|user: i64|
                #[trigger] m0.contains_key(user) ==> if users@.take(i as int).contains(user) {
                    &&& timelines(*posts_by_user)[user].to_multiset() == m0[user].to_multiset()
                    &&& entries_by_creation(timelines(*posts_by_user)[user])
                } else {
                    timelines(*posts_by_user)[user] == m0[user]
                },
        decreases n - i,
    {
        let user_id = users[i];
        let ghost before = timelines(*posts_by_user);
        proof {
            assert(users@.to_set().contains(user_id));
            assert(!users@.take(i as int).contains(user_id)) by {
                if users@.take(i as int).contains(user_id) {
                    let k = choose|k: int| 0 <= k < i && #[trigger] users@.take(i as int)[k] == user_id;
                    assert(users@[k] == users@[i as int]);
                }
            }
            assert forall|user: i64| users@.take(i + 1).contains(user) <==> (users@.take(i as int).contains(user) || user == user_id) by {
                if users@.take(i + 1).contains(user) {
                    let k = choose|k: int| 0 <= k < i + 1 && #[trigger] users@.take(i + 1)[k] == user;
                    if k < i {
                        assert(users@.take(i as int)[k] == user);
                    }
                }
                if users@.take(i as int).contains(user) {
                    let k = choose|k: int| 0 <= k < i && #[trigger] users@.take(i as int)[k] == user;
                    assert(users@.take(i + 1)[k] == user);
                }
                if user == user_id {
                    assert(users@.take(i + 1)[i as int] == user);
                }
            }
        }
        match timelines_take(posts_by_user, user_id) {
            Some(user_posts) => {
                let sorted = sorted_timeline(user_posts);
                timelines_put(posts_by_user, user_id, sorted);
            },
            None => {
                assert(false);
            },
        }
        proof {
            assert(timelines(*posts_by_user).dom() =~= m0.dom());
        }
        i = i + 1;
    }
    proof {
        assert(users@.take(n as int) =~= users@);
        assert forall|user: i64| #[trigger] m0.contains_key(user) implies users@.contains(user) by {
            assert(users@.to_set().contains(user));
        }
    }
}

/// Counts of what a post store holds, as its statistics logger reports them.
#[derive(Debug, Clone, Copy, PartialEq, Eq, Structural)]
pub struct PostStoreStats {
    /// Users with an original-posts timeline (the deletion timeline included).
    pub user_count: usize,
    /// Stored posts.
    pub total_posts: usize,
    /// Ids marked deleted.
    pub deleted_posts: usize,
    /// Entries in all original-posts timelines.
    pub original_posts_count: usize,
    /// Entries in all reply-and-retweet timelines.
    pub secondary_posts_count: usize,
    /// Entries in all video timelines.
    pub video_posts_count: usize,
}

/// The number of entries in all timelines of `posts_by_user` (saturating at `usize::MAX`).
fn total_entries(posts_by_user: &DashMap<i64, VecDeque<TinyPost>>) -> (r: usize)
    ensures
        exists|users: Seq<i64>|
            #![trigger enumerates(users, timelines(*posts_by_user))]
            enumerates(users, timelines(*posts_by_user)) && r == capped(
                sum_over(users, entries_at(timelines(*posts_by_user))),
            ),
{
    let ghost m = timelines(*posts_by_user);
    let users = timelines_keys(posts_by_user);
    let n = users.len();
    let mut total: usize = 0;
    let mut i: usize = 0;
    while i < n
        invariant
            n == users@.len(),
            i <= n,
            m == timelines(*posts_by_user),
            total == capped(sum_over(users@.take(i as int), entries_at(m))),
        decreases n - i,
    {
        let user_id = users[i];
        proof {
            assert(users@.take(i + 1).drop_last() =~= users@.take(i as int));
        }
        match timeline_get(posts_by_user, user_id) {
            Some(guard) => {
                let len = guarded_value(&guard).len();
                total = total.saturating_add(len);
            },
            None => {},
        }
        i = i + 1;
    }
    assert(users@.take(n as int) =~= users@);
    total
}

/// Adds `entry` at the newest end (the back) of the timeline of `user`.
fn append_entry(m: &mut DashMap<i64, VecDeque<TinyPost>>, user: i64, entry: TinyPost)
    ensures
        timelines(*final(m)) == appended(timelines(*old(m)), user, entry),
{
    let mut timeline = match timelines_take(m, user) {
        Some(t) => t,
        None => VecDeque::new(),
    };
    timeline.push_back(entry);
    timelines_put(m, user, timeline);
    assert(timelines(*m) =~= appended(timelines(*old(m)), user, entry));
}

impl PostStore {
    /// A post store with nothing in it, keeping posts for `retention_seconds` and giving reads
    /// `request_timeout_ms` milliseconds (0: no limit).
    pub fn new(retention_seconds: u64, request_timeout_ms: u64) -> (r: Self)
        ensures
            r@.posts_keyed_by_id(),
            r@ == (PostStoreView {
                posts: Map::empty(),
                original: Map::empty(),
                secondary: Map::empty(),
                video: Map::empty(),
                deleted: Set::empty(),
                retention_seconds,
                request_timeout_ms,
            }),
    {
        PostStore { maps: StoreMaps::empty(), retention_seconds, request_timeout_ms }
    }

    /// Marks the posts of `posts` as deleted: each is dropped from the store, its id remembered,
    /// and the event added to the deletion timeline.
    pub fn mark_as_deleted(&mut self, posts: Vec<TweetDeleteEvent>)
        ensures
            final(self)@.posts_keyed_by_id(),
            final(self)@ == with_deletions(old(self)@, posts@),
            forall|k: int|
                0 <= k < posts@.len() ==> final(self)@.deleted.contains(#[trigger] posts@[k].post_id)
                    && !final(self)@.posts.contains_key(posts@[k].post_id),
    {
        proof {
            use_type_invariant(&*self);
        }
        let ghost r = self.retention_seconds;
        let ghost t = self.request_timeout_ms;
        let mut maps = StoreMaps::empty();
        std::mem::swap(&mut maps, &mut self.maps);
        let n = posts.len();
        let mut i: usize = 0;
        while i < n
            invariant
                n == posts@.len(),
                i <= n,
                maps.keyed(),
                maps.with_settings(r, t) == with_deletions(old(self)@, posts@.take(i as int)),
            decreases n - i,
        {
            let post = posts[i];
            proof {
                assert(posts@.take(i + 1).drop_last() =~= posts@.take(i as int));
            }
            let ghost before = maps.with_settings(r, t);
            posts_remove(&mut maps.posts, post.post_id);
            flags_insert(&mut maps.deleted_posts, post.post_id, true);
            append_entry(
                &mut maps.original_posts_by_user,
                DELETE_EVENT_KEY,
                TinyPost { post_id: post.post_id, created_at: post.deleted_at },
            );
            assert(maps.with_settings(r, t) =~= with_deletion(before, post));
            i = i + 1;
        }
        assert(posts@.take(n as int) =~= posts@);
        self.maps = maps;
        proof {
            crate::store_laws::lemma_deletions_drop_and_mark(old(self)@, posts@);
        }
    }

    /// Takes in the posts of `posts` created less than the retention period before
    /// `current_time` (and not after it), oldest first.
    pub fn insert_posts_at(&mut self, posts: Vec<LightPost>, current_time: i64)
        ensures
            final(self)@.posts_keyed_by_id(),
            inserted_at(old(self)@, posts@, current_time, final(self)@),
    {
        let retention_seconds = self.retention_seconds;
        let ghost keep = |post: LightPost| is_recent(post, current_time, retention_seconds);
        let mut recent: Vec<LightPost> = Vec::new();
        let n = posts.len();
        let mut i: usize = 0;
        proof {
            crate::filter::lemma_partition_empty(posts@, keep);
        }
        while i < n
            invariant
                n == posts@.len(),
                i <= n,
                retention_seconds == self.retention_seconds,
                keep == (|post: LightPost| is_recent(post, current_time, retention_seconds)),
                recent@ == posts@.take(i as int).filter(keep),
            decreases n - i,
        {
            let post = posts[i];
            proof {
                lemma_filter_take_step(posts@, i as int, keep);
            }
            // Keep only posts created within the retention period and not in the future.
            if post.created_at < current_time && (current_time as i128) - (post.created_at as i128)
                <= (retention_seconds as i128) {
                recent.push(post);
            }
            i = i + 1;
        }
        assert(posts@.take(n as int) =~= posts@);
        assert(recent@ == recent_posts(posts@, current_time, retention_seconds));
        let ghost unsorted = recent@;
        sort_posts_by_creation(&mut recent);
        let ghost ordered = recent@;
        self.insert_posts_internal(recent);
        assert(inserted_at(old(self)@, posts@, current_time, self@)) by {
            assert(ordered.to_multiset() == unsorted.to_multiset());
        }
        proof {
            use_type_invariant(&*self);
        }
    }

    /// Takes in the posts of `posts` created within the retention period before now (by the
    /// system clock), oldest first.
    pub fn insert_posts(&mut self, posts: Vec<LightPost>)
        ensures
            final(self)@.posts_keyed_by_id(),
            exists|now: i64| inserted_at(old(self)@, posts@, now, final(self)@),
    {
        let current_time = #[verifier::truncate] (unix_time_secs() as i64);
        self.insert_posts_at(posts, current_time);
    }

    /// Drops every post and every timeline. The deleted ids stay remembered.
    pub fn clear(&mut self)
        ensures
            final(self)@.posts_keyed_by_id(),
            final(self)@ == (PostStoreView {
                posts: Map::empty(),
                original: Map::empty(),
                secondary: Map::empty(),
                video: Map::empty(),
                ..old(self)@
            }),
    {
        let mut maps = StoreMaps::empty();
        std::mem::swap(&mut maps, &mut self.maps);
        posts_clear(&mut maps.posts);
        timelines_clear(&mut maps.original_posts_by_user);
        timelines_clear(&mut maps.secondary_posts_by_user);
        timelines_clear(&mut maps.video_posts_by_user);
        self.maps = maps;
        proof {
            use_type_invariant(&*self);
        }
    }

    /// Whether `post` (stored) is handed out (see `post_eligible`).
    fn is_eligible(&self, post: &LightPost, following_users: &HashSet<i64>, request_user_id: i64) -> (r: bool)
        ensures
            r == post_eligible(self@, *post, following_users@, request_user_id),
    {
        broadcast use vstd::std_specs::hash::group_hash_axioms;
        // Deleted posts are never handed out.
        if flags_contains(&self.maps.deleted_posts, post.post_id) {
            return false;
        }
        // Nor are retweets of the requester's own posts.
        if post.is_retweet {
            if let Some(source_user_id) = post.source_user_id {
                if source_user_id == request_user_id {
                    return false;
                }
            }
        }
        if following_users.is_empty() {
            return true;
        }
        match post.in_reply_to_post_id {
            None => true,
            Some(reply_to_post_id) => {
                match posts_get(&self.maps.posts, reply_to_post_id) {
                    Some(replied_to_post) => {
                        if !replied_to_post.is_retweet && !replied_to_post.is_reply {
                            return true;
                        }
                        match post.conversation_id {
                            Some(convo_id) => {
                                let reply_to_reply_to_original = match replied_to_post.in_reply_to_post_id {
                                    Some(id) => id == convo_id,
                                    None => false,
                                };
                                let reply_to_followed_user = match post.in_reply_to_user_id {
                                    Some(uid) => following_users.contains(&uid),
                                    None => false,
                                };
                                reply_to_reply_to_original && reply_to_followed_user
                            },
                            None => false,
                        }
                    },
                    None => false,
                }
            },
        }
    }

    /// What one author's `timeline` contributes to a request (see `user_posts`): reading from its
    /// newest end (the back), skipping excluded ids and looking at `MAX_TINY_POSTS_PER_USER_SCAN`
    /// entries at most, the first `max_per_user` that refer to stored posts which are handed out,
    /// newest first.
    pub fn collect_user_posts(
        &self,
        timeline: &VecDeque<TinyPost>,
        max_per_user: usize,
        exclude_tweet_ids: &HashSet<i64>,
        following_users: &HashSet<i64>,
        request_user_id: i64,
    ) -> (r: Vec<LightPost>)
        ensures
            r@ == user_posts(
                self@,
                timeline@,
                max_per_user as nat,
                exclude_tweet_ids@,
                following_users@,
                request_user_id,
            ),
    {
        broadcast use vstd::std_specs::hash::group_hash_axioms;
        let ghost tl = timeline@;
        let ghost excluded = exclude_tweet_ids@;
        let ghost limit = MAX_TINY_POSTS_PER_USER_SCAN as nat;
        // Newest entries first (from the back), skipping excluded ones, up to the scan limit.
        let mut window: Vec<TinyPost> = Vec::new();
        let mut j: usize = timeline.len();
        proof {
            assert(tl.take(j as int) =~= tl);
            assert(window@ + scan_window(tl, excluded, limit) =~= scan_window(tl, excluded, limit));
        }
        while j > 0 && window.len() < MAX_TINY_POSTS_PER_USER_SCAN
            invariant
                tl == timeline@,
                excluded == exclude_tweet_ids@,
                limit == MAX_TINY_POSTS_PER_USER_SCAN as nat,
                j <= tl.len(),
                window@.len() <= limit,
                window@ + scan_window(tl.take(j as int), excluded, (limit - window@.len()) as nat)
                    == scan_window(tl, excluded, limit),
            decreases j,
        {
            let entry = timeline[j - 1];
            proof {
                let rest = (limit - window@.len()) as nat;
                assert(tl.take(j as int).drop_last() =~= tl.take(j - 1));
                assert(tl.take(j as int).last() == entry);
                if !excluded.contains(entry.post_id) {
                    assert(window@.push(entry) + scan_window(tl.take(j - 1), excluded, (rest - 1) as nat)
                        =~= window@ + (seq![entry] + scan_window(tl.take(j - 1), excluded, (rest - 1) as nat)));
                }
            }
            if !exclude_tweet_ids.contains(&entry.post_id) {
                window.push(entry);
            }
            j = j - 1;
        }
        proof {
            if j == 0 {
                assert(tl.take(0) =~= Seq::<TinyPost>::empty());
            }
            assert(scan_window(tl.take(j as int), excluded, (limit - window@.len()) as nat) =~= Seq::<TinyPost>::empty());
            assert(window@ =~= scan_window(tl, excluded, limit));
        }
        // The stored posts they refer to that are handed out, up to the per-author limit.
        let ghost following = following_users@;
        let ghost s = self@;
        let mut selected: Vec<LightPost> = Vec::new();
        let mut k: usize = 0;
        proof {
            assert(window@.skip(0) =~= window@);
            let all = first_eligible(s, window@, following, request_user_id, max_per_user as nat);
            assert(selected@ + all =~= all);
        }
        while k < window.len() && selected.len() < max_per_user
            invariant
                s == self@,
                following == following_users@,
                k <= window@.len(),
                selected@.len() <= max_per_user,
                selected@ + first_eligible(s, window@.skip(k as int), following, request_user_id, (max_per_user - selected@.len()) as nat)
                    == first_eligible(s, window@, following, request_user_id, max_per_user as nat),
            decreases window@.len() - k,
        {
            let entry = window[k];
            proof {
                assert(window@.skip(k as int).drop_first() =~= window@.skip(k + 1));
                assert(window@.skip(k as int)[0] == entry);
            }
            match posts_get(&self.maps.posts, entry.post_id) {
                Some(post) => {
                    if self.is_eligible(&post, following_users, request_user_id) {
                        proof {
                            let rest = (max_per_user - selected@.len()) as nat;
                            assert(selected@.push(post) + first_eligible(s, window@.skip(k + 1), following, request_user_id, (rest - 1) as nat)
                                =~= selected@ + (seq![post] + first_eligible(s, window@.skip(k + 1), following, request_user_id, (rest - 1) as nat)));
                        }
                        selected.push(post);
                    }
                },
                None => {},
            }
            k = k + 1;
        }
        proof {
            if k == window@.len() {
                assert(window@.skip(k as int) =~= Seq::<TinyPost>::empty());
            }
            assert(selected@ =~= first_eligible(s, window@, following, request_user_id, max_per_user as nat));
        }
        selected
    }

    /// Reads the store's timelines of kind `kind` for the authors `user_ids`, in order: each
    /// author with such a timeline contributes what `collect_user_posts` gives. When the store has
    /// a request timeout and that much time has passed since `start_time` (see
    /// `request_timed_out`), the remaining authors are skipped.
    pub fn get_posts_from_map(
        &self,
        kind: TimelineKind,
        user_ids: &[i64],
        max_per_user: usize,
        exclude_tweet_ids: &HashSet<i64>,
        following_users: &HashSet<i64>,
        start_time: Instant,
        request_user_id: i64,
    ) -> (r: Vec<LightPost>)
        ensures
            exists|n: int|
                read_prefix(
                    self@,
                    self@.timelines_of(kind),
                    user_ids@,
                    max_per_user as nat,
                    exclude_tweet_ids@,
                    following_users@,
                    request_user_id,
                    n,
                    r@,
                ) && stopped_only_on_timeout(self@.request_timeout_ms, start_time, n, user_ids@.len() as int),
    {
        let timelines_map = match kind {
            TimelineKind::Original => &self.maps.original_posts_by_user,
            TimelineKind::Secondary => &self.maps.secondary_posts_by_user,
            TimelineKind::Video => &self.maps.video_posts_by_user,
        };
        let ghost m = timelines(*timelines_map);
        assert(m == self@.timelines_of(kind));
        let ghost users = user_ids@;
        let ghost s = self@;
        let ghost excluded = exclude_tweet_ids@;
        let ghost following = following_users@;
        let mut light_posts: Vec<LightPost> = Vec::new();
        let n = user_ids.len();
        let mut i: usize = 0;
        let ghost mut handled: int = n as int;
        // Called through a value, so that each reading is known to come from `elapsed_millis`.
        let read_clock = elapsed_millis;
        proof {
            assert(users.take(0) =~= Seq::<i64>::empty());
            assert(users.take(n as int) =~= users);
        }
        while i < n
            invariant_except_break
                handled == n,
            invariant
                stopped_only_on_timeout(self.request_timeout_ms, start_time, handled, n as int),
                n == users.len(),
                users == user_ids@,
                users.take(n as int) == users,
                m == timelines(*timelines_map),
                s == self@,
                excluded == exclude_tweet_ids@,
                following == following_users@,
                i <= n,
                light_posts@ == posts_for_users(s, m, users.take(i as int), max_per_user as nat, excluded, following, request_user_id),
            ensures
                read_prefix(s, m, users, max_per_user as nat, excluded, following, request_user_id, handled, light_posts@),
                stopped_only_on_timeout(self.request_timeout_ms, start_time, handled, n as int),
            decreases n - i,
        {
            if self.request_timeout_ms != 0 {
                let elapsed_ms = read_clock(&start_time);
                if request_timed_out(self.request_timeout_ms, elapsed_ms) {
                    // Out of time: the remaining authors are skipped.
                    proof {
                        handled = i as int;
                        assert(elapsed_reading(start_time, elapsed_ms));
                    }
                    break;
                }
            }
            let user_id = user_ids[i];
            proof {
                assert(users.take(i + 1).drop_last() =~= users.take(i as int));
                assert(users.take(i + 1).last() == user_id);
            }
            match timeline_get(timelines_map, user_id) {
                Some(guard) => {
                    let timeline = guarded_value(&guard);
                    let mut newest = self.collect_user_posts(
                        timeline,
                        max_per_user,
                        exclude_tweet_ids,
                        following_users,
                        request_user_id,
                    );
                    light_posts.append(&mut newest);
                },
                None => {
                    assert(light_posts@ =~= posts_for_users(s, m, users.take(i + 1), max_per_user as nat, excluded, following, request_user_id));
                },
            }
            i = i + 1;
        }
        proof {
            assert(read_prefix(self@, self@.timelines_of(kind), user_ids@, max_per_user as nat, excluded, following, request_user_id, handled, light_posts@));
            assert(stopped_only_on_timeout(self@.request_timeout_ms, start_time, handled, user_ids@.len() as int));
        }
        light_posts
    }

    /// The video posts of the authors `user_ids` (see `get_posts_from_map`), at most
    /// `MAX_VIDEO_POSTS_PER_AUTHOR` per author.
    pub fn get_videos_by_users(
        &self,
        user_ids: &[i64],
        exclude_tweet_ids: &HashSet<i64>,
        start_time: Instant,
        request_user_id: i64,
    ) -> (r: Vec<LightPost>)
        ensures
            exists|n: int|
                read_prefix(
                    self@,
                    self@.video,
                    user_ids@,
                    MAX_VIDEO_POSTS_PER_AUTHOR as nat,
                    exclude_tweet_ids@,
                    Set::empty(),
                    request_user_id,
                    n,
                    r@,
                ) && stopped_only_on_timeout(self@.request_timeout_ms, start_time, n, user_ids@.len() as int),
    {
        let no_following: HashSet<i64> = HashSet::new();
        let video_posts = self.get_posts_from_map(
            TimelineKind::Video,
            user_ids,
            MAX_VIDEO_POSTS_PER_AUTHOR,
            exclude_tweet_ids,
            &no_following,
            start_time,
            request_user_id,
        );
        proof {
            let n = choose|n: int|
                read_prefix(
                    self@,
                    self@.video,
                    user_ids@,
                    MAX_VIDEO_POSTS_PER_AUTHOR as nat,
                    exclude_tweet_ids@,
                    no_following@,
                    request_user_id,
                    n,
                    video_posts@,
                ) && stopped_only_on_timeout(self@.request_timeout_ms, start_time, n, user_ids@.len() as int);
            assert(read_prefix(
                self@,
                self@.video,
                user_ids@,
                MAX_VIDEO_POSTS_PER_AUTHOR as nat,
                exclude_tweet_ids@,
                Set::empty(),
                request_user_id,
                n,
                video_posts@,
            ));
        }
        video_posts
    }

    /// The original posts of the authors `user_ids` (at most `MAX_ORIGINAL_POSTS_PER_AUTHOR` per
    /// author), followed by their replies and retweets (at most `MAX_REPLY_POSTS_PER_AUTHOR` per
    /// author, replies only when they stay among `user_ids`; see `reply_visible`).
    pub fn get_all_posts_by_users(
        &self,
        user_ids: &[i64],
        exclude_tweet_ids: &HashSet<i64>,
        start_time: Instant,
        request_user_id: i64,
    ) -> (r: Vec<LightPost>)
        ensures
            exists|n1: int, n2: int, originals: Seq<LightPost>, secondary: Seq<LightPost>|
                {
                    &&& read_prefix(
                        self@,
                        self@.original,
                        user_ids@,
                        MAX_ORIGINAL_POSTS_PER_AUTHOR as nat,
                        exclude_tweet_ids@,
                        Set::empty(),
                        request_user_id,
                        n1,
                        originals,
                    )
                    &&& read_prefix(
                        self@,
                        self@.secondary,
                        user_ids@,
                        MAX_REPLY_POSTS_PER_AUTHOR as nat,
                        exclude_tweet_ids@,
                        user_ids@.to_set(),
                        request_user_id,
                        n2,
                        secondary,
                    )
                    &&& stopped_only_on_timeout(self@.request_timeout_ms, start_time, n1, user_ids@.len() as int)
                    &&& stopped_only_on_timeout(self@.request_timeout_ms, start_time, n2, user_ids@.len() as int)
                    &&& r@ == originals + secondary
                },
    {
        broadcast use vstd::std_specs::hash::group_hash_axioms;
        let mut following_users_set: HashSet<i64> = HashSet::new();
        let n = user_ids.len();
        let mut i: usize = 0;
        while i < n
            invariant
                n == user_ids@.len(),
                i <= n,
                following_users_set@ == user_ids@.take(i as int).to_set(),
            decreases n - i,
        {
            proof {
                assert(user_ids@.take(i + 1).to_set() =~= user_ids@.take(i as int).to_set().insert(user_ids@[i as int])) by {
                    assert(user_ids@.take(i + 1) =~= user_ids@.take(i as int).push(user_ids@[i as int]));
                    user_ids@.take(i as int).lemma_push_to_set_commute(user_ids@[i as int]);
                }
            }
            following_users_set.insert(user_ids[i]);
            i = i + 1;
        }
        assert(user_ids@.take(n as int) =~= user_ids@);
        let no_following: HashSet<i64> = HashSet::new();
        let mut all_posts = self.get_posts_from_map(
            TimelineKind::Original,
            user_ids,
            MAX_ORIGINAL_POSTS_PER_AUTHOR,
            exclude_tweet_ids,
            &no_following,
            start_time,
            request_user_id,
        );
        let ghost originals = all_posts@;
        let mut secondary_posts = self.get_posts_from_map(
            TimelineKind::Secondary,
            user_ids,
            MAX_REPLY_POSTS_PER_AUTHOR,
            exclude_tweet_ids,
            &following_users_set,
            start_time,
            request_user_id,
        );
        let ghost secondary = secondary_posts@;
        all_posts.append(&mut secondary_posts);
        proof {
            let n1 = choose|n: int|
                read_prefix(
                    self@,
                    self@.original,
                    user_ids@,
                    MAX_ORIGINAL_POSTS_PER_AUTHOR as nat,
                    exclude_tweet_ids@,
                    no_following@,
                    request_user_id,
                    n,
                    originals,
                ) && stopped_only_on_timeout(self@.request_timeout_ms, start_time, n, user_ids@.len() as int);
            let n2 = choose|n: int|
                read_prefix(
                    self@,
                    self@.secondary,
                    user_ids@,
                    MAX_REPLY_POSTS_PER_AUTHOR as nat,
                    exclude_tweet_ids@,
                    following_users_set@,
                    request_user_id,
                    n,
                    secondary,
                ) && stopped_only_on_timeout(self@.request_timeout_ms, start_time, n, user_ids@.len() as int);
            assert(read_prefix(
                self@,
                self@.original,
                user_ids@,
                MAX_ORIGINAL_POSTS_PER_AUTHOR as nat,
                exclude_tweet_ids@,
                Set::empty(),
                request_user_id,
                n1,
                originals,
            ));
            assert(read_prefix(
                self@,
                self@.secondary,
                user_ids@,
                MAX_REPLY_POSTS_PER_AUTHOR as nat,
                exclude_tweet_ids@,
                user_ids@.to_set(),
                request_user_id,
                n2,
                secondary,
            ));
            assert(all_posts@ == originals + secondary);
        }
        all_posts
    }

    /// Trims at time `current_time` (see `after_trim`) and returns how many entries the original
    /// and secondary timelines lost (entries dropped from video timelines are not counted).
    pub fn trim_old_posts_at(&mut self, current_time: u64) -> (trimmed: usize)
        ensures
            final(self)@.posts_keyed_by_id(),
            final(self)@ == after_trim(old(self)@, current_time),
            trimmed == capped(
                sum_over_set(
                    old(self)@.original.dom(),
                    expired_at(old(self)@.original, current_time, old(self)@.retention_seconds),
                ) + sum_over_set(
                    old(self)@.secondary.dom(),
                    expired_at(old(self)@.secondary, current_time, old(self)@.retention_seconds),
                ),
            ),
    {
        proof {
            use_type_invariant(&*self);
        }
        let retention_seconds = self.retention_seconds;
        let ghost s0 = self@;
        let mut maps = StoreMaps::empty();
        std::mem::swap(&mut maps, &mut self.maps);
        let trimmed_original = trim_map(
            &mut maps.original_posts_by_user,
            &mut maps.posts,
            &mut maps.deleted_posts,
            current_time,
            retention_seconds,
        );
        let trimmed_secondary = trim_map(
            &mut maps.secondary_posts_by_user,
            &mut maps.posts,
            &mut maps.deleted_posts,
            current_time,
            retention_seconds,
        );
        trim_map(
            &mut maps.video_posts_by_user,
            &mut maps.posts,
            &mut maps.deleted_posts,
            current_time,
            retention_seconds,
        );
        let total = trimmed_original.saturating_add(trimmed_secondary);
        proof {
            let r = retention_seconds;
            let eo = expired_ids(s0.original, s0.original.dom(), current_time, r);
            let es = expired_ids(s0.secondary, s0.secondary.dom(), current_time, r);
            let ev = expired_ids(s0.video, s0.video.dom(), current_time, r);
            assert(s0.posts.remove_keys(eo).remove_keys(es).remove_keys(ev) =~= s0.posts.remove_keys(eo + es + ev));
            let del = set![DELETE_EVENT_KEY];
            let d_o = expired_ids(s0.original, del, current_time, r);
            let d_s = expired_ids(s0.secondary, del, current_time, r);
            let d_v = expired_ids(s0.video, del, current_time, r);
            assert(s0.deleted - d_o - d_s - d_v =~= s0.deleted - (d_o + d_s + d_v));
            assert(maps.with_settings(s0.retention_seconds, s0.request_timeout_ms) =~= after_trim(s0, current_time));
            assert forall|id: i64| #[trigger] stored_posts(maps.posts).contains_key(id) implies stored_posts(maps.posts)[id].post_id == id by {
                assert(s0.posts.contains_key(id));
            }
            let uo = choose|users: Seq<i64>|
                #![trigger enumerates(users, s0.original)]
                enumerates(users, s0.original) && trimmed_original == capped(
                    sum_over(users, expired_at(s0.original, current_time, r)),
                );
            let us = choose|users: Seq<i64>|
                #![trigger enumerates(users, s0.secondary)]
                enumerates(users, s0.secondary) && trimmed_secondary == capped(
                    sum_over(users, expired_at(s0.secondary, current_time, r)),
                );
            lemma_sum_over_set(uo, s0.original.dom(), expired_at(s0.original, current_time, r));
            lemma_sum_over_set(us, s0.secondary.dom(), expired_at(s0.secondary, current_time, r));
        }
        self.maps = maps;
        total
    }

    /// Trims posts older than the retention period as of now (by the system clock); see
    /// `trim_old_posts_at`.
    pub fn trim_old_posts(&mut self) -> (trimmed: usize)
        ensures
            final(self)@.posts_keyed_by_id(),
            exists|now: u64|
                {
                    &&& final(self)@ == after_trim(old(self)@, now)
                    &&& trimmed == capped(
                        sum_over_set(
                            old(self)@.original.dom(),
                            expired_at(old(self)@.original, now, old(self)@.retention_seconds),
                        ) + sum_over_set(
                            old(self)@.secondary.dom(),
                            expired_at(old(self)@.secondary, now, old(self)@.retention_seconds),
                        ),
                    )
                },
    {
        let current_time = unix_time_secs();
        self.trim_old_posts_at(current_time)
    }

    /// Sorts every timeline by creation time, oldest first, so that reads, which start from the
    /// newest end (the back), see the newest posts first.
    pub fn sort_all_user_posts(&mut self)
        ensures
            final(self)@.posts_keyed_by_id(),
            sorted_store(old(self)@, final(self)@),
    {
        proof {
            use_type_invariant(&*self);
        }
        let mut maps = StoreMaps::empty();
        std::mem::swap(&mut maps, &mut self.maps);
        sort_map(&mut maps.original_posts_by_user);
        sort_map(&mut maps.secondary_posts_by_user);
        sort_map(&mut maps.video_posts_by_user);
        self.maps = maps;
    }

    /// Completes the initial load at time `current_time`: sorts the timelines, trims them, then
    /// drops every stored post whose id is marked deleted (creation and deletion events may
    /// have come in either order).
    pub fn finalize_init_at(&mut self, current_time: u64) -> (r: Result<(), String>)
        ensures
            r is Ok,
            final(self)@.posts_keyed_by_id(),
            exists|sorted: PostStoreView|
                sorted_store(old(self)@, sorted) && final(self)@ == without_deleted_posts(
                    after_trim(sorted, current_time),
                ) && final(self)@.deleted == after_trim(sorted, current_time).deleted,
    {
        self.sort_all_user_posts();
        let ghost sorted = self@;
        self.trim_old_posts_at(current_time);
        let ghost trimmed_view = self@;
        let ghost r = self.retention_seconds;
        let ghost t = self.request_timeout_ms;
        let mut maps = StoreMaps::empty();
        std::mem::swap(&mut maps, &mut self.maps);
        let deleted_ids = flags_keys(&maps.deleted_posts);
        let n = deleted_ids.len();
        let mut i: usize = 0;
        while i < n
            invariant
                n == deleted_ids@.len(),
                i <= n,
                enumerates(deleted_ids@, flagged_ids(maps.deleted_posts)),
                maps.with_settings(r, t) == (PostStoreView {
                    posts: trimmed_view.posts.remove_keys(deleted_ids@.take(i as int).to_set()),
                    ..trimmed_view
                }),
                trimmed_view.posts_keyed_by_id(),
            decreases n - i,
        {
            proof {
                assert(deleted_ids@.take(i + 1).to_set() =~= deleted_ids@.take(i as int).to_set().insert(deleted_ids@[i as int])) by {
                    assert(deleted_ids@.take(i + 1) =~= deleted_ids@.take(i as int).push(deleted_ids@[i as int]));
                    deleted_ids@.take(i as int).lemma_push_to_set_commute(deleted_ids@[i as int]);
                }
            }
            posts_remove(&mut maps.posts, deleted_ids[i]);
            i = i + 1;
            proof {
                assert(maps.with_settings(r, t) =~= PostStoreView {
                    posts: trimmed_view.posts.remove_keys(deleted_ids@.take(i as int).to_set()),
                    ..trimmed_view
                });
            }
        }
        proof {
            assert(deleted_ids@.take(n as int) =~= deleted_ids@);
            assert(maps.with_settings(r, t) =~= without_deleted_posts(after_trim(sorted, current_time)));
            assert forall|id: i64| #[trigger] stored_posts(maps.posts).contains_key(id) implies stored_posts(maps.posts)[id].post_id == id by {
                assert(trimmed_view.posts.contains_key(id));
            }
        }
        self.maps = maps;
        Ok(())
    }

    /// Completes the initial load as of now (by the system clock); see `finalize_init_at`.
    pub fn finalize_init(&mut self) -> (r: Result<(), String>)
        ensures
            r is Ok,
            final(self)@.posts_keyed_by_id(),
            exists|now: u64, sorted: PostStoreView|
                sorted_store(old(self)@, sorted) && final(self)@ == without_deleted_posts(
                    after_trim(sorted, now),
                ) && final(self)@.deleted == after_trim(sorted, now).deleted,
    {
        let current_time = unix_time_secs();
        self.finalize_init_at(current_time)
    }

    /// How many users, posts, deleted ids and timeline entries the store holds.
    pub fn stats(&self) -> (r: PostStoreStats)
        ensures
            r.user_count == self@.original.len(),
            r.total_posts == self@.posts.len(),
            r.deleted_posts == self@.deleted.len(),
            r.original_posts_count == capped(sum_over_set(self@.original.dom(), entries_at(self@.original))),
            r.secondary_posts_count == capped(sum_over_set(self@.secondary.dom(), entries_at(self@.secondary))),
            r.video_posts_count == capped(sum_over_set(self@.video.dom(), entries_at(self@.video))),
    {
        let original_posts_count = total_entries(&self.maps.original_posts_by_user);
        let secondary_posts_count = total_entries(&self.maps.secondary_posts_by_user);
        let video_posts_count = total_entries(&self.maps.video_posts_by_user);
        proof {
            let uo = choose|users: Seq<i64>|
                #![trigger enumerates(users, timelines(self.maps.original_posts_by_user))]
                enumerates(users, timelines(self.maps.original_posts_by_user)) && original_posts_count
                    == capped(sum_over(users, entries_at(timelines(self.maps.original_posts_by_user))));
            lemma_sum_over_set(uo, self@.original.dom(), entries_at(self@.original));
            let us = choose|users: Seq<i64>|
                #![trigger enumerates(users, timelines(self.maps.secondary_posts_by_user))]
                enumerates(users, timelines(self.maps.secondary_posts_by_user)) && secondary_posts_count
                    == capped(sum_over(users, entries_at(timelines(self.maps.secondary_posts_by_user))));
            lemma_sum_over_set(us, self@.secondary.dom(), entries_at(self@.secondary));
            let uv = choose|users: Seq<i64>|
                #![trigger enumerates(users, timelines(self.maps.video_posts_by_user))]
                enumerates(users, timelines(self.maps.video_posts_by_user)) && video_posts_count
                    == capped(sum_over(users, entries_at(timelines(self.maps.video_posts_by_user))));
            lemma_sum_over_set(uv, self@.video.dom(), entries_at(self@.video));
        }
        PostStoreStats {
            user_count: timelines_len(&self.maps.original_posts_by_user),
            total_posts: posts_len(&self.maps.posts),
            deleted_posts: flags_len(&self.maps.deleted_posts),
            original_posts_count,
            secondary_posts_count,
            video_posts_count,
        }
    }

    /// Takes in `posts` one by one, in order.
    fn insert_posts_internal(&mut self, posts: Vec<LightPost>)
        ensures
            final(self)@ == with_posts(old(self)@, posts@),
    {
        proof {
            use_type_invariant(&*self);
        }
        let ghost r = self.retention_seconds;
        let ghost t = self.request_timeout_ms;
        let mut maps = StoreMaps::empty();
        std::mem::swap(&mut maps, &mut self.maps);
        let n = posts.len();
        let mut i: usize = 0;
        while i < n
            invariant
                n == posts@.len(),
                i <= n,
                maps.keyed(),
                maps.with_settings(r, t) == with_posts(old(self)@, posts@.take(i as int)),
            decreases n - i,
        {
            proof {
                assert(posts@.take(i + 1).drop_last() =~= posts@.take(i as int));
            }
            maps.insert_post(posts[i]);
            i = i + 1;
        }
        assert(posts@.take(n as int) =~= posts@);
        self.maps = maps;
    }
}

impl Default for PostStore {
    /// A post store with nothing in it that keeps posts for two days, without a request timeout.
    fn default() -> (r: Self)
        ensures
            r@.posts_keyed_by_id(),
            r@ == (PostStoreView {
                posts: Map::empty(),
                original: Map::empty(),
                secondary: Map::empty(),
                video: Map::empty(),
                deleted: Set::empty(),
                retention_seconds: 172800,
                request_timeout_ms: 0,
            }),
    {
        Self::new(2 * 24 * 60 * 60, 0)
    }
}

} // verus!
