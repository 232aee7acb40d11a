use std::collections::{HashSet, VecDeque};
use std::time::Instant;
use thunder_mixer::config::{DELETE_EVENT_KEY, MAX_ORIGINAL_POSTS_PER_AUTHOR, MAX_TINY_POSTS_PER_USER_SCAN};
use thunder_mixer::light_post::{LightPost, TweetDeleteEvent};
use thunder_mixer::post_store::{request_timed_out, PostStore};
use thunder_mixer::store_model::TimelineKind;
use thunder_mixer::timeline::TinyPost;

const NOW: i64 = 1_000_000;
const DAY: u64 = 24 * 60 * 60;

fn original(post_id: i64, author_id: i64, created_at: i64) -> LightPost {
    LightPost {
        post_id,
        author_id,
        created_at,
        in_reply_to_post_id: None,
        in_reply_to_user_id: None,
        is_retweet: false,
        is_reply: false,
        source_post_id: None,
        source_user_id: None,
        has_video: false,
        conversation_id: None,
    }
}

fn retweet(post_id: i64, author_id: i64, created_at: i64, source_post_id: i64, source_user_id: i64) -> LightPost {
    LightPost {
        is_retweet: true,
        source_post_id: Some(source_post_id),
        source_user_id: Some(source_user_id),
        ..original(post_id, author_id, created_at)
    }
}

fn reply(post_id: i64, author_id: i64, created_at: i64, to_post: i64, to_user: i64, conversation: i64) -> LightPost {
    LightPost {
        is_reply: true,
        in_reply_to_post_id: Some(to_post),
        in_reply_to_user_id: Some(to_user),
        conversation_id: Some(conversation),
        ..original(post_id, author_id, created_at)
    }
}

fn ids(posts: &[LightPost]) -> Vec<i64> {
    posts.iter().map(|p| p.post_id).collect()
}

fn no_exclusions() -> HashSet<i64> {
    HashSet::new()
}

#[test]
fn new_store_is_empty() {
    let store = PostStore::new(DAY, 0);
    let stats = store.stats();
    assert_eq!(stats.user_count, 0);
    assert_eq!(stats.total_posts, 0);
    assert_eq!(stats.deleted_posts, 0);
    assert_eq!(stats.original_posts_count, 0);
    let read = store.get_all_posts_by_users(&[1, 2], &no_exclusions(), Instant::now(), 99);
    assert!(read.is_empty());
}

#[test]
fn default_store_keeps_two_days() {
    let mut store = PostStore::default();
    // Two days minus one second ago is kept; two days plus one second ago is not.
    store.insert_posts_at(vec![original(1, 7, NOW - 2 * DAY as i64 + 1), original(2, 7, NOW - 2 * DAY as i64 - 1)], NOW);
    let read = store.get_all_posts_by_users(&[7], &no_exclusions(), Instant::now(), 99);
    assert_eq!(ids(&read), vec![1]);
}

#[test]
fn insert_keeps_recent_posts_only() {
    let mut store = PostStore::new(100, 0);
    store.insert_posts_at(
        vec![
            original(1, 7, NOW - 100), // exactly at the retention limit: kept
            original(2, 7, NOW - 101), // too old
            original(3, 7, NOW),       // not before now: dropped
            original(4, 7, NOW + 5),   // from the future: dropped
            original(5, 7, NOW - 1),
        ],
        NOW,
    );
    let read = store.get_all_posts_by_users(&[7], &no_exclusions(), Instant::now(), 99);
    assert_eq!(ids(&read), vec![5, 1]);
    assert_eq!(store.stats().total_posts, 2);
}

#[test]
fn reads_come_newest_first_and_sorted_on_insert() {
    let mut store = PostStore::new(DAY, 0);
    // Handed in out of order: the store sorts a batch by creation time.
    store.insert_posts_at(vec![original(3, 7, NOW - 10), original(1, 7, NOW - 30), original(2, 7, NOW - 20)], NOW);
    let read = store.get_all_posts_by_users(&[7], &no_exclusions(), Instant::now(), 99);
    assert_eq!(ids(&read), vec![3, 2, 1]);
}

#[test]
fn reads_cap_posts_per_author() {
    let mut store = PostStore::new(DAY, 0);
    let n = MAX_ORIGINAL_POSTS_PER_AUTHOR as i64 + 3;
    let posts: Vec<LightPost> = (0..n).map(|i| original(100 + i, 7, NOW - 1000 + i)).collect();
    store.insert_posts_at(posts, NOW);
    let read = store.get_all_posts_by_users(&[7], &no_exclusions(), Instant::now(), 99);
    assert_eq!(read.len(), MAX_ORIGINAL_POSTS_PER_AUTHOR);
    assert_eq!(read[0].post_id, 100 + n - 1);
}

#[test]
fn reads_skip_excluded_posts() {
    let mut store = PostStore::new(DAY, 0);
    store.insert_posts_at(vec![original(1, 7, NOW - 3), original(2, 7, NOW - 2), original(3, 7, NOW - 1)], NOW);
    let excluded: HashSet<i64> = [3, 1].into_iter().collect();
    let read = store.get_all_posts_by_users(&[7], &excluded, Instant::now(), 99);
    assert_eq!(ids(&read), vec![2]);
}

#[test]
fn reads_skip_retweets_of_the_requesters_posts() {
    let mut store = PostStore::new(DAY, 0);
    store.insert_posts_at(vec![original(1, 99, NOW - 5), retweet(2, 7, NOW - 4, 1, 99), retweet(3, 7, NOW - 3, 50, 8)], NOW);
    let read = store.get_all_posts_by_users(&[7], &no_exclusions(), Instant::now(), 99);
    assert_eq!(ids(&read), vec![3]);
    // Another requester sees both retweets.
    let read = store.get_all_posts_by_users(&[7], &no_exclusions(), Instant::now(), 5);
    assert_eq!(ids(&read), vec![3, 2]);
}

#[test]
fn originals_come_before_replies_and_retweets() {
    let mut store = PostStore::new(DAY, 0);
    store.insert_posts_at(
        vec![original(1, 7, NOW - 9), retweet(2, 7, NOW - 8, 40, 4), original(3, 8, NOW - 7), retweet(4, 8, NOW - 6, 41, 4)],
        NOW,
    );
    let read = store.get_all_posts_by_users(&[7, 8], &no_exclusions(), Instant::now(), 99);
    assert_eq!(ids(&read), vec![1, 3, 2, 4]);
}

#[test]
fn replies_need_a_visible_parent() {
    let mut store = PostStore::new(DAY, 0);
    store.insert_posts_at(
        vec![
            original(10, 5, NOW - 20),                // a root post by someone
            reply(11, 7, NOW - 19, 10, 5, 10),        // reply to an original: shown
            reply(12, 8, NOW - 18, 11, 7, 10),        // reply to a reply to the root, to followed user 7: shown
            reply(13, 8, NOW - 17, 11, 6, 10),        // same, but to a user not followed: hidden
            reply(14, 7, NOW - 16, 999, 5, 999),      // reply to a post not stored: hidden
            reply(15, 8, NOW - 15, 12, 8, 10),        // reply to a reply that is not to the root: hidden
        ],
        NOW,
    );
    let read = store.get_all_posts_by_users(&[7, 8], &no_exclusions(), Instant::now(), 99);
    assert_eq!(ids(&read), vec![11, 12]);
}

#[test]
fn video_posts_include_retweets_of_videos() {
    let mut store = PostStore::new(DAY, 0);
    let video = LightPost { has_video: true, ..original(1, 5, NOW - 10) };
    let video_reply = LightPost { has_video: true, ..reply(2, 5, NOW - 9, 1, 5, 1) };
    store.insert_posts_at(vec![video, video_reply, retweet(3, 7, NOW - 8, 1, 5), retweet(4, 7, NOW - 7, 2, 5)], NOW);
    let read = store.get_videos_by_users(&[5, 7], &no_exclusions(), Instant::now(), 99);
    // The reply is no video post, and neither is a retweet of it.
    assert_eq!(ids(&read), vec![1, 3]);
    assert_eq!(store.stats().video_posts_count, 2);
}

#[test]
fn deleted_posts_are_not_read_and_not_stored_again() {
    let mut store = PostStore::new(DAY, 0);
    store.insert_posts_at(vec![original(1, 7, NOW - 3), original(2, 7, NOW - 2)], NOW);
    store.mark_as_deleted(vec![TweetDeleteEvent { post_id: 2, deleted_at: NOW - 1 }]);
    let read = store.get_all_posts_by_users(&[7], &no_exclusions(), Instant::now(), 99);
    assert_eq!(ids(&read), vec![1]);
    // The deleted post does not come back.
    store.insert_posts_at(vec![original(2, 7, NOW - 2)], NOW);
    let read = store.get_all_posts_by_users(&[7], &no_exclusions(), Instant::now(), 99);
    assert_eq!(ids(&read), vec![1]);
    let stats = store.stats();
    assert_eq!(stats.deleted_posts, 1);
    // The deletion timeline holds the event.
    assert_eq!(stats.user_count, 2);
    assert_eq!(stats.original_posts_count, 3);
}

#[test]
fn inserting_a_post_twice_adds_one_entry() {
    let mut store = PostStore::new(DAY, 0);
    store.insert_posts_at(vec![original(1, 7, NOW - 3)], NOW);
    store.insert_posts_at(vec![original(1, 7, NOW - 3)], NOW);
    assert_eq!(store.stats().original_posts_count, 1);
    assert_eq!(store.stats().total_posts, 1);
}

#[test]
fn trimming_drops_expired_entries_and_their_posts() {
    let mut store = PostStore::new(100, 0);
    store.insert_posts_at(vec![original(1, 7, 950), original(2, 7, 980), retweet(3, 8, 990, 1, 7)], 1000);
    assert_eq!(store.stats().total_posts, 3);
    // At 1080 the first post is 130 seconds old, the others 100 and 90.
    let trimmed = store.trim_old_posts_at(1080);
    assert_eq!(trimmed, 1);
    let read = store.get_all_posts_by_users(&[7, 8], &no_exclusions(), Instant::now(), 99);
    assert_eq!(ids(&read), vec![2, 3]);
    // Everything expires eventually, and the emptied timelines go.
    let trimmed = store.trim_old_posts_at(5000);
    assert_eq!(trimmed, 2);
    let stats = store.stats();
    assert_eq!(stats.total_posts, 0);
    assert_eq!(stats.user_count, 0);
}

#[test]
fn trimming_the_deletion_timeline_forgets_old_deletions() {
    let mut store = PostStore::new(100, 0);
    store.mark_as_deleted(vec![TweetDeleteEvent { post_id: 5, deleted_at: 900 }]);
    assert_eq!(store.stats().deleted_posts, 1);
    let trimmed = store.trim_old_posts_at(1100);
    assert_eq!(trimmed, 1);
    assert_eq!(store.stats().deleted_posts, 0);
    // Once forgotten, the post may be stored again.
    store.insert_posts_at(vec![original(5, 7, 1090)], 1100);
    let read = store.get_all_posts_by_users(&[7], &no_exclusions(), Instant::now(), 99);
    assert_eq!(ids(&read), vec![5]);
}

#[test]
fn trimming_stops_at_the_first_recent_entry() {
    let mut store = PostStore::new(100, 0);
    // Two batches out of creation order: the timeline is not sorted.
    store.insert_posts_at(vec![original(1, 7, 990)], 1000);
    store.insert_posts_at(vec![original(2, 7, 950)], 1000);
    // At 1080 post 2 is expired, but the oldest end of the timeline holds the recent post 1.
    assert_eq!(store.trim_old_posts_at(1080), 0);
    // Sorting first puts post 2 at the oldest end, where trimming reaches it.
    store.sort_all_user_posts();
    assert_eq!(store.trim_old_posts_at(1080), 1);
    let read = store.get_all_posts_by_users(&[7], &no_exclusions(), Instant::now(), 99);
    assert_eq!(ids(&read), vec![1]);
}

#[test]
fn finalize_init_sorts_trims_and_drops_deleted_posts() {
    let mut store = PostStore::new(100, 0);
    store.insert_posts_at(vec![original(1, 7, 990)], 1000);
    store.insert_posts_at(vec![original(2, 7, 950), original(3, 7, 995)], 1000);
    // A deletion that reached the store before the post did is applied here.
    store.mark_as_deleted(vec![TweetDeleteEvent { post_id: 4, deleted_at: 1001 }]);
    store.insert_posts_at(vec![original(6, 7, 996)], 1000);
    assert!(store.finalize_init_at(1080).is_ok());
    let read = store.get_all_posts_by_users(&[7], &no_exclusions(), Instant::now(), 99);
    assert_eq!(ids(&read), vec![6, 3, 1]);
    assert_eq!(store.stats().total_posts, 3);
}

#[test]
fn clear_keeps_the_deleted_ids() {
    let mut store = PostStore::new(DAY, 0);
    store.insert_posts_at(vec![original(1, 7, NOW - 3)], NOW);
    store.mark_as_deleted(vec![TweetDeleteEvent { post_id: 9, deleted_at: NOW - 1 }]);
    store.clear();
    let stats = store.stats();
    assert_eq!(stats.total_posts, 0);
    assert_eq!(stats.user_count, 0);
    assert_eq!(stats.deleted_posts, 1);
    store.insert_posts_at(vec![original(9, 7, NOW - 3)], NOW);
    assert_eq!(store.stats().total_posts, 0);
}

#[test]
fn collect_user_posts_scans_a_bounded_window() {
    let mut store = PostStore::new(DAY, 0);
    let n = MAX_TINY_POSTS_PER_USER_SCAN as i64 + 10;
    // Only the oldest post is stored; the newer entries refer to nothing.
    store.insert_posts_at(vec![original(1, 7, NOW - 1000)], NOW);
    // Timelines hold their entries oldest first; reads start from the back.
    let mut timeline: VecDeque<TinyPost> = VecDeque::new();
    timeline.push_back(TinyPost::new(1, NOW - 1000));
    for i in 0..n {
        timeline.push_back(TinyPost::new(1000 + i, NOW - 500 + i));
    }
    let read = store.collect_user_posts(&timeline, 5, &no_exclusions(), &HashSet::new(), 99);
    assert!(read.is_empty());
    // With a short timeline the stored post is within reach.
    let mut short: VecDeque<TinyPost> = VecDeque::new();
    short.push_back(TinyPost::new(1, NOW - 1000));
    short.push_back(TinyPost::new(1000, NOW - 500));
    let read = store.collect_user_posts(&short, 5, &no_exclusions(), &HashSet::new(), 99);
    assert_eq!(ids(&read), vec![1]);
}

#[test]
fn a_spent_request_timeout_skips_the_authors() {
    let mut store = PostStore::new(DAY, 1);
    store.insert_posts_at(vec![original(1, 7, NOW - 3)], NOW);
    let start = Instant::now().checked_sub(std::time::Duration::from_millis(50)).unwrap();
    let read = store.get_all_posts_by_users(&[7], &no_exclusions(), start, 99);
    assert!(read.is_empty());
}

#[test]
fn delete_event_key_is_the_deletion_timeline() {
    let mut store = PostStore::new(DAY, 0);
    store.mark_as_deleted(vec![TweetDeleteEvent { post_id: 3, deleted_at: NOW }]);
    // Deletion events are not posts: a read of that key finds no stored post.
    let read = store.get_all_posts_by_users(&[DELETE_EVENT_KEY], &no_exclusions(), Instant::now(), 99);
    assert!(read.is_empty());
}

#[test]
fn insert_posts_uses_the_clock() {
    let mut store = PostStore::new(DAY, 0);
    let now = std::time::SystemTime::now().duration_since(std::time::UNIX_EPOCH).unwrap().as_secs() as i64;
    store.insert_posts(vec![original(1, 7, now - 10), original(2, 7, now - 3 * DAY as i64)]);
    assert_eq!(store.stats().total_posts, 1);
    assert_eq!(store.trim_old_posts(), 0);
    assert!(store.finalize_init().is_ok());
    assert_eq!(store.stats().total_posts, 1);
}

#[test]
fn batch_order_does_not_matter_with_distinct_times() {
    // A retweet listed before its older video source still counts as a video post.
    let source = LightPost { has_video: true, ..original(1, 5, NOW - 10) };
    let rt = retweet(2, 7, NOW - 5, 1, 5);
    let mut a = PostStore::new(DAY, 0);
    a.insert_posts_at(vec![rt, source], NOW);
    let mut b = PostStore::new(DAY, 0);
    b.insert_posts_at(vec![source, rt], NOW);
    let ra = a.get_videos_by_users(&[5, 7], &no_exclusions(), Instant::now(), 99);
    let rb = b.get_videos_by_users(&[5, 7], &no_exclusions(), Instant::now(), 99);
    assert_eq!(ids(&ra), vec![1, 2]);
    assert_eq!(ids(&ra), ids(&rb));
    assert_eq!(a.stats(), b.stats());
}

#[test]
fn sorting_puts_the_newest_entry_first() {
    let mut store = PostStore::new(DAY, 0);
    // Two batches: the older post arrives last and so sits at the newest end until sorted.
    store.insert_posts_at(vec![original(1, 7, NOW - 1)], NOW);
    store.insert_posts_at(vec![original(2, 7, NOW - 2)], NOW);
    let read = store.get_all_posts_by_users(&[7], &no_exclusions(), Instant::now(), 99);
    assert_eq!(ids(&read), vec![2, 1]);
    store.sort_all_user_posts();
    let read = store.get_all_posts_by_users(&[7], &no_exclusions(), Instant::now(), 99);
    assert_eq!(ids(&read), vec![1, 2]);
}

#[test]
fn request_timed_out_needs_a_timeout() {
    assert!(!request_timed_out(0, 1_000_000));
    assert!(!request_timed_out(10, 9));
    assert!(request_timed_out(10, 10));
    assert!(request_timed_out(10, 11));
}

#[test]
fn get_posts_from_map_reads_from_the_newest_end() {
    let mut store = PostStore::new(86400, 0);
    store.insert_posts_at(vec![original(10, 1, 100), original(11, 1, 200), original(12, 1, 300)], 1000);
    let excluded: HashSet<i64> = [12].into_iter().collect();
    let read = store.get_posts_from_map(TimelineKind::Original, &[1], 1, &excluded, &HashSet::new(), Instant::now(), 99);
    assert_eq!(ids(&read), vec![11]);
    // An author without a timeline adds nothing.
    let read = store.get_posts_from_map(TimelineKind::Original, &[1, 2], 2, &no_exclusions(), &HashSet::new(), Instant::now(), 99);
    assert_eq!(ids(&read), vec![12, 11]);
    // The other kinds of timeline hold none of these posts.
    let read = store.get_posts_from_map(TimelineKind::Secondary, &[1], 2, &no_exclusions(), &HashSet::new(), Instant::now(), 99);
    assert!(read.is_empty());
    let read = store.get_posts_from_map(TimelineKind::Video, &[1], 2, &no_exclusions(), &HashSet::new(), Instant::now(), 99);
    assert!(read.is_empty());
}

#[test]
fn trimming_keeps_the_recent_entries_in_order() {
    let mut store = PostStore::new(100, 0);
    store.insert_posts_at(vec![original(1, 7, 900), original(2, 7, 950), original(3, 7, 990), original(4, 7, 995)], 1000);
    // At 1060 posts 1 and 2 are expired; 3 and 4 stay, in their order.
    assert_eq!(store.trim_old_posts_at(1060), 2);
    let read = store.get_all_posts_by_users(&[7], &no_exclusions(), Instant::now(), 99);
    assert_eq!(ids(&read), vec![4, 3]);
}

#[test]
fn a_deletion_outlasts_sorting_clearing_and_later_batches() {
    let mut store = PostStore::new(DAY, 0);
    store.insert_posts_at(vec![original(1, 7, NOW - 3), original(2, 7, NOW - 2)], NOW);
    store.mark_as_deleted(vec![TweetDeleteEvent { post_id: 2, deleted_at: NOW - 1 }]);
    store.sort_all_user_posts();
    store.insert_posts_at(vec![original(2, 7, NOW - 2), original(3, 7, NOW - 1)], NOW);
    let read = store.get_all_posts_by_users(&[7], &no_exclusions(), Instant::now(), 99);
    assert_eq!(ids(&read), vec![3, 1]);
    store.clear();
    store.insert_posts_at(vec![original(2, 7, NOW - 2)], NOW);
    let read = store.get_all_posts_by_users(&[7], &no_exclusions(), Instant::now(), 99);
    assert!(read.is_empty());
    assert_eq!(store.stats().deleted_posts, 1);
}
