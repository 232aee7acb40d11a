use vstd::prelude::*;

verus! {

/// A post as the in-network store keeps it: its ids, time, kind and the posts it refers to.
#[derive(Debug, Clone, Copy, PartialEq, Eq, Structural)]
pub struct LightPost {
    pub post_id: i64,
    pub author_id: i64,
    pub created_at: i64,
    pub in_reply_to_post_id: Option<i64>,
    pub in_reply_to_user_id: Option<i64>,
    pub is_retweet: bool,
    pub is_reply: bool,
    pub source_post_id: Option<i64>,
    pub source_user_id: Option<i64>,
    pub has_video: bool,
    pub conversation_id: Option<i64>,
}

/// The deletion of post `post_id` at time `deleted_at`.
#[derive(Debug, Clone, Copy, PartialEq, Eq, Structural)]
pub struct TweetDeleteEvent {
    pub post_id: i64,
    pub deleted_at: i64,
}

} // verus!
