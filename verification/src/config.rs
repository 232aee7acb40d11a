use vstd::prelude::*;

verus! {

/// The timeline key under which deletion events are recorded in the original-posts timelines.
pub const DELETE_EVENT_KEY: i64 = -1;

/// How many original posts one author contributes at most to a request.
pub const MAX_ORIGINAL_POSTS_PER_AUTHOR: usize = 10;

/// How many replies and retweets one author contributes at most to a request.
pub const MAX_REPLY_POSTS_PER_AUTHOR: usize = 10;

/// How many video posts one author contributes at most to a request.
pub const MAX_VIDEO_POSTS_PER_AUTHOR: usize = 10;

/// How many timeline entries (newest first, not counting excluded ones) are looked at per author.
pub const MAX_TINY_POSTS_PER_USER_SCAN: usize = 100;

} // verus!
