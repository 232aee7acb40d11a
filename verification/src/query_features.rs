use vstd::prelude::*;

verus! {

/// What the home mixer knows of the viewer when it builds a query: muted keywords and the users
/// the viewer blocked, muted, follows or subscribes to.
#[derive(Debug, Clone, PartialEq, Default)]
pub struct UserFeatures {
    pub muted_keywords: Vec<String>,
    pub blocked_user_ids: Vec<i64>,
    pub muted_user_ids: Vec<i64>,
    pub followed_user_ids: Vec<i64>,
    pub subscribed_user_ids: Vec<i64>,
}

} // verus!
