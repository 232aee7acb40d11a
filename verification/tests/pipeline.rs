use thunder_mixer::candidate::{PostCandidate, ScoredPostsQuery, NEG_INFINITY_SCORE};
use thunder_mixer::filter::{Filter, FilterResult};
use thunder_mixer::hydrator::Hydrator;
use thunder_mixer::params::TOP_K_CANDIDATES_TO_SELECT;
use thunder_mixer::query_features::UserFeatures;
use thunder_mixer::query_hydrator::QueryHydrator;
use thunder_mixer::retweet_deduplication_filter::RetweetDeduplicationFilter;
use thunder_mixer::scorer::Scorer;
use thunder_mixer::selector::Selector;
use thunder_mixer::self_tweet_filter::SelfTweetFilter;
use thunder_mixer::timeline::TinyPost;
use thunder_mixer::top_k_score_selector::TopKScoreSelector;

fn candidate(tweet_id: i64, author_id: u64, retweeted: Option<u64>, score: Option<i64>) -> PostCandidate {
    PostCandidate { tweet_id, author_id, retweeted_tweet_id: retweeted, score }
}

fn ids(v: &[PostCandidate]) -> Vec<i64> {
    v.iter().map(|c| c.tweet_id).collect()
}

#[test]
fn tiny_post_new_keeps_fields() {
    let p = TinyPost::new(7, 42);
    assert_eq!(p.post_id, 7);
    assert_eq!(p.created_at, 42);
}

#[test]
fn self_tweet_filter_removes_the_viewers_posts() {
    let query = ScoredPostsQuery { user_id: 9 };
    let candidates = vec![
        candidate(1, 9, None, None),
        candidate(2, 3, None, None),
        candidate(3, 9, Some(77), None),
        candidate(4, 4, None, None),
    ];
    let FilterResult { kept, removed } = SelfTweetFilter.filter(&query, candidates).unwrap();
    assert_eq!(ids(&kept), vec![2, 4]);
    assert_eq!(ids(&removed), vec![1, 3]);
}

#[test]
fn self_tweet_filter_compares_the_viewer_id_as_unsigned() {
    // A negative viewer id compares as its two's-complement unsigned value.
    let query = ScoredPostsQuery { user_id: -1 };
    let candidates = vec![candidate(1, u64::MAX, None, None), candidate(2, 1, None, None)];
    let result = SelfTweetFilter.filter(&query, candidates).unwrap();
    assert_eq!(ids(&result.kept), vec![2]);
    assert_eq!(ids(&result.removed), vec![1]);
}

#[test]
fn self_tweet_filter_on_no_candidates() {
    let query = ScoredPostsQuery { user_id: 1 };
    let result = SelfTweetFilter.filter(&query, Vec::new()).unwrap();
    assert!(result.kept.is_empty());
    assert!(result.removed.is_empty());
}

#[test]
fn retweet_deduplication_keeps_the_first_carrier() {
    let query = ScoredPostsQuery { user_id: 1 };
    let candidates = vec![
        candidate(100, 1, None, None),      // original 100
        candidate(101, 2, Some(100), None), // retweet of 100: already seen
        candidate(102, 3, Some(200), None), // first retweet of 200
        candidate(103, 4, Some(200), None), // second retweet of 200
        candidate(200, 5, None, None),      // original 200: already carried by a retweet
        candidate(104, 6, Some(300), None), // first retweet of 300
    ];
    let result = RetweetDeduplicationFilter.filter(&query, candidates).unwrap();
    assert_eq!(ids(&result.kept), vec![100, 102, 104]);
    assert_eq!(ids(&result.removed), vec![101, 103, 200]);
}

#[test]
fn retweet_deduplication_removes_an_original_after_its_retweet() {
    let query = ScoredPostsQuery { user_id: 1 };
    let retweet = candidate(2, 1, Some(1), None);
    let original = candidate(1, 1, None, None);
    let result = RetweetDeduplicationFilter.filter(&query, vec![retweet, original]).unwrap();
    assert_eq!(result.kept, vec![retweet]);
    assert_eq!(result.removed, vec![original]);
}

#[test]
fn retweet_deduplication_filters_retweets_after_their_original() {
    let query = ScoredPostsQuery { user_id: 1 };
    let candidates = vec![candidate(5, 1, None, None), candidate(6, 2, Some(5), None), candidate(7, 3, Some(5), None)];
    let result = RetweetDeduplicationFilter.filter(&query, candidates).unwrap();
    assert_eq!(ids(&result.kept), vec![5]);
    assert_eq!(ids(&result.removed), vec![6, 7]);
}

#[test]
fn filters_are_enabled_by_default() {
    let query = ScoredPostsQuery { user_id: 1 };
    assert!(SelfTweetFilter.enable(&query));
    assert!(RetweetDeduplicationFilter.enable(&query));
}

#[test]
fn top_k_selector_orders_by_descending_score_and_keeps_ties_in_order() {
    let query = ScoredPostsQuery { user_id: 1 };
    let candidates = vec![
        candidate(1, 1, None, Some(5)),
        candidate(2, 1, None, None),
        candidate(3, 1, None, Some(9)),
        candidate(4, 1, None, Some(5)),
        candidate(5, 1, None, Some(-3)),
    ];
    let selected = TopKScoreSelector.select(&query, candidates);
    assert_eq!(ids(&selected), vec![3, 1, 4, 5, 2]);
}

#[test]
fn top_k_selector_keeps_at_most_k() {
    let query = ScoredPostsQuery { user_id: 1 };
    let n = TOP_K_CANDIDATES_TO_SELECT + 5;
    let candidates: Vec<PostCandidate> = (0..n).map(|i| candidate(i as i64, 1, None, Some(i as i64))).collect();
    let selected = TopKScoreSelector.select(&query, candidates);
    assert_eq!(selected.len(), TOP_K_CANDIDATES_TO_SELECT);
    // The best-scored come first, and every kept score beats every dropped one.
    assert_eq!(selected[0].tweet_id, (n - 1) as i64);
    assert_eq!(selected[TOP_K_CANDIDATES_TO_SELECT - 1].tweet_id, 5);
}

#[test]
fn top_k_selector_scores_a_missing_score_lowest() {
    let selector = TopKScoreSelector;
    assert_eq!(selector.score(&candidate(1, 1, None, None)), NEG_INFINITY_SCORE);
    assert_eq!(selector.score(&candidate(1, 1, None, Some(i64::MIN))), NEG_INFINITY_SCORE);
    assert_eq!(selector.score(&candidate(1, 1, None, Some(3))), 3);
    assert_eq!(selector.size(), Some(TOP_K_CANDIDATES_TO_SELECT));
}

#[test]
fn top_k_selector_sort_keeps_everything() {
    let query = ScoredPostsQuery { user_id: 1 };
    let selector = TopKScoreSelector;
    let sorted = selector.sort(vec![candidate(1, 1, None, Some(1)), candidate(2, 1, None, Some(2))]);
    assert_eq!(ids(&sorted), vec![2, 1]);
    assert!(selector.enable(&query));
    assert!(selector.select(&query, Vec::new()).is_empty());
}

/// A hydrator that copies the score from the hydrated copy.
struct ScoreCopier;

impl Hydrator<ScoredPostsQuery, PostCandidate> for ScoreCopier {
    fn updated(&self, candidate: PostCandidate, hydrated: PostCandidate) -> PostCandidate {
        PostCandidate { score: hydrated.score, ..candidate }
    }

    fn hydrate(&self, _query: &ScoredPostsQuery, candidates: &[PostCandidate]) -> Result<Vec<PostCandidate>, String> {
        Ok(candidates.iter().map(|c| PostCandidate { score: Some(c.tweet_id * 10), ..*c }).collect())
    }

    fn update(&self, candidate: &mut PostCandidate, hydrated: PostCandidate) {
        candidate.score = hydrated.score;
    }
}

impl Scorer<ScoredPostsQuery, PostCandidate> for ScoreCopier {
    fn updated(&self, candidate: PostCandidate, scored: PostCandidate) -> PostCandidate {
        PostCandidate { score: scored.score, ..candidate }
    }

    fn score(&self, _query: &ScoredPostsQuery, candidates: &[PostCandidate]) -> Result<Vec<PostCandidate>, String> {
        Ok(candidates.iter().map(|c| PostCandidate { score: Some(-c.tweet_id), ..*c }).collect())
    }

    fn update(&self, candidate: &mut PostCandidate, scored: PostCandidate) {
        candidate.score = scored.score;
    }
}

#[test]
fn hydrator_update_all_pairs_candidates_in_order() {
    let query = ScoredPostsQuery { user_id: 1 };
    let mut candidates = vec![candidate(1, 1, None, None), candidate(2, 1, None, None), candidate(3, 1, None, None)];
    let hydrated = Hydrator::hydrate(&ScoreCopier, &query, &candidates).unwrap();
    assert_eq!(hydrated.len(), 3);
    // Only the first two get hydrated entries; the third stays as it was.
    Hydrator::update_all(&ScoreCopier, &mut candidates, hydrated[..2].to_vec());
    assert_eq!(candidates[0].score, Some(10));
    assert_eq!(candidates[1].score, Some(20));
    assert_eq!(candidates[2].score, None);
    assert!(Hydrator::enable(&ScoreCopier, &query));
}

#[test]
fn hydrator_update_all_drops_extra_entries() {
    let mut candidates = vec![candidate(1, 1, None, None)];
    let hydrated = vec![candidate(1, 1, None, Some(4)), candidate(2, 1, None, Some(8))];
    Hydrator::update_all(&ScoreCopier, &mut candidates, hydrated);
    assert_eq!(candidates.len(), 1);
    assert_eq!(candidates[0].score, Some(4));
}

#[test]
fn scorer_update_all_pairs_candidates_in_order() {
    let query = ScoredPostsQuery { user_id: 1 };
    let mut candidates = vec![candidate(1, 1, None, None), candidate(2, 1, None, None)];
    let scored = Scorer::score(&ScoreCopier, &query, &candidates).unwrap();
    Scorer::update_all(&ScoreCopier, &mut candidates, scored);
    assert_eq!(candidates[0].score, Some(-1));
    assert_eq!(candidates[1].score, Some(-2));
    assert!(Scorer::enable(&ScoreCopier, &query));
}

/// A query hydrator that fills in the viewer id.
struct ViewerFiller;

impl QueryHydrator<ScoredPostsQuery> for ViewerFiller {
    fn updated(&self, _query: ScoredPostsQuery, hydrated: ScoredPostsQuery) -> ScoredPostsQuery {
        ScoredPostsQuery { user_id: hydrated.user_id }
    }

    fn hydrate(&self, _query: &ScoredPostsQuery) -> Result<ScoredPostsQuery, String> {
        Ok(ScoredPostsQuery { user_id: 42 })
    }

    fn update(&self, query: &mut ScoredPostsQuery, hydrated: ScoredPostsQuery) {
        query.user_id = hydrated.user_id;
    }
}

#[test]
fn query_hydrator_updates_the_query() {
    let mut query = ScoredPostsQuery { user_id: 1 };
    assert!(ViewerFiller.enable(&query));
    let hydrated = ViewerFiller.hydrate(&query).unwrap();
    ViewerFiller.update(&mut query, hydrated);
    assert_eq!(query.user_id, 42);
}

#[test]
fn user_features_default_is_empty() {
    let features = UserFeatures::default();
    assert!(features.muted_keywords.is_empty());
    assert!(features.blocked_user_ids.is_empty());
    assert!(features.followed_user_ids.is_empty());
    let copy = UserFeatures { muted_keywords: vec!["spoiler".to_string()], ..features.clone() };
    assert_ne!(copy, features);
}
