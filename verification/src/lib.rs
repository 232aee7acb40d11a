//! Candidate pipeline building blocks and the in-network post store.

pub mod filter;
pub mod hydrator;
pub mod scorer;
pub mod query_hydrator;
pub mod ordering;
pub mod selector;
pub mod candidate;
pub mod query_features;
pub mod self_tweet_filter;
pub mod retweet_deduplication_filter;
pub mod params;
pub mod top_k_score_selector;
pub mod config;
pub mod light_post;
pub mod timeline;
pub mod clock;
pub mod shared_map;
pub mod store_model;
pub mod post_store;
pub mod store_laws;
