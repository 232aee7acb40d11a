# thunder_mixer

Building blocks of a timeline-ranking service, verified with Verus.

- `src/filter.rs`, `hydrator.rs`, `query_hydrator.rs`, `scorer.rs`, `selector.rs`: the stage
  traits of the candidate pipeline, with their default methods proved (a filter splits its
  candidates, `update_all` merges pairwise, the default selector sorts stably by descending
  score and truncates).
- `src/self_tweet_filter.rs`, `retweet_deduplication_filter.rs`, `top_k_score_selector.rs`:
  the home mixer's stages, each with an exact contract.
- `src/post_store.rs`: the in-network post store (posts by id, per-author timelines of original,
  secondary and video posts, deleted ids), modelled by `src/store_model.rs`; its laws are in
  `src/store_laws.rs`.
- `src/shared_map.rs`, `clock.rs`, `ordering.rs`, `timeline.rs`: the trusted items through which
  the library calls `dashmap` and the standard library.
- `app/`: the shared asynchronous store with its background tasks, stage names, the conversion of
  floating-point scores to ordering keys, and the serde form of the user features.
