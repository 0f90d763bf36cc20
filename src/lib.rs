//! Search and relevance engine of a job board: an append-only word store,
//! a tokenizer and indexer, a typo-tolerant corrector, a multi-variant
//! weighted ranker, a work-item queue, and the bodies and guards of the
//! background ticks that keep index and corrector current. Around it stand
//! the board's records (accounts, posts, tags, categories), their sample and
//! seed data, and the texts derived from them.

pub mod account;
pub mod category;
pub mod config;
pub mod corrector;
pub mod database;
pub mod error;
pub mod imported_content;
pub mod mocks;
pub mod post;
pub mod post_links;
pub mod ranking;
pub mod requests;
pub mod scheduler;
pub mod search;
pub mod seeds;
pub mod services;
pub mod tag;
pub mod task;
pub mod task_queue;
pub mod text;
pub mod ticks;
pub mod word_store;
