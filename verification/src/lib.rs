//! Watches a set of Reddit posts, refreshing each post's score on a fixed
//! period and persisting posts with their score history in a local database.
//!
//! The in-memory state lives in [`store::Store`], a mapping from post id to
//! [`reddit::Post`].  A background poller (driven by the embedding program)
//! snapshots the watched ids, fetches a score per id, and applies the
//! successful results back into the store and the database.  Commands
//! ([`store::Msg`]) are dispatched through [`store::Store::update`], which
//! answers every command with exactly one [`store::Reply`].

pub mod db;
pub mod reddit;
pub mod reddit_api_response;
pub mod reddit_mock;
pub mod reddit_page_response;
pub mod replies;
pub mod store;
pub mod strutil;
