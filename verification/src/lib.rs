//! Feed subscriptions and the ingestion pipeline that turns a fetched feed
//! document into deduplicated, canonical items.

pub mod encoding;
pub mod feed;
pub mod feed_item;
pub mod feed_manager;
pub mod feed_reader;
pub mod feed_storage;
