//! Catalog ingestion for IPTV playlists.
//!
//! The library takes raw provider responses (JSON in several incompatible
//! dialects, or M3U playlist text), classifies them, extracts category and
//! stream records, normalizes them into canonical channel rows, and replaces
//! a playlist's catalog in a transactional store. Network and SQL execution
//! live outside the library; everything here is pure logic over plain values.

pub mod assoc;
pub mod extract;
pub mod json;
pub mod laws;
pub mod m3u;
pub mod models;
pub mod normalize;
pub mod store;
pub mod sync;
pub mod text;
