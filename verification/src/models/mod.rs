//! Feed documents, feed settings and stored rows, with the retry policy used when
//! a feed is requested.

pub mod rss;
pub mod setting;
pub mod sqlite;
