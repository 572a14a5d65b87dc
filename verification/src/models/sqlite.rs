//! Rows of the database as the feed-based storage layer writes them.

use vstd::prelude::*;

verus! {

/// A recorded feed.
#[derive(Debug, PartialEq, Eq)]
pub struct Source {
    pub id: u32,
    pub link: String,
    pub title: String,
}

/// A recorded feed entry.
#[derive(Debug, PartialEq, Eq)]
pub struct Content {
    pub id: u32,
    pub source_id: u32,
    pub link: String,
    pub title: String,
}

} // verus!
