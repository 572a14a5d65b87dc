//! An RSS feed as the serde-xml-rs based fetcher reads it; requests for it follow the retry
//! policy of `crate::models::rss`.

use vstd::prelude::*;

verus! {

/// One entry of a feed.
#[derive(Debug, PartialEq, Eq)]
pub struct Item {
    pub title: String,
    pub description: String,
    /// Publication date; empty when the feed leaves it out.
    pub pub_date: String,
    pub link: String,
    pub author: String,
}

/// The channel of a feed.
#[derive(Debug, PartialEq, Eq)]
pub struct Channel {
    pub title: String,
    pub description: String,
    /// Date of the last build; empty when the feed leaves it out.
    pub last_build_date: String,
    pub item: Vec<Item>,
}

/// A whole feed document.
#[derive(Debug, PartialEq, Eq)]
pub struct Rss {
    pub channel: Channel,
}

} // verus!
