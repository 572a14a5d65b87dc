//! The feeds listed in the settings file.

use vstd::prelude::*;

verus! {

/// One feed of the settings file.
#[derive(Debug, PartialEq, Eq)]
pub struct Feed {
    /// Address of the feed.
    pub url: String,
    /// Minutes between two checks of the feed.
    pub interval: u64,
    /// Extra options handed to the downloader.
    pub option: String,
    /// Directory that receives the downloads.
    pub path: String,
    /// Whether the feed is watched at all.
    pub update: bool,
}

/// The whole settings file.
#[derive(Debug, PartialEq, Eq)]
pub struct Settings {
    pub feed: Vec<Feed>,
}

} // verus!
