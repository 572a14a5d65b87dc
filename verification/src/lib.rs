//! Decision logic of a webhook that watches Bilibili favourite lists (or RSS feeds)
//! and downloads every new video once.
//!
//! Everything here is plain computation over plain values; the program around it
//! performs the network, database, process and file work and feeds the results back.

pub mod config;
pub mod models;
pub mod rss;
pub mod setting;
pub mod sqlite;
pub mod text;
pub mod update;
pub mod writer;
