//! Core of a BitTorrent tracker frontend and its crawler: decoding a binary
//! info-hash feed, sandboxed access to per-torrent scratch directories, the
//! BEP15 UDP tracker-scrape wire format, magnet reference construction, RSS
//! feed rendering, and the crawl orchestration rules.

pub mod api;
pub mod endpoint;
pub mod feed;
pub mod listing;
pub mod orchestrator;
pub mod paths;
pub mod peers;
pub mod preload;
pub mod public;
pub mod scrape;
pub mod scraper;
pub mod storage;
pub mod text;
pub mod torrent;
pub mod trackers;
