//! Reading IPTV playlists in the M3U format, indexing their channels by name and group,
//! ranked fuzzy search over channel names, and playlist statistics; with the settings and
//! the decisions of a terminal player built on them.
pub mod buckets;
pub mod channel;
pub mod config;
pub mod extinf;
pub mod index;
pub mod lists;
pub mod player;
pub mod playlist;
pub mod search;
pub mod stats;
pub mod text;
pub mod ui;
pub mod utils;
