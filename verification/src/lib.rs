//! An Emby-compatible media server: reading names and metadata of media files,
//! shaping stored rows into the objects of the protocol, and the decisions behind
//! its endpoints and background jobs. Nothing here does input or output.

pub mod auth;
pub mod block_cache;
pub mod cache;
pub mod emby;
pub mod filename;
pub mod hosts;
pub mod ids;
pub mod images;
pub mod items;
pub mod jobs;
pub mod json;
pub mod library;
pub mod login;
pub mod nfo;
pub mod number;
pub mod outbound;
pub mod params;
pub mod pattern;
pub mod progress;
pub mod streaming;
pub mod taxonomy;
pub mod text;
pub mod watcher;
pub mod xml;
