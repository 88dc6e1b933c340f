//! Rows as the stores hand them over.
//!
//! A community rating is a floating-point number that this crate only carries;
//! it is held as its IEEE 754 bits.

use vstd::prelude::*;

verus! {

/// An item with its media source, its place in a series and one user's state.
#[derive(Debug, Clone)]
pub struct ItemRow {
    pub id: i64,
    pub library_id: Option<i64>,
    pub item_type: String,
    pub title: String,
    pub description: Option<String>,
    pub date_air: Option<String>,
    pub created_at: String,
    pub updated_at: String,
    pub container: Option<String>,
    pub file_second: Option<i64>,
    pub uuid: Option<String>,
    pub name: Option<String>,
    pub path_type: Option<String>,
    pub path_url: Option<String>,
    pub play_ms: i64,
    pub is_complete: i64,
    pub play_count: i64,
    pub is_favorite: i64,
    pub season_number: Option<i64>,
    pub episode_number: Option<i64>,
    pub series_id: Option<i64>,
    pub series_name: Option<String>,
    pub season_id: Option<i64>,
    pub season_name: Option<String>,
    pub is_virtual: i64,
    pub tmdb_id: Option<String>,
    pub imdb_id: Option<String>,
    pub tvdb_id: Option<String>,
    /// The bits of the rating.
    pub community_rating: Option<u64>,
    pub official_rating: Option<String>,
    pub tagline: Option<String>,
    pub sort_title: Option<String>,
    pub end_date: Option<String>,
    pub status: Option<String>,
    pub production_year: Option<i64>,
}

/// The part of an item that a "continue watching" card shows.
#[derive(Debug, Clone)]
pub struct ResumeEntry {
    pub id: i64,
    pub item_type: String,
    pub title: String,
    pub created_at: String,
    pub play_ms: i64,
    pub is_complete: i64,
    pub play_count: i64,
    pub is_favorite: i64,
    pub file_second: Option<i64>,
    pub production_year: Option<i64>,
    pub date_air: Option<String>,
    pub season_number: Option<i64>,
    pub episode_number: Option<i64>,
    pub series_id: Option<i64>,
    pub series_name: Option<String>,
    pub season_id: Option<i64>,
    pub season_name: Option<String>,
    pub tmdb_id: Option<String>,
    pub imdb_id: Option<String>,
    pub tvdb_id: Option<String>,
}

/// The image rows of one item, by type; backdrops in ascending order.
#[derive(Debug, Clone, Default)]
pub struct ImageTypeIds {
    pub primary: Option<i64>,
    pub backdrops: Vec<i64>,
    pub logo: Option<i64>,
    pub thumb: Option<i64>,
    pub banner: Option<i64>,
}

/// A person as credited on an item.
#[derive(Debug, Clone)]
pub struct PersonBrief {
    pub id: i64,
    pub name: String,
    pub role: String,
    pub character_name: Option<String>,
    pub primary_image_id: Option<i64>,
}

/// The genres, people, studios and tags of one item.
#[derive(Debug, Clone, Default)]
pub struct ItemTaxonomy {
    pub genres: Vec<(i64, String)>,
    pub people: Vec<PersonBrief>,
    pub studios: Vec<(i64, String)>,
    pub tags: Vec<String>,
}

/// A person.
#[derive(Debug, Clone)]
pub struct PersonRow {
    pub id: i64,
    pub tmdb_id: Option<String>,
    pub name: String,
    pub original_name: Option<String>,
    pub gender: i64,
    pub description: Option<String>,
    pub birthday: Option<String>,
    pub deathday: Option<String>,
    pub created_at: String,
    pub updated_at: String,
}

/// One user's state of one item.
#[derive(Debug, Clone)]
pub struct UserItemData {
    pub played: i64,
    pub play_count: i64,
    pub playback_position_ticks: Option<i64>,
    pub last_played_date: Option<String>,
    pub is_favorite: i64,
}

/// A stream of a media file, as probed. A frame rate is held as its bits.
#[derive(Debug, Clone)]
pub struct StreamInfo {
    pub stream_type: String,
    pub codec: String,
    pub index: Option<i64>,
    pub title: Option<String>,
    pub language: Option<String>,
    pub width: Option<i64>,
    pub height: Option<i64>,
    /// The bits of the frame rate.
    pub frame_rate: Option<u64>,
    pub bit_rate: Option<i64>,
    pub channels: Option<i64>,
    pub sample_rate: Option<i64>,
    pub pixel_format: Option<String>,
    pub profile: Option<String>,
    pub bit_depth: Option<i64>,
    pub color_primaries: Option<String>,
    pub color_space: Option<String>,
    pub color_transfer: Option<String>,
    pub display_aspect_ratio: Option<String>,
    pub is_default: Option<bool>,
    pub is_forced: Option<bool>,
    pub time_base: Option<String>,
    pub level: Option<i64>,
    pub refs: Option<i64>,
    pub is_interlaced: Option<bool>,
    pub channel_layout: Option<String>,
    pub sample_aspect_ratio: Option<String>,
    pub is_avc: Option<bool>,
}

/// A media file or link of an item.
#[derive(Debug, Clone)]
pub struct MediaSourceRow {
    pub media_id: Option<i64>,
    pub item_id: i64,
    pub uuid: Option<String>,
    pub name: Option<String>,
    pub path_type: Option<String>,
    pub path_url: Option<String>,
    pub file_container: Option<String>,
    pub file_size: Option<i64>,
    pub file_second: Option<i64>,
    /// The probed streams as JSON.
    pub file_metadata: Option<String>,
    /// The chapters as JSON.
    pub file_chapters: Option<String>,
}

/// A subtitle file beside a media file.
#[derive(Debug, Clone)]
pub struct ExternalSubtitleRow {
    pub display_title: Option<String>,
    pub codec: Option<String>,
    pub path: Option<String>,
    pub is_forced: i64,
}

} // verus!
