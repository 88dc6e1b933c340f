//! Shaping of stored rows into the objects of the Emby protocol.

pub mod cards;
pub mod item;
pub mod language;
pub mod latest;
pub mod lists;
pub mod media_source;
pub mod person;
pub mod rows;
pub mod shared;
pub mod streams;
pub mod views;
