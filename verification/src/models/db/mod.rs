//! Rows of the catalog database, one module per table.

pub mod albums;
pub mod artists;
pub mod episodes;
pub mod galleries;
pub mod libraries;
pub mod library;
pub mod library_providers;
pub mod media;
pub mod media_info;
pub mod music_videos;
pub mod provider;
pub mod provider_configs;
pub mod settings;
pub mod tracks;
