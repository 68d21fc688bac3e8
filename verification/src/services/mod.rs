//! The services of the media server, as far as they decide or compute.

pub mod book_service;
pub mod books;
pub mod catalog;
pub mod gallery_service;
pub mod images;
pub mod library_service;
pub mod lyrics_service;
pub mod media_service;
pub mod metadata_service;
pub mod playlists_service;
pub mod progress_service;
pub mod scanner;
pub mod transcode;
