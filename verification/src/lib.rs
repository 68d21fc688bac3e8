//! Verified core of the Vortex media server: codec and container
//! normalisation, playback decisions, FFmpeg argument building, the HLS
//! playlist and transcode job rules, probe results, the scanner's reading of
//! paths and tags, books and lyrics, folder browsing, photo albums and the
//! recycle bin, and metadata provider chains.

pub mod error;
pub mod models;
pub mod number;
pub mod paths;
pub mod providers;
pub mod pattern;
pub mod services;
pub mod sort;
pub mod text;
