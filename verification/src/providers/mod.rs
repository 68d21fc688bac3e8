//! Metadata providers.

pub mod tmdb;
