//! Plain data records of the catalog, the metadata providers and the TV views.

pub mod db;
pub mod metadata;
pub mod tv;
pub mod user;
