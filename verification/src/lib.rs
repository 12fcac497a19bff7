//! Verified core of a music-library manager: library scanning and import
//! bookkeeping, track queries, cloud-sync path resolution, audio-analysis task
//! control, artwork handling and removable-device management.
pub mod text;
pub mod error;
pub mod device;
pub mod schema;
pub mod query;
pub mod resolution;
pub mod library;
pub mod analysis;
pub mod artwork;
pub mod tags;
