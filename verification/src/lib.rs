//! Verified core of the offline messaging protocol.

pub mod assoc;
pub mod base64_codec;
pub mod config;
pub mod constants;
pub mod error;
pub mod events;
pub mod file_transfer;
pub mod group_mesh;
pub mod message;
pub mod rosters;
pub mod text;
