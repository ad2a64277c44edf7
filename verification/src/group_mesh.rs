//! Group messaging: MLS-encrypted, transport-agnostic group operations.

pub mod administration;
pub mod buffer;
pub mod commits;
pub mod dated;
pub mod dedup;
pub mod effect;
pub mod elections;
pub mod forks;
pub mod inbound;
pub mod laws;
pub mod limits;
pub mod membership;
pub mod messages;
pub mod pending_commits;
pub mod pending_messages;
pub mod relay;
pub mod reports;
pub mod roles;
pub mod sending;
pub mod state;
pub mod trusted;
pub mod types;
pub mod upkeep;
