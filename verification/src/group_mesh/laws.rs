//! What holds of group messaging as a whole.

pub mod authority;
pub mod buffers;
pub mod changes;
pub mod connection;
pub mod delivery;
pub mod dispatch;
pub mod lifetimes;
pub mod order;
pub mod reception;
pub mod relaying;
pub mod replay;
pub mod standing;
pub mod succession;
pub mod telling;
