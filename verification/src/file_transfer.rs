//! File transfer with chunking and reassembly.

pub mod assembly;
pub mod chunk;
pub mod laws;
pub mod manager;
pub mod model;
pub mod outbound;
pub mod outcomes;
pub mod percentages;
pub mod progress;
pub mod runs;
pub mod tombstones;
pub mod trusted;
pub mod windows;

pub use chunk::{ChunkDecodeError, FileChunk};
pub use manager::{FileTransferManager, StaleTransfer};
pub use model::{ChunkRejection, FileTransferConfig};
pub use outbound::OutboundTransferState;
pub use progress::FileProgress;
