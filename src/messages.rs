//! The messages that travel between the actors.
use vstd::prelude::*;
use crate::hash::CryptoHash;
use crate::ledger::{Block, Chunk, Receipt};

verus! {

/// Asks an actor to stop.
#[derive(Debug, Clone, Copy, PartialEq, Eq, Structural)]
pub struct ShutdownSignal;

/// What an actor sends to the router, with the sender's name.
#[derive(Debug)]
pub struct ManagerMessage {
    pub worker_id: String,
    pub kind: ManagerMessageKind,
}

/// The work items that reach the router.
///
/// `next_block_hash` is the hash of the block that follows the one holding
/// the work item: the outcome of a receipt can only be queried from the
/// perspective of a block after the one that included it.
#[derive(Debug)]
pub enum ManagerMessageKind {
    /// `block` is the parent of the block whose hash is `next_block_hash`.
    NewBlock { block: Block, next_block_hash: CryptoHash },
    /// `chunk` was included in the parent of block `next_block_hash`.
    NewChunk { chunk: Chunk, next_block_hash: CryptoHash },
    Shutdown(ShutdownSignal),
}

/// What the router sends to a chunk fetcher.
#[derive(Debug)]
pub enum ChunkDownloaderMessage {
    Shutdown(ShutdownSignal),
    Download { chunk_hash: CryptoHash, next_block_hash: CryptoHash },
}

/// What the router sends to the receipt handler.
#[derive(Debug)]
pub enum ReceiptHandlerMessage {
    Shutdown(ShutdownSignal),
    Handle { receipt: Receipt, next_block_hash: CryptoHash },
}

impl ManagerMessage {
    /// Wraps a work item with the name of the actor that sends it.
    pub fn new(worker_id: &String, kind: ManagerMessageKind) -> (r: ManagerMessage)
        ensures
            r.worker_id == *worker_id,
            r.kind == kind,
    {
        ManagerMessage { worker_id: worker_id.clone(), kind }
    }
}

} // verus!
