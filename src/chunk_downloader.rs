//! A worker of the chunk fetcher pool.
use vstd::prelude::*;
use crate::block_downloader::{make_worker_id, worker_name};
use crate::config::Config;
use crate::hash::CryptoHash;
use crate::ledger::Chunk;
use crate::messages::{ChunkDownloaderMessage, ManagerMessage, ManagerMessageKind, ShutdownSignal};
use crate::retry::RetryBudget;

verus! {

/// What a chunk fetcher does with one message from its inbox.
#[derive(Debug)]
pub enum ChunkWork {
    /// Fetch this chunk, with a fresh retry budget.
    Fetch { chunk_hash: CryptoHash, next_block_hash: CryptoHash, budget: RetryBudget },
    /// Stop consuming the inbox.
    Stop,
}

/// The decisions of one chunk fetcher of the pool.
pub struct ChunkDownloader {
    pub id: String,
    pub max_retry_count: usize,
}

impl ChunkDownloader {
    /// Fetcher number `id_no`, with the shared cap on attempts.
    pub fn new(config: &Config, id_no: usize) -> (r: ChunkDownloader)
        ensures
            r.id@ == worker_name("ChunkDownloader_"@, id_no as nat),
            r.max_retry_count == config.max_download_retry as usize,
    {
        ChunkDownloader {
            id: make_worker_id("ChunkDownloader_", id_no),
            max_retry_count: config.max_download_retry as usize,
        }
    }

    /// A `Download` starts a fetch with a full budget; a `Shutdown` stops the fetcher.
    pub fn on_message(&self, msg: ChunkDownloaderMessage) -> (r: ChunkWork)
        ensures
            match msg {
                ChunkDownloaderMessage::Download { chunk_hash, next_block_hash } => r
                    == (ChunkWork::Fetch {
                    chunk_hash,
                    next_block_hash,
                    budget: RetryBudget { attempts: 0, max_attempts: self.max_retry_count },
                }),
                ChunkDownloaderMessage::Shutdown(_) => r == ChunkWork::Stop,
            },
    {
        match msg {
            ChunkDownloaderMessage::Download { chunk_hash, next_block_hash } => ChunkWork::Fetch {
                chunk_hash,
                next_block_hash,
                budget: RetryBudget::new(self.max_retry_count),
            },
            ChunkDownloaderMessage::Shutdown(_) => ChunkWork::Stop,
        }
    }

    /// The message that reports a fetched chunk to the router; it keeps the
    /// successor hash that came with the request.
    pub fn on_fetched(&self, chunk: Chunk, next_block_hash: CryptoHash) -> (r: ManagerMessage)
        ensures
            r.worker_id == self.id,
            r.kind == (ManagerMessageKind::NewChunk { chunk, next_block_hash }),
    {
        ManagerMessage::new(&self.id, ManagerMessageKind::NewChunk { chunk, next_block_hash })
    }

    /// The message sent to the router when the budget for a chunk is spent.
    pub fn on_gave_up(&self) -> (r: ManagerMessage)
        ensures
            r.worker_id == self.id,
            r.kind == ManagerMessageKind::Shutdown(ShutdownSignal),
    {
        ManagerMessage::new(&self.id, ManagerMessageKind::Shutdown(ShutdownSignal))
    }
}

} // verus!
