//! The ledger data that the pipeline reads: blocks, chunks, receipts, outcomes.
use vstd::prelude::*;
use crate::hash::CryptoHash;

verus! {

/// A chunk that a block refers to, with its inclusion flag.
#[derive(Debug)]
pub struct ChunkHeader {
    pub chunk_hash: CryptoHash,
    pub included: bool,
}

/// A block: its hash, its parent's hash and the chunks it refers to, in order.
#[derive(Debug)]
pub struct Block {
    pub hash: CryptoHash,
    pub prev_hash: CryptoHash,
    pub chunks: Vec<ChunkHeader>,
}

/// An Action receipt runs contract code; a Data receipt only carries a value.
#[derive(Clone, Copy, Debug, PartialEq, Eq, Structural)]
pub enum ReceiptKind {
    Action,
    Data,
}

/// A unit of execution work addressed to one account.
#[derive(Debug)]
pub struct Receipt {
    pub receipt_id: CryptoHash,
    pub receiver_id: String,
    pub kind: ReceiptKind,
}

/// A chunk and the receipts it holds, in order.
#[derive(Debug)]
pub struct Chunk {
    pub chunk_hash: CryptoHash,
    pub receipts: Vec<Receipt>,
}

/// The log lines produced by executing one receipt, in order.
#[derive(Debug)]
pub struct ExecutionOutcome {
    pub logs: Vec<String>,
}

} // verus!
