//! Decision logic of an indexer that follows a NEAR-style ledger, picks out the
//! receipts addressed to one account, and turns the events logged by their
//! execution into an append-only event log.
//!
//! Every actor of the pipeline is split in two: the decisions (what to fetch
//! next, when to give up, where to route a message, what to write) live here
//! and are verified; the waiting, the remote calls and the file writes are done
//! by the caller, which feeds each outcome back in.
use vstd::prelude::*;

pub mod hash;
pub mod ledger;
pub mod text;
pub mod config;
pub mod messages;
pub mod block_downloader;
pub mod manager;
pub mod retry;
pub mod chunk_downloader;
pub mod json;
pub mod events;
pub mod receipt_handler;
pub mod contract_types;
pub mod tasks;
