//! The settings given to every actor at start-up.
use vstd::prelude::*;
use crate::text::chars_of;
use crate::text::string_of;

verus! {

/// Settings shared by every actor of the pipeline, given once at start.
pub struct Config {
    /// Where the events are appended, one JSON object per line.
    pub events_output_path: String,
    pub log_level: String,
    /// The cap on attempts shared by the block poller, the chunk fetchers and
    /// the receipt handler.
    pub max_download_retry: u8,
    pub near_rpc_url: String,
    pub num_chunk_downloaders: u8,
    /// The poll interval, also used as the pause between two attempts.
    pub polling_frequency_ms: u64,
    /// The account whose receipts are followed.
    pub target_account: String,
}

fn owned(s: &str) -> (r: String)
    ensures
        r@ == s@,
{
    string_of(&chars_of(s))
}

impl Default for Config {
    fn default() -> (r: Config)
        ensures
            r.events_output_path@ == "events.log"@,
            r.log_level@ == "debug"@,
            r.max_download_retry == 20,
            r.near_rpc_url@ == "https://rpc.testnet.near.org"@,
            r.num_chunk_downloaders == 4,
            r.polling_frequency_ms == 1_200,
            r.target_account@ == "chat.waterloo_bc_demo_2023.testnet"@,
    {
        Config {
            events_output_path: owned("events.log"),
            log_level: owned("debug"),
            max_download_retry: 20,
            near_rpc_url: owned("https://rpc.testnet.near.org"),
            num_chunk_downloaders: 4,
            polling_frequency_ms: 1_200,
            target_account: owned("chat.waterloo_bc_demo_2023.testnet"),
        }
    }
}

} // verus!
