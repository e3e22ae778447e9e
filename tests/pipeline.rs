use messenger_indexer::block_downloader::{BlockDownloader, PollDecision};
use messenger_indexer::chunk_downloader::{ChunkDownloader, ChunkWork};
use messenger_indexer::config::Config;
use messenger_indexer::contract_types::{AccountStatus, MessageStatus, StoragePrefix};
use messenger_indexer::events::{Event, MessageId};
use messenger_indexer::hash::CryptoHash;
use messenger_indexer::ledger::{Block, Chunk, ChunkHeader, ExecutionOutcome, Receipt, ReceiptKind};
use messenger_indexer::manager::{Manager, Peer, RouterAction};
use messenger_indexer::messages::{
    ChunkDownloaderMessage, ManagerMessageKind, ReceiptHandlerMessage, ShutdownSignal,
};
use messenger_indexer::receipt_handler::{
    event_line, try_parse_block_hash_from_err_message, ConfigError, OutcomeError, QueryStep,
    ReceiptHandler, ReceiptWork,
};
use messenger_indexer::retry::{RetryBudget, RetryDecision};
use messenger_indexer::tasks::{log_error, TaskExit};

fn h(n: u8) -> CryptoHash {
    CryptoHash { bytes: [n; 32] }
}

fn block(hash: u8, prev: u8, chunks: Vec<(u8, bool)>) -> Block {
    Block {
        hash: h(hash),
        prev_hash: h(prev),
        chunks: chunks
            .into_iter()
            .map(|(c, included)| ChunkHeader { chunk_hash: h(c), included })
            .collect(),
    }
}

fn config_with_retry(max: u8) -> Config {
    let mut c = Config::default();
    c.max_download_retry = max;
    c.target_account = "chat.near".to_string();
    c
}

fn receipt(id: u8, receiver: &str, kind: ReceiptKind) -> Receipt {
    Receipt { receipt_id: h(id), receiver_id: receiver.to_string(), kind }
}

#[test]
fn config_default_values() {
    let c = Config::default();
    assert_eq!(c.events_output_path, "events.log");
    assert_eq!(c.log_level, "debug");
    assert_eq!(c.max_download_retry, 20);
    assert_eq!(c.near_rpc_url, "https://rpc.testnet.near.org");
    assert_eq!(c.num_chunk_downloaders, 4);
    assert_eq!(c.polling_frequency_ms, 1_200);
    assert_eq!(c.target_account, "chat.waterloo_bc_demo_2023.testnet");
}

#[test]
fn worker_names_carry_their_number() {
    let c = Config::default();
    assert_eq!(BlockDownloader::new(&c, 0, block(1, 0, vec![])).id, "BlockDownloader_0");
    assert_eq!(ChunkDownloader::new(&c, 12).id, "ChunkDownloader_12");
    assert_eq!(ReceiptHandler::new(&c, 305).unwrap().id, "ReceiptHandler_305");
}

#[test]
fn poll_cycle_emits_linked_blocks_oldest_first() {
    let c = config_with_retry(3);
    let mut poller = BlockDownloader::new(&c, 0, block(10, 9, vec![]));
    let latest = block(13, 12, vec![]);
    assert!(poller.is_new(&latest));
    let mut walk = poller.start_walk(latest);
    let mut fetched = vec![block(11, 10, vec![]), block(12, 11, vec![])];
    while let Some(next) = walk.next_hash() {
        let b = fetched.pop().unwrap();
        assert_eq!(b.hash, next);
        let (w, accepted) = walk.push(b);
        assert!(accepted);
        walk = w;
    }
    let msgs = poller.finish_cycle(walk).unwrap();
    let pairs: Vec<(CryptoHash, CryptoHash, CryptoHash)> = msgs
        .iter()
        .map(|m| match m {
            ManagerMessageKind::NewBlock { block, next_block_hash } => {
                (block.hash, block.prev_hash, *next_block_hash)
            }
            _ => panic!("only NewBlock messages"),
        })
        .collect();
    assert_eq!(pairs, vec![(h(10), h(9), h(11)), (h(11), h(10), h(12)), (h(12), h(11), h(13))]);
    for w in pairs.windows(2) {
        assert_eq!(w[0].0, w[1].1);
    }
    assert_eq!(poller.last_seen_block.hash, h(13));
    assert_eq!(poller.retry_count, 0);
    assert!(!poller.is_new(&block(13, 12, vec![])));
}

#[test]
fn poll_cycle_with_parent_already_seen() {
    let c = config_with_retry(3);
    let mut poller = BlockDownloader::new(&c, 0, block(10, 9, vec![]));
    let walk = poller.start_walk(block(11, 10, vec![]));
    assert!(walk.next_hash().is_none());
    let msgs = poller.finish_cycle(walk).unwrap();
    assert_eq!(msgs.len(), 1);
    assert_eq!(poller.last_seen_block.hash, h(11));
}

#[test]
fn walk_refuses_a_block_with_another_hash() {
    let c = config_with_retry(3);
    let mut poller = BlockDownloader::new(&c, 0, block(10, 9, vec![]));
    let walk = poller.start_walk(block(13, 12, vec![]));
    let (walk, accepted) = walk.push(block(99, 11, vec![]));
    assert!(!accepted);
    assert_eq!(walk.next_hash(), Some(h(12)));
    // an incomplete walk ends no cycle
    assert!(poller.finish_cycle(walk).is_none());
    assert_eq!(poller.last_seen_block.hash, h(10));
}

#[test]
fn poller_gives_up_after_three_failures() {
    let c = config_with_retry(3);
    let mut poller = BlockDownloader::new(&c, 0, block(10, 9, vec![]));
    let mut decisions = Vec::new();
    for _tick in 0..3 {
        decisions.push(poller.on_failure());
    }
    assert_eq!(
        decisions,
        vec![PollDecision::KeepPolling, PollDecision::KeepPolling, PollDecision::Shutdown]
    );
    assert_eq!(decisions.iter().filter(|d| **d == PollDecision::Shutdown).count(), 1);
}

#[test]
fn poller_success_clears_failures() {
    let c = config_with_retry(3);
    let mut poller = BlockDownloader::new(&c, 0, block(10, 9, vec![]));
    assert_eq!(poller.on_failure(), PollDecision::KeepPolling);
    assert_eq!(poller.on_failure(), PollDecision::KeepPolling);
    let walk = poller.start_walk(block(11, 10, vec![]));
    poller.finish_cycle(walk).unwrap();
    assert_eq!(poller.retry_count, 0);
    assert_eq!(poller.on_failure(), PollDecision::KeepPolling);
}

#[test]
fn poller_with_zero_cap_gives_up_at_once() {
    let c = config_with_retry(0);
    let mut poller = BlockDownloader::new(&c, 0, block(10, 9, vec![]));
    assert_eq!(poller.on_failure(), PollDecision::Shutdown);
}

#[test]
fn round_robin_over_three_workers() {
    let mut m = Manager::new(3);
    let b = block(
        5,
        4,
        vec![(1, true), (2, true), (7, false), (3, true), (4, true), (5, true), (6, true)],
    );
    let plan = m.route_block(&b, h(6));
    let workers: Vec<usize> = plan.iter().map(|(w, _)| *w).collect();
    assert_eq!(workers, vec![0, 1, 2, 0, 1, 2]);
    let hashes: Vec<CryptoHash> = plan
        .iter()
        .map(|(_, msg)| match msg {
            ChunkDownloaderMessage::Download { chunk_hash, next_block_hash } => {
                assert_eq!(*next_block_hash, h(6));
                *chunk_hash
            }
            _ => panic!("only downloads"),
        })
        .collect();
    assert_eq!(hashes, vec![h(1), h(2), h(3), h(4), h(5), h(6)]);
    assert_eq!(m.next_downloader, 0);
    let plan = m.route_block(&block(6, 5, vec![(8, true)]), h(7));
    assert_eq!(plan[0].0, 0);
    assert_eq!(m.next_downloader, 1);
}

#[test]
fn router_turn_continues_across_blocks() {
    let mut m = Manager::new(4);
    let first = m.route_block(&block(1, 0, vec![(1, true), (2, true), (3, true)]), h(2));
    let second = m.route_block(&block(2, 1, vec![(4, true), (5, true)]), h(3));
    let w: Vec<usize> = first.iter().chain(second.iter()).map(|(w, _)| *w).collect();
    assert_eq!(w, vec![0, 1, 2, 3, 0]);
}

#[test]
fn router_fans_out_receipts_and_shutdown() {
    let mut m = Manager::new(2);
    let chunk = Chunk {
        chunk_hash: h(1),
        receipts: vec![
            receipt(1, "a.near", ReceiptKind::Action),
            receipt(2, "b.near", ReceiptKind::Data),
        ],
    };
    match m.route(ManagerMessageKind::NewChunk { chunk, next_block_hash: h(9) }) {
        RouterAction::Handle(msgs) => {
            assert_eq!(msgs.len(), 2);
            match &msgs[1] {
                ReceiptHandlerMessage::Handle { receipt, next_block_hash } => {
                    assert_eq!(receipt.receipt_id, h(2));
                    assert_eq!(*next_block_hash, h(9));
                }
                _ => panic!("a Handle message"),
            }
        }
        _ => panic!("a Handle action"),
    }
    match m.route(ManagerMessageKind::Shutdown(ShutdownSignal)) {
        RouterAction::Shutdown(peers) => assert_eq!(
            peers,
            vec![
                Peer::BlockDownloader,
                Peer::ChunkDownloader(0),
                Peer::ChunkDownloader(1),
                Peer::ReceiptHandler
            ]
        ),
        _ => panic!("a Shutdown action"),
    }
}

#[test]
fn chunk_fetcher_retry_budget() {
    let c = config_with_retry(2);
    let f = ChunkDownloader::new(&c, 0);
    let work = f.on_message(ChunkDownloaderMessage::Download { chunk_hash: h(1), next_block_hash: h(2) });
    let mut budget = match work {
        ChunkWork::Fetch { chunk_hash, next_block_hash, budget } => {
            assert_eq!(chunk_hash, h(1));
            assert_eq!(next_block_hash, h(2));
            budget
        }
        ChunkWork::Stop => panic!("a fetch"),
    };
    assert!(budget.can_attempt());
    assert_eq!(budget.on_failure(), RetryDecision::SleepThenRetry);
    assert!(budget.can_attempt());
    assert_eq!(budget.on_failure(), RetryDecision::GiveUp);
    assert!(!budget.can_attempt());
    assert!(matches!(f.on_message(ChunkDownloaderMessage::Shutdown(ShutdownSignal)), ChunkWork::Stop));
    let done = f.on_fetched(Chunk { chunk_hash: h(1), receipts: vec![] }, h(2));
    assert_eq!(done.worker_id, "ChunkDownloader_0");
    assert!(matches!(done.kind, ManagerMessageKind::NewChunk { .. }));
    assert!(matches!(f.on_gave_up().kind, ManagerMessageKind::Shutdown(_)));
}

#[test]
fn empty_retry_budget_allows_no_attempt() {
    let b = RetryBudget::new(0);
    assert!(!b.can_attempt());
}

#[test]
fn receipt_handler_skips_data_and_other_accounts() {
    let handler = ReceiptHandler::new(&config_with_retry(3), 0).unwrap();
    let data = ReceiptHandlerMessage::Handle {
        receipt: receipt(1, "chat.near", ReceiptKind::Data),
        next_block_hash: h(2),
    };
    assert!(matches!(handler.on_message(data), ReceiptWork::Skip));
    let other = ReceiptHandlerMessage::Handle {
        receipt: receipt(1, "other.near", ReceiptKind::Action),
        next_block_hash: h(2),
    };
    assert!(matches!(handler.on_message(other), ReceiptWork::Skip));
    let ours = ReceiptHandlerMessage::Handle {
        receipt: receipt(1, "chat.near", ReceiptKind::Action),
        next_block_hash: h(2),
    };
    match handler.on_message(ours) {
        ReceiptWork::Query(q) => {
            assert_eq!(q.receipt_id, h(1));
            assert_eq!(q.light_client_head, h(2));
            assert_eq!(q.budget.attempts, 0);
            assert_eq!(q.budget.max_attempts, 3);
        }
        _ => panic!("a query"),
    }
    assert!(matches!(
        handler.on_message(ReceiptHandlerMessage::Shutdown(ShutdownSignal)),
        ReceiptWork::Stop
    ));
}

#[test]
fn receipt_handler_refuses_invalid_target_account() {
    let mut c = Config::default();
    for bad in ["A.near", "a", "a..b", ".ab", "ab-", "ab cd"] {
        c.target_account = bad.to_string();
        assert_eq!(ReceiptHandler::new(&c, 0).err(), Some(ConfigError::InvalidTargetAccount));
    }
    c.target_account = "a-b_c.d9".to_string();
    assert!(ReceiptHandler::new(&c, 0).is_ok());
}

fn b58(n: u8) -> String {
    MessageId(h(n)).to_base58()
}

#[test]
fn parses_hash_after_block_marker() {
    let msg = format!("block {} is ahead of head block {}", b58(7), b58(8));
    assert_eq!(try_parse_block_hash_from_err_message(&msg), Some(h(7)));
    let msg = format!("block {}", b58(9));
    assert_eq!(try_parse_block_hash_from_err_message(&msg), Some(h(9)));
    assert_eq!(try_parse_block_hash_from_err_message("no hash here"), None);
    assert_eq!(try_parse_block_hash_from_err_message("block notbase58!! is ahead"), None);
    assert_eq!(try_parse_block_hash_from_err_message("block "), None);
}

#[test]
fn ahead_of_head_error_requeries_without_spending_budget() {
    let handler = ReceiptHandler::new(&config_with_retry(3), 0).unwrap();
    let mut q = match handler.on_message(ReceiptHandlerMessage::Handle {
        receipt: receipt(1, "chat.near", ReceiptKind::Action),
        next_block_hash: h(2),
    }) {
        ReceiptWork::Query(q) => q,
        _ => panic!("a query"),
    };
    let info = format!("block {} is ahead of head block {}", b58(5), b58(4));
    for _ in 0..5 {
        assert_eq!(q.on_error(&OutcomeError::InternalError(Some(info.clone()))), QueryStep::QueryNow);
        assert_eq!(q.light_client_head, h(5));
        assert_eq!(q.budget.attempts, 0);
    }
    assert_eq!(q.on_error(&OutcomeError::Other), QueryStep::SleepThenQuery);
    assert_eq!(q.light_client_head, h(2));
    assert_eq!(q.budget.attempts, 1);
    // an internal error without the marker counts against the budget
    let other = format!("block {} is unknown", b58(5));
    assert_eq!(q.on_error(&OutcomeError::InternalError(Some(other))), QueryStep::SleepThenQuery);
    assert_eq!(q.on_error(&OutcomeError::InternalError(None)), QueryStep::GiveUp);
    assert_eq!(q.budget.attempts, 3);
    assert!(matches!(handler.on_gave_up().kind, ManagerMessageKind::Shutdown(_)));
}

#[test]
fn same_logs_twice_give_two_identical_lines() {
    let handler = ReceiptHandler::new(&config_with_retry(3), 0).unwrap();
    let line = Event::new_contact(&"a".to_string(), &"b".to_string()).to_log();
    let outcome = ExecutionOutcome { logs: vec![line.clone(), "noise".to_string(), line] };
    let lines = handler.event_lines(&outcome);
    assert_eq!(lines.len(), 2);
    assert_eq!(lines[0], lines[1]);
    assert!(lines[0].ends_with('\n'));
}

#[test]
fn end_to_end_single_event() {
    let c = config_with_retry(3);
    let mut router = Manager::new(c.num_chunk_downloaders as usize);
    let handler = ReceiptHandler::new(&c, 0).unwrap();
    let fetcher = ChunkDownloader::new(&c, 0);
    let b = block(20, 19, vec![(30, true)]);
    let downloads = match router.route(ManagerMessageKind::NewBlock { block: b, next_block_hash: h(21) }) {
        RouterAction::Download(plan) => plan,
        _ => panic!("downloads"),
    };
    assert_eq!(downloads.len(), 1);
    let (worker, msg) = downloads.into_iter().next().unwrap();
    assert_eq!(worker, 0);
    let (chunk_hash, next) = match fetcher.on_message(msg) {
        ChunkWork::Fetch { chunk_hash, next_block_hash, .. } => (chunk_hash, next_block_hash),
        ChunkWork::Stop => panic!("a fetch"),
    };
    assert_eq!(chunk_hash, h(30));
    let chunk = Chunk { chunk_hash, receipts: vec![receipt(40, "chat.near", ReceiptKind::Action)] };
    let reported = fetcher.on_fetched(chunk, next);
    let handles = match router.route(reported.kind) {
        RouterAction::Handle(msgs) => msgs,
        _ => panic!("handles"),
    };
    assert_eq!(handles.len(), 1);
    let query = match handler.on_message(handles.into_iter().next().unwrap()) {
        ReceiptWork::Query(q) => q,
        _ => panic!("a query"),
    };
    assert_eq!(query.light_client_head, h(21));
    let log = r#"EVENT_JSON:{"standard":"NearMessenger","version":"1.0.0","event":"message_sent","data":{"sender":"a","receiver":"b"}}"#;
    let outcome = ExecutionOutcome { logs: vec![log.to_string()] };
    let lines = handler.event_lines(&outcome);
    assert_eq!(
        lines,
        vec![
            "{\"standard\":\"NearMessenger\",\"version\":\"1.0.0\",\"event\":\"message_sent\",\"data\":{\"sender\":\"a\",\"receiver\":\"b\"}}\n"
                .to_string()
        ]
    );
    let events = handler.events_from_outcome(&outcome);
    assert_eq!(event_line(&events[0]), lines[0]);
}

#[test]
fn log_error_reports_failures_only() {
    assert_eq!(log_error("Manager", &TaskExit::Completed), None);
    assert_eq!(
        log_error("Manager", &TaskExit::Failed("boom".to_string())),
        Some("Manager task exited with error: boom".to_string())
    );
    assert_eq!(
        log_error("ReceiptHandler", &TaskExit::Panicked("join".to_string())),
        Some("ReceiptHandler task exited with error: join".to_string())
    );
}

#[test]
fn contract_enums_compare_by_variant() {
    assert_eq!(StoragePrefix::MessageStatuses(MessageStatus::Read), StoragePrefix::MessageStatuses(MessageStatus::Read));
    assert_ne!(StoragePrefix::MessageStatuses(MessageStatus::Read), StoragePrefix::MessageStatuses(MessageStatus::Unread));
    assert_ne!(AccountStatus::Contact, AccountStatus::Blocked);
}

#[test]
fn complete_walk_refuses_more_blocks() {
    let c = config_with_retry(3);
    let poller = BlockDownloader::new(&c, 0, block(10, 9, vec![]));
    let walk = poller.start_walk(block(11, 10, vec![]));
    let (walk, accepted) = walk.push(block(10, 9, vec![]));
    assert!(!accepted);
    assert!(walk.next_hash().is_none());
}
