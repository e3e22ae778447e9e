//! The receipt handler: which receipts matter, how their outcome is queried,
//! and what the event log gets from it.
use vstd::prelude::*;
use crate::block_downloader::{make_worker_id, worker_name};
use crate::config::Config;
use crate::hash::{base58_hash, parse_base58_hash, CryptoHash};
use crate::events::{event_json, parse_event, parse_event_line, Event, EventView};
use crate::ledger::{ExecutionOutcome, Receipt, ReceiptKind};
use crate::messages::{ManagerMessage, ManagerMessageKind, ReceiptHandlerMessage, ShutdownSignal};
use crate::retry::{RetryBudget, RetryDecision};
use crate::text::{chars_of, find, first_match, same_text, string_of};

verus! {

/// A character that may stand in an account id.
pub open spec fn is_account_char(c: char) -> bool {
    ('a' <= c && c <= 'z') || ('0' <= c && c <= '9') || is_account_separator(c)
}

/// The characters that separate the parts of an account id.
pub open spec fn is_account_separator(c: char) -> bool {
    c == '-' || c == '_' || c == '.'
}

/// A valid account id: 2 to 64 characters among lower-case letters, digits
/// and the separators `-`, `_`, `.`, not starting or ending with a separator,
/// and with no two separators side by side.
pub open spec fn valid_account_id(s: Seq<char>) -> bool {
    &&& 2 <= s.len() <= 64
    &&& forall|i: int| 0 <= i < s.len() ==> is_account_char(#[trigger] s[i])
    &&& !is_account_separator(s[0])
    &&& !is_account_separator(s[s.len() - 1])
    &&& forall|i: int|
        0 <= i < s.len() - 1 ==> !(is_account_separator(#[trigger] s[i]) && is_account_separator(
            s[i + 1],
        ))
}

/// Relies on `FromStr` of `near_primitives::types::AccountId`, which accepts
/// exactly the ids that `valid_account_id` describes (its length limits count
/// bytes, which for the accepted characters is the number of characters).
#[verifier::external_body]
fn check_account_id(s: &str) -> (r: bool)
    ensures
        r == valid_account_id(s@),
{
    <near_primitives::types::AccountId as std::str::FromStr>::from_str(s).is_ok()
}

/// Why a receipt handler could not be set up.
#[derive(Debug, Clone, Copy, PartialEq, Eq, Structural)]
pub enum ConfigError {
    /// The configured target account is not a valid account id.
    InvalidTargetAccount,
}

/// The text before which an outcome query error names a block to query from.
pub open spec fn block_marker() -> Seq<char> {
    "block "@
}

/// The words that mark an outcome query made from a block the node has not reached.
pub open spec fn ahead_marker() -> Seq<char> {
    "is ahead of head block"@
}

/// The text after the first `block ` of an error message, up to the next
/// space or the end.
pub open spec fn suggested_hash_text(msg: Seq<char>) -> Option<Seq<char>> {
    match first_match(msg, block_marker(), 0) {
        Some(i) => {
            let rest = msg.skip(i + block_marker().len());
            Some(
                match first_match(rest, seq![' '], 0) {
                    Some(j) => rest.take(j),
                    None => rest,
                },
            )
        },
        None => None,
    }
}

/// The block hash that an error message suggests, if its text has one.
pub open spec fn suggested_hash(msg: Seq<char>) -> Option<Seq<u8>> {
    match suggested_hash_text(msg) {
        Some(t) => base58_hash(t),
        None => None,
    }
}

/// Reads the hash that follows the first `block ` in an error message: the
/// base58 text up to the next space.
pub fn try_parse_block_hash_from_err_message(msg: &str) -> (r: Option<CryptoHash>)
    ensures
        match r {
            Some(h) => suggested_hash(msg@) == Some(h@),
            None => suggested_hash(msg@) is None,
        },
{
    let mut chars = chars_of(msg);
    let marker = chars_of("block ");
    match find(&chars, &marker) {
        None => None,
        Some(i) => {
            let total = chars.len();
            assert(i + marker@.len() <= total);
            let mut rest = chars.split_off(i + marker.len());
            let space = chars_of(" ");
            proof {
                reveal_strlit(" ");
                assert(space@ =~= seq![' ']);
            }
            match find(&rest, &space) {
                Some(j) => {
                    rest.truncate(j);
                },
                None => {},
            }
            let token = string_of(&rest);
            parse_base58_hash(token.as_str())
        },
    }
}

/// How an outcome query failed.
#[derive(Debug)]
pub enum OutcomeError {
    /// The node reported an internal error, with its text if it gave one.
    InternalError(Option<String>),
    /// Any other failure: transport, timeout, a malformed answer.
    Other,
}

/// The hash to query again from at once: present when the error is the
/// node's "ahead of head block" internal error and its text names a block.
pub open spec fn requery_hash(err: OutcomeError) -> Option<Seq<u8>> {
    match err {
        OutcomeError::InternalError(Some(info)) => if crate::text::contains(info@, ahead_marker()) {
            suggested_hash(info@)
        } else {
            None
        },
        _ => None,
    }
}

/// What follows a failed outcome query.
#[derive(Debug, Clone, Copy, PartialEq, Eq, Structural)]
pub enum QueryStep {
    /// Query again at once, from the block that the error named; this costs
    /// nothing from the retry budget.
    QueryNow,
    /// Sleep the retry interval, then query again from the block the query started from.
    SleepThenQuery,
    /// The budget is spent: send `Shutdown` to the router and stop with an error.
    GiveUp,
}

/// The query of one receipt's execution outcome, with its retries.
#[derive(Debug)]
pub struct OutcomeQuery {
    pub receipt_id: CryptoHash,
    pub receiver_id: String,
    /// The successor of the block that included the receipt.
    pub block_hash: CryptoHash,
    /// The block to query from next.
    pub light_client_head: CryptoHash,
    pub budget: RetryBudget,
}

impl OutcomeQuery {
    /// Decides what follows a failed query.
    pub fn on_error(&mut self, err: &OutcomeError) -> (r: QueryStep)
        requires
            old(self).budget.wf(),
        ensures
            final(self).budget.wf(),
            final(self).receipt_id == old(self).receipt_id,
            final(self).receiver_id == old(self).receiver_id,
            final(self).block_hash == old(self).block_hash,
            match requery_hash(*err) {
                Some(h) => {
                    &&& r == QueryStep::QueryNow
                    &&& final(self).light_client_head@ == h
                    &&& final(self).budget == old(self).budget
                },
                None => {
                    let b = final(self).budget;
                    &&& b.max_attempts == old(self).budget.max_attempts
                    &&& b.attempts == if old(self).budget.attempts < b.max_attempts {
                        old(self).budget.attempts + 1
                    } else {
                        old(self).budget.attempts as int
                    }
                    &&& (r == QueryStep::SleepThenQuery) == (b.attempts < b.max_attempts)
                    &&& (r == QueryStep::GiveUp) == (b.attempts >= b.max_attempts)
                    &&& final(self).light_client_head == old(self).block_hash
                },
            },
    {
        if let OutcomeError::InternalError(Some(info)) = err {
            let text = chars_of(info.as_str());
            let marker = chars_of("is ahead of head block");
            if find(&text, &marker).is_some() {
                if let Some(h) = try_parse_block_hash_from_err_message(info.as_str()) {
                    self.light_client_head = h;
                    return QueryStep::QueryNow;
                }
            }
        }
        self.light_client_head = self.block_hash;
        match self.budget.on_failure() {
            RetryDecision::SleepThenRetry => QueryStep::SleepThenQuery,
            RetryDecision::GiveUp => QueryStep::GiveUp,
        }
    }
}

/// Whether a receipt can carry events of the target account: it is
/// addressed to that account and it is an Action receipt.
pub open spec fn is_relevant(receipt: Receipt, target: Seq<char>) -> bool {
    receipt.receiver_id@ == target && receipt.kind == ReceiptKind::Action
}

/// What the receipt handler does with one message from its inbox.
#[derive(Debug)]
pub enum ReceiptWork {
    /// Query this outcome.
    Query(OutcomeQuery),
    /// Nothing to do for this receipt.
    Skip,
    /// Stop consuming the inbox.
    Stop,
}

/// The texts of some log lines.
pub open spec fn log_texts(logs: Seq<String>) -> Seq<Seq<char>> {
    logs.map_values(|l: String| l@)
}

/// The events that some log lines carry, in order; the other lines are skipped.
pub open spec fn parsed_events(logs: Seq<Seq<char>>) -> Seq<EventView>
    decreases logs.len(),
{
    if logs.len() == 0 {
        Seq::empty()
    } else {
        let before = parsed_events(logs.drop_last());
        match parse_event_line(logs.last()) {
            Some(e) => before.push(e),
            None => before,
        }
    }
}

/// The line that the event log gets for one event: its JSON text and a newline.
pub open spec fn event_log_entry(e: EventView) -> Seq<char> {
    event_json(e) + seq!['\n']
}

/// The lines that the event log gets for some log lines, in order.
pub open spec fn event_log_entries(logs: Seq<Seq<char>>) -> Seq<Seq<char>> {
    parsed_events(logs).map_values(|e: EventView| event_log_entry(e))
}

proof fn lemma_parsed_events_concat(a: Seq<Seq<char>>, b: Seq<Seq<char>>)
    ensures
        parsed_events(a + b) == parsed_events(a) + parsed_events(b),
    decreases b.len(),
{
    if b.len() == 0 {
        assert(a + b =~= a);
        assert(parsed_events(a) + parsed_events(b) =~= parsed_events(a));
    } else {
        assert((a + b).drop_last() =~= a + b.drop_last());
        assert((a + b).last() == b.last());
        lemma_parsed_events_concat(a, b.drop_last());
        match parse_event_line(b.last()) {
            Some(e) => {
                assert(parsed_events(a + b) =~= parsed_events(a) + parsed_events(b));
            },
            None => {},
        }
    }
}

/// Nothing is deduplicated: the event log lines for two runs of logs, one
/// after the other, are those of the first run followed by those of the
/// second. Feeding the same logs twice writes each of their lines twice.
pub proof fn lemma_event_log_appends(a: Seq<Seq<char>>, b: Seq<Seq<char>>)
    ensures
        event_log_entries(a + b) == event_log_entries(a) + event_log_entries(b),
        a == b ==> event_log_entries(a + b) == event_log_entries(a) + event_log_entries(a),
{
    lemma_parsed_events_concat(a, b);
    assert(event_log_entries(a + b) =~= event_log_entries(a) + event_log_entries(b));
}

/// The JSON text of an event and a newline: one line of the event log.
pub fn event_line(event: &Event) -> (r: String)
    ensures
        r@ == event_log_entry(event@),
{
    let mut v = chars_of(event.to_json().as_str());
    v.push('\n');
    string_of(&v)
}

/// The decisions of the receipt handler.
pub struct ReceiptHandler {
    pub id: String,
    pub target_account: String,
    pub max_retry_count: usize,
}

impl ReceiptHandler {
    /// Receipt handler number `id_no`, following the configured target
    /// account; refused when that account id is not valid.
    pub fn new(config: &Config, id_no: usize) -> (r: Result<ReceiptHandler, ConfigError>)
        ensures
            match r {
                Ok(h) => {
                    &&& valid_account_id(config.target_account@)
                    &&& h.id@ == worker_name("ReceiptHandler_"@, id_no as nat)
                    &&& h.target_account@ == config.target_account@
                    &&& h.max_retry_count == config.max_download_retry as usize
                },
                Err(e) => !valid_account_id(config.target_account@) && e
                    == ConfigError::InvalidTargetAccount,
            },
    {
        if !check_account_id(config.target_account.as_str()) {
            return Err(ConfigError::InvalidTargetAccount);
        }
        Ok(
            ReceiptHandler {
                id: make_worker_id("ReceiptHandler_", id_no),
                target_account: config.target_account.clone(),
                max_retry_count: config.max_download_retry as usize,
            },
        )
    }

    /// Whether the receipt is addressed to the target account and is an Action receipt.
    pub fn should_handle(&self, receipt: &Receipt) -> (r: bool)
        ensures
            r == is_relevant(*receipt, self.target_account@),
    {
        let a = chars_of(receipt.receiver_id.as_str());
        let b = chars_of(self.target_account.as_str());
        same_text(&a, &b) && receipt.kind == ReceiptKind::Action
    }

    /// A relevant receipt starts an outcome query from the successor block,
    /// with a full budget; any other receipt is skipped; `Shutdown` stops the handler.
    pub fn on_message(&self, msg: ReceiptHandlerMessage) -> (r: ReceiptWork)
        ensures
            match msg {
                ReceiptHandlerMessage::Handle { receipt, next_block_hash } => if is_relevant(
                    receipt,
                    self.target_account@,
                ) {
                    r == ReceiptWork::Query(
                        OutcomeQuery {
                            receipt_id: receipt.receipt_id,
                            receiver_id: receipt.receiver_id,
                            block_hash: next_block_hash,
                            light_client_head: next_block_hash,
                            budget: RetryBudget { attempts: 0, max_attempts: self.max_retry_count },
                        },
                    )
                } else {
                    r == ReceiptWork::Skip
                },
                ReceiptHandlerMessage::Shutdown(_) => r == ReceiptWork::Stop,
            },
    {
        match msg {
            ReceiptHandlerMessage::Handle { receipt, next_block_hash } => {
                if !self.should_handle(&receipt) {
                    return ReceiptWork::Skip;
                }
                ReceiptWork::Query(
                    OutcomeQuery {
                        receipt_id: receipt.receipt_id,
                        receiver_id: receipt.receiver_id,
                        block_hash: next_block_hash,
                        light_client_head: next_block_hash,
                        budget: RetryBudget::new(self.max_retry_count),
                    },
                )
            },
            ReceiptHandlerMessage::Shutdown(_) => ReceiptWork::Stop,
        }
    }

    /// The events that the logs of an outcome carry, in log order. A line
    /// without the sentinel, or whose text is not an event, is skipped.
    pub fn events_from_outcome(&self, outcome: &ExecutionOutcome) -> (r: Vec<Event>)
        ensures
            r@.map_values(|e: Event| e@) == parsed_events(log_texts(outcome.logs@)),
    {
        let ghost logs = log_texts(outcome.logs@);
        let mut out: Vec<Event> = Vec::new();
        let mut i: usize = 0;
        while i < outcome.logs.len()
            invariant
                0 <= i <= outcome.logs@.len(),
                logs == log_texts(outcome.logs@),
                out@.map_values(|e: Event| e@) == parsed_events(logs.take(i as int)),
            decreases outcome.logs@.len() - i,
        {
            assert(logs.take(i + 1).drop_last() =~= logs.take(i as int));
            assert(logs.take(i + 1).last() == outcome.logs@[i as int]@);
            match parse_event(outcome.logs[i].as_str()) {
                Some(e) => {
                    let ghost before = out@;
                    out.push(e);
                    assert(out@.map_values(|e: Event| e@) =~= before.map_values(|e: Event| e@).push(e@));
                },
                None => {},
            }
            i = i + 1;
        }
        assert(logs.take(i as int) =~= logs);
        out
    }

    /// The lines to append to the event log for an outcome, one per event, in
    /// log order. No line is dropped as a repeat of an earlier one.
    pub fn event_lines(&self, outcome: &ExecutionOutcome) -> (r: Vec<String>)
        ensures
            r@.map_values(|l: String| l@) == event_log_entries(log_texts(outcome.logs@)),
    {
        let events = self.events_from_outcome(outcome);
        let ghost evs = events@.map_values(|e: Event| e@);
        let mut lines: Vec<String> = Vec::new();
        let mut i: usize = 0;
        while i < events.len()
            invariant
                0 <= i <= events@.len(),
                evs == events@.map_values(|e: Event| e@),
                lines@.map_values(|l: String| l@) == evs.take(i as int).map_values(
                    |e: EventView| event_log_entry(e),
                ),
            decreases events@.len() - i,
        {
            let line = event_line(&events[i]);
            assert(evs[i as int] == events@[i as int]@);
            let ghost before = lines@;
            lines.push(line);
            assert(lines@.map_values(|l: String| l@) =~= before.map_values(|l: String| l@).push(
                event_log_entry(evs[i as int]),
            ));
            assert(lines@.map_values(|l: String| l@) =~= evs.take(i + 1).map_values(
                |e: EventView| event_log_entry(e),
            ));
            i = i + 1;
        }
        assert(evs.take(i as int) =~= evs);
        lines
    }

    /// The message sent to the router when an outcome cannot be had.
    pub fn on_gave_up(&self) -> (r: ManagerMessage)
        ensures
            r.worker_id == self.id,
            r.kind == ManagerMessageKind::Shutdown(ShutdownSignal),
    {
        ManagerMessage::new(&self.id, ManagerMessageKind::Shutdown(ShutdownSignal))
    }
}

} // verus!
