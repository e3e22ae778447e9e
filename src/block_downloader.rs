//! The block poller: one walk back per new latest block, and when to give up.
use vstd::prelude::*;
use crate::config::Config;
use crate::hash::CryptoHash;
use crate::ledger::Block;
use crate::messages::ManagerMessageKind;
use crate::text::{chars_of, decimal, decimal_text, string_of};

verus! {

/// Blocks listed newest first, each the parent of the one before it.
pub open spec fn linked_newest_first(blocks: Seq<Block>) -> bool {
    forall|i: int| 0 <= i < blocks.len() - 1 ==> #[trigger] blocks[i + 1].hash@ == blocks[i].prev_hash@
}

/// The `NewBlock` messages of one poll cycle: each block of
/// `last_seen, chain[0], ..., chain[n-2]` paired with the hash of the block
/// that follows it.
pub open spec fn new_block_messages(last_seen: Block, chain: Seq<Block>) -> Seq<ManagerMessageKind> {
    Seq::new(
        chain.len(),
        |i: int|
            ManagerMessageKind::NewBlock {
                block: if i == 0 {
                    last_seen
                } else {
                    chain[i - 1]
                },
                next_block_hash: chain[i].hash,
            },
    )
}

/// The walk back from the newest block, parent after parent, until the
/// parent of the last block fetched is a known block.
pub struct ChainWalk {
    target_parent: CryptoHash,
    blocks: Vec<Block>,
}

impl ChainWalk {
    #[verifier::type_invariant]
    spec fn inv(&self) -> bool {
        &&& self.blocks@.len() >= 1
        &&& linked_newest_first(self.blocks@)
    }

    /// The blocks fetched so far, newest first.
    pub closed spec fn blocks(&self) -> Seq<Block> {
        self.blocks@
    }

    /// The hash at which the walk stops.
    pub closed spec fn target_parent(&self) -> CryptoHash {
        self.target_parent
    }

    /// Whether the walk has reached the known block.
    pub open spec fn complete(&self) -> bool {
        self.blocks().last().prev_hash@ == self.target_parent()@
    }

    /// Starts a walk from `latest` back to the block whose hash is `target_parent`.
    pub fn start(latest: Block, target_parent: CryptoHash) -> (r: ChainWalk)
        ensures
            r.blocks() == seq![latest],
            r.target_parent() == target_parent,
    {
        let mut blocks: Vec<Block> = Vec::new();
        blocks.push(latest);
        assert(blocks@ =~= seq![latest]);
        ChainWalk { target_parent, blocks }
    }

    /// The hash of the next block to fetch, or `None` once the walk is complete.
    pub fn next_hash(&self) -> (r: Option<CryptoHash>)
        ensures
            self.blocks().len() >= 1,
            linked_newest_first(self.blocks()),
            match r {
                Some(h) => !self.complete() && h == self.blocks().last().prev_hash,
                None => self.complete(),
            },
    {
        proof {
            use_type_invariant(self);
        }
        let last = &self.blocks[self.blocks.len() - 1];
        if last.prev_hash.same_as(&self.target_parent) {
            None
        } else {
            Some(last.prev_hash)
        }
    }

    /// Adds the block fetched for the hash that `next_hash` gave. A block
    /// whose own hash is not that hash, or one offered after the walk is
    /// complete, is refused and the walk comes back as it was.
    pub fn push(self, block: Block) -> (r: (ChainWalk, bool))
        ensures
            r.0.target_parent() == self.target_parent(),
            r.1 == (!self.complete() && block.hash@ == self.blocks().last().prev_hash@),
            r.1 ==> r.0.blocks() == self.blocks().push(block),
            !r.1 ==> r.0.blocks() == self.blocks(),
    {
        proof {
            use_type_invariant(&self);
        }
        let ChainWalk { target_parent, mut blocks } = self;
        let n = blocks.len();
        let wanted = blocks[n - 1].prev_hash;
        if wanted.same_as(&target_parent) || !block.hash.same_as(&wanted) {
            return (ChainWalk { target_parent, blocks }, false);
        }
        let ghost before = blocks@;
        blocks.push(block);
        assert(linked_newest_first(blocks@)) by {
            assert forall|i: int| 0 <= i < blocks@.len() - 1 implies #[trigger]
                blocks@[i + 1].hash@ == blocks@[i].prev_hash@ by {
                if i < n - 1 {
                    assert(before[i + 1] == blocks@[i + 1]);
                }
            }
        }
        (ChainWalk { target_parent, blocks }, true)
    }
}

/// Whether a poll cycle goes on or the poller gives up.
#[derive(Debug, Clone, Copy, PartialEq, Eq, Structural)]
pub enum PollDecision {
    /// Wait for the next tick.
    KeepPolling,
    /// Send `Shutdown` to the router and stop with an error.
    Shutdown,
}

/// The failure count after one more failed fetch; it stops growing at the cap.
pub open spec fn next_retry_count(count: nat, max: nat) -> nat {
    if count < max {
        count + 1
    } else {
        count
    }
}

/// Whether the poller gives up on a failed fetch seen with `count` failures before it.
pub open spec fn gives_up(count: nat, max: nat) -> bool {
    next_retry_count(count, max) >= max
}

/// The failure count after `k` failed fetches in a row from a fresh start.
pub open spec fn count_after_failures(k: nat, max: nat) -> nat
    decreases k,
{
    if k == 0 {
        0
    } else {
        next_retry_count(count_after_failures((k - 1) as nat, max), max)
    }
}

/// The block that a `NewBlock` message carries.
pub open spec fn message_block(m: ManagerMessageKind) -> Block
    recommends
        m is NewBlock,
{
    match m {
        ManagerMessageKind::NewBlock { block, .. } => block,
        _ => arbitrary(),
    }
}

/// The successor hash that a `NewBlock` message carries.
pub open spec fn message_next_hash(m: ManagerMessageKind) -> CryptoHash
    recommends
        m is NewBlock,
{
    match m {
        ManagerMessageKind::NewBlock { next_block_hash, .. } => next_block_hash,
        _ => arbitrary(),
    }
}

/// Within one poll cycle the blocks go out oldest first: the first is the
/// block seen before, each one is the parent of the one after it, and each
/// message names as successor the hash of the block that comes after its own,
/// the last one the newest block fetched.
pub proof fn lemma_cycle_blocks_ordered(last_seen: Block, walked: Seq<Block>)
    requires
        walked.len() >= 1,
        linked_newest_first(walked),
        walked.last().prev_hash@ == last_seen.hash@,
    ensures
        ({
            let msgs = new_block_messages(last_seen, walked.reverse());
            &&& msgs.len() == walked.len()
            &&& message_block(msgs[0]) == last_seen
            &&& forall|i: int|
                0 <= i < msgs.len() - 1 ==> #[trigger] message_block(msgs[i + 1]).prev_hash@
                    == message_block(msgs[i]).hash@
            &&& forall|i: int|
                0 <= i < msgs.len() - 1 ==> #[trigger] message_next_hash(msgs[i])
                    == message_block(msgs[i + 1]).hash
            &&& message_next_hash(msgs[msgs.len() - 1]) == walked[0].hash
        }),
{
    let n = walked.len() as int;
    let chain = walked.reverse();
    let msgs = new_block_messages(last_seen, chain);
    assert forall|i: int| 0 <= i < msgs.len() - 1 implies #[trigger] message_block(
        msgs[i + 1],
    ).prev_hash@ == message_block(msgs[i]).hash@ by {
        if i > 0 {
            assert(walked[n - 1 - i + 1].hash@ == walked[n - 1 - i].prev_hash@);
        }
    }
}

/// From a fresh start with a cap of `max` (at least one) and every fetch
/// failing, the poller keeps polling after each of the first `max - 1`
/// failures and gives up on failure number `max`.
pub proof fn lemma_gives_up_at_cap(max: nat)
    requires
        max >= 1,
    ensures
        forall|k: nat| k < max ==> #[trigger] count_after_failures(k, max) == k,
        forall|k: nat| k + 1 < max ==> !gives_up(#[trigger] count_after_failures(k, max), max),
        gives_up(count_after_failures((max - 1) as nat, max), max),
{
    assert forall|k: nat| k < max implies #[trigger] count_after_failures(k, max) == k by {
        lemma_count_below_cap(k, max);
    }
    assert forall|k: nat| k + 1 < max implies !gives_up(
        #[trigger] count_after_failures(k, max),
        max,
    ) by {
        lemma_count_below_cap(k, max);
    }
    lemma_count_below_cap((max - 1) as nat, max);
}

proof fn lemma_count_below_cap(k: nat, max: nat)
    requires
        k <= max,
    ensures
        count_after_failures(k, max) == k,
    decreases k,
{
    if k > 0 {
        lemma_count_below_cap((k - 1) as nat, max);
    }
}

/// The text `prefix` followed by `id_no` in decimal.
pub open spec fn worker_name(prefix: Seq<char>, id_no: nat) -> Seq<char> {
    prefix + decimal(id_no)
}

/// Builds an actor's name from its kind and number.
pub fn make_worker_id(prefix: &str, id_no: usize) -> (r: String)
    ensures
        r@ == worker_name(prefix@, id_no as nat),
{
    let mut v = chars_of(prefix);
    let mut digits = decimal_text(id_no);
    v.append(&mut digits);
    string_of(&v)
}

/// The decisions of the block poller: the last block it has seen and the
/// failures since its last successful cycle.
pub struct BlockDownloader {
    pub id: String,
    pub last_seen_block: Block,
    pub retry_count: usize,
    pub max_retry_count: usize,
}

impl BlockDownloader {
    /// Well-formed: the failure count never passes the cap.
    pub open spec fn wf(&self) -> bool {
        self.retry_count <= self.max_retry_count
    }

    /// A poller that starts from `last_seen_block`, the latest block at start-up.
    pub fn new(config: &Config, id_no: usize, last_seen_block: Block) -> (r: BlockDownloader)
        ensures
            r.wf(),
            r.id@ == worker_name("BlockDownloader_"@, id_no as nat),
            r.last_seen_block == last_seen_block,
            r.retry_count == 0,
            r.max_retry_count == config.max_download_retry as usize,
    {
        BlockDownloader {
            id: make_worker_id("BlockDownloader_", id_no),
            last_seen_block,
            retry_count: 0,
            max_retry_count: config.max_download_retry as usize,
        }
    }

    /// Whether `latest` differs from the last block seen, so that a cycle has work.
    pub fn is_new(&self, latest: &Block) -> (r: bool)
        ensures
            r == (latest.hash@ != self.last_seen_block.hash@),
    {
        !latest.hash.same_as(&self.last_seen_block.hash)
    }

    /// Starts the walk from `latest` back to the last block seen.
    pub fn start_walk(&self, latest: Block) -> (r: ChainWalk)
        ensures
            r.blocks() == seq![latest],
            r.target_parent() == self.last_seen_block.hash,
    {
        ChainWalk::start(latest, self.last_seen_block.hash)
    }

    /// Records a failed fetch (of the latest block or of a parent) and says
    /// whether to keep polling or to give up.
    pub fn on_failure(&mut self) -> (r: PollDecision)
        requires
            old(self).wf(),
        ensures
            final(self).wf(),
            final(self).retry_count == next_retry_count(
                old(self).retry_count as nat,
                old(self).max_retry_count as nat,
            ),
            final(self).max_retry_count == old(self).max_retry_count,
            final(self).last_seen_block == old(self).last_seen_block,
            final(self).id == old(self).id,
            (r == PollDecision::Shutdown) == gives_up(
                old(self).retry_count as nat,
                old(self).max_retry_count as nat,
            ),
    {
        if self.retry_count < self.max_retry_count {
            self.retry_count = self.retry_count + 1;
        }
        if self.retry_count >= self.max_retry_count {
            PollDecision::Shutdown
        } else {
            PollDecision::KeepPolling
        }
    }

    /// Ends a cycle with a complete walk that started from the last block
    /// seen: gives the `NewBlock` messages, oldest first, makes the newest
    /// block the last seen and clears the failure count. A walk that is not
    /// complete, or that aims at another block, gives `None` and changes nothing.
    pub fn finish_cycle(&mut self, walk: ChainWalk) -> (r: Option<Vec<ManagerMessageKind>>)
        requires
            old(self).wf(),
        ensures
            final(self).wf(),
            final(self).id == old(self).id,
            final(self).max_retry_count == old(self).max_retry_count,
            match r {
                Some(msgs) => {
                    &&& walk.complete()
                    &&& walk.target_parent()@ == old(self).last_seen_block.hash@
                    &&& msgs@ == new_block_messages(
                        old(self).last_seen_block,
                        walk.blocks().reverse(),
                    )
                    &&& final(self).last_seen_block == walk.blocks()[0]
                    &&& final(self).retry_count == 0
                },
                None => {
                    &&& !(walk.complete() && walk.target_parent()@
                        == old(self).last_seen_block.hash@)
                    &&& *final(self) == *old(self)
                },
            },
    {
        proof {
            use_type_invariant(&walk);
        }
        let ChainWalk { target_parent, blocks } = walk;
        let n = blocks.len();
        if !blocks[n - 1].prev_hash.same_as(&target_parent) || !target_parent.same_as(
            &self.last_seen_block.hash,
        ) {
            return None;
        }
        let ghost chain = blocks@.reverse();
        let ghost first_seen = self.last_seen_block;
        let mut rest = blocks;
        let mut msgs: Vec<ManagerMessageKind> = Vec::new();
        while rest.len() > 0
            invariant
                self.wf(),
                self.id == old(self).id,
                self.max_retry_count == old(self).max_retry_count,
                first_seen == old(self).last_seen_block,
                chain.len() == n,
                rest@.len() + msgs@.len() == n,
                rest@ == chain.subrange(msgs@.len() as int, n as int).reverse(),
                msgs@ == new_block_messages(first_seen, chain).subrange(0, msgs@.len() as int),
                msgs@.len() > 0 ==> self.last_seen_block == chain[msgs@.len() - 1],
                msgs@.len() == 0 ==> self.last_seen_block == first_seen,
            decreases rest@.len(),
        {
            let block = rest.pop().unwrap();
            let ghost k = msgs@.len() as int;
            assert(block == chain[k]);
            let next_block_hash = block.hash;
            let mut older = block;
            std::mem::swap(&mut older, &mut self.last_seen_block);
            msgs.push(ManagerMessageKind::NewBlock { block: older, next_block_hash });
            assert(msgs@ =~= new_block_messages(first_seen, chain).subrange(0, k + 1));
            assert(rest@ =~= chain.subrange(k + 1, n as int).reverse());
        }
        self.retry_count = 0;
        assert(msgs@ =~= new_block_messages(first_seen, chain));
        Some(msgs)
    }
}

} // verus!
