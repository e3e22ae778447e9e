//! The router: round-robin fan-out of chunk hashes, fan-out of receipts,
//! and the shutdown cascade.
use vstd::prelude::*;
use crate::hash::CryptoHash;
use crate::ledger::{Block, Chunk, ChunkHeader, Receipt};
use crate::messages::{ChunkDownloaderMessage, ManagerMessageKind, ReceiptHandlerMessage};

verus! {

/// The hashes of the included chunks, in the block's order.
pub open spec fn included_hashes(chunks: Seq<ChunkHeader>) -> Seq<CryptoHash>
    decreases chunks.len(),
{
    if chunks.len() == 0 {
        Seq::empty()
    } else {
        let rest = included_hashes(chunks.drop_last());
        if chunks.last().included {
            rest.push(chunks.last().chunk_hash)
        } else {
            rest
        }
    }
}

/// One `Download` per hash, the `j`-th to fetcher `(start + j) % n`.
pub open spec fn download_plan(
    start: nat,
    n: nat,
    hashes: Seq<CryptoHash>,
    next_block_hash: CryptoHash,
) -> Seq<(usize, ChunkDownloaderMessage)> {
    Seq::new(
        hashes.len(),
        |j: int|
            (
                ((start + j) % (n as int)) as usize,
                ChunkDownloaderMessage::Download { chunk_hash: hashes[j], next_block_hash },
            ),
    )
}

/// One `Handle` per receipt, in the chunk's order.
pub open spec fn handle_plan(receipts: Seq<Receipt>, next_block_hash: CryptoHash) -> Seq<
    ReceiptHandlerMessage,
> {
    Seq::new(
        receipts.len(),
        |i: int| ReceiptHandlerMessage::Handle { receipt: receipts[i], next_block_hash },
    )
}

/// Moving the turn on by one from `a % n` gives `(a + 1) % n`.
proof fn lemma_turn_advances(a: int, n: int)
    requires
        a >= 0,
        n > 0,
    ensures
        (if a % n + 1 == n {
            0
        } else {
            a % n + 1
        }) == (a + 1) % n,
{
    let q = a / n;
    let r = a % n;
    vstd::arithmetic::div_mod::lemma_fundamental_div_mod(a, n);
    assert(a == q * n + r) by (nonlinear_arith)
        requires
            a == n * (a / n) + a % n,
            q == a / n,
            r == a % n,
    ;
    if r + 1 == n {
        assert(a + 1 == (q + 1) * n + 0) by (nonlinear_arith)
            requires
                a == q * n + r,
                r + 1 == n,
        ;
        vstd::arithmetic::div_mod::lemma_fundamental_div_mod_converse(a + 1, n, q + 1, 0);
    } else {
        vstd::arithmetic::div_mod::lemma_fundamental_div_mod_converse(a + 1, n, q, r + 1);
    }
}

/// An actor that the router can send to.
#[derive(Debug, Clone, Copy, PartialEq, Eq, Structural)]
pub enum Peer {
    BlockDownloader,
    ChunkDownloader(usize),
    ReceiptHandler,
}

/// Every actor, the block poller first, then each chunk fetcher in order,
/// then the receipt handler.
pub open spec fn all_peers(n: nat) -> Seq<Peer> {
    seq![Peer::BlockDownloader] + Seq::new(n, |i: int| Peer::ChunkDownloader(i as usize)) + seq![
        Peer::ReceiptHandler,
    ]
}

/// What the router does with one incoming message. Every send is
/// fire-and-forget: a send that fails because the peer has stopped is dropped.
#[derive(Debug)]
pub enum RouterAction {
    /// Send each message to the chunk fetcher with that index, in order.
    Download(Vec<(usize, ChunkDownloaderMessage)>),
    /// Send each message to the receipt handler, in order.
    Handle(Vec<ReceiptHandlerMessage>),
    /// Send `Shutdown` to each of these peers, in order, then stop.
    Shutdown(Vec<Peer>),
}

/// The router: it hands chunk hashes to the fetchers in turn and receipts
/// to the receipt handler, and spreads a shutdown to everyone.
pub struct Manager {
    pub num_chunk_downloaders: usize,
    /// The fetcher that gets the next chunk hash.
    pub next_downloader: usize,
}

impl Manager {
    /// Well-formed: at least one fetcher, and the turn points at one of them.
    pub open spec fn wf(&self) -> bool {
        self.num_chunk_downloaders > 0 && self.next_downloader < self.num_chunk_downloaders
    }

    /// A router over `num_chunk_downloaders` fetchers; the first turn is fetcher 0.
    pub fn new(num_chunk_downloaders: usize) -> (r: Manager)
        requires
            num_chunk_downloaders > 0,
        ensures
            r.wf(),
            r.num_chunk_downloaders == num_chunk_downloaders,
            r.next_downloader == 0,
    {
        Manager { num_chunk_downloaders, next_downloader: 0 }
    }

    /// One `Download` for each included chunk of `block`, the fetchers taken
    /// in turn from where the last block left off.
    pub fn route_block(&mut self, block: &Block, next_block_hash: CryptoHash) -> (r: Vec<
        (usize, ChunkDownloaderMessage),
    >)
        requires
            old(self).wf(),
        ensures
            final(self).wf(),
            final(self).num_chunk_downloaders == old(self).num_chunk_downloaders,
            r@ == download_plan(
                old(self).next_downloader as nat,
                old(self).num_chunk_downloaders as nat,
                included_hashes(block.chunks@),
                next_block_hash,
            ),
            final(self).next_downloader == (old(self).next_downloader + r@.len())
                % (old(self).num_chunk_downloaders as int),
    {
        let n = self.num_chunk_downloaders;
        let ghost start = self.next_downloader as int;
        let mut plan: Vec<(usize, ChunkDownloaderMessage)> = Vec::new();
        proof {
            vstd::arithmetic::div_mod::lemma_small_mod(start as nat, n as nat);
        }
        let mut i: usize = 0;
        while i < block.chunks.len()
            invariant
                self.wf(),
                self.num_chunk_downloaders == n,
                0 <= start < n,
                0 <= i <= block.chunks@.len(),
                plan@ == download_plan(
                    start as nat,
                    n as nat,
                    included_hashes(block.chunks@.subrange(0, i as int)),
                    next_block_hash,
                ),
                self.next_downloader == (start + plan@.len()) % (n as int),
            decreases block.chunks@.len() - i,
        {
            let ghost before = included_hashes(block.chunks@.subrange(0, i as int));
            assert(block.chunks@.subrange(0, i + 1).drop_last() =~= block.chunks@.subrange(
                0,
                i as int,
            ));
            let header = &block.chunks[i];
            assert(block.chunks@.subrange(0, i + 1).last() == *header);
            if header.included {
                let ghost k = plan@.len() as int;
                plan.push(
                    (
                        self.next_downloader,
                        ChunkDownloaderMessage::Download {
                            chunk_hash: header.chunk_hash,
                            next_block_hash,
                        },
                    ),
                );
                if self.next_downloader + 1 == n {
                    self.next_downloader = 0;
                } else {
                    self.next_downloader = self.next_downloader + 1;
                }
                proof {
                    lemma_turn_advances(start + k, n as int);
                }
                assert(plan@ =~= download_plan(
                    start as nat,
                    n as nat,
                    before.push(header.chunk_hash),
                    next_block_hash,
                ));
            }
            i = i + 1;
        }
        assert(block.chunks@.subrange(0, i as int) =~= block.chunks@);
        plan
    }

    /// One `Handle` for each receipt of `chunk`, in order.
    pub fn route_chunk(&self, chunk: Chunk, next_block_hash: CryptoHash) -> (r: Vec<
        ReceiptHandlerMessage,
    >)
        ensures
            r@ == handle_plan(chunk.receipts@, next_block_hash),
    {
        let ghost all = chunk.receipts@;
        let mut receipts = chunk.receipts;
        let mut out: Vec<ReceiptHandlerMessage> = Vec::new();
        while receipts.len() > 0
            invariant
                out@.len() + receipts@.len() == all.len(),
                receipts@ == all.subrange(out@.len() as int, all.len() as int),
                out@ == handle_plan(all.subrange(0, out@.len() as int), next_block_hash),
            decreases receipts@.len(),
        {
            let ghost k = out@.len() as int;
            let receipt = receipts.remove(0);
            out.push(ReceiptHandlerMessage::Handle { receipt, next_block_hash });
            assert(out@ =~= handle_plan(all.subrange(0, k + 1), next_block_hash));
            assert(receipts@ =~= all.subrange(k + 1, all.len() as int));
        }
        assert(all.subrange(0, all.len() as int) =~= all);
        out
    }

    /// The peers that a shutdown reaches: the block poller, every fetcher in
    /// order, and the receipt handler.
    pub fn shutdown_targets(&self) -> (r: Vec<Peer>)
        ensures
            r@ == all_peers(self.num_chunk_downloaders as nat),
    {
        let mut r: Vec<Peer> = Vec::new();
        r.push(Peer::BlockDownloader);
        let mut i: usize = 0;
        while i < self.num_chunk_downloaders
            invariant
                0 <= i <= self.num_chunk_downloaders,
                r@ == seq![Peer::BlockDownloader] + Seq::new(
                    i as nat,
                    |j: int| Peer::ChunkDownloader(j as usize),
                ),
            decreases self.num_chunk_downloaders - i,
        {
            r.push(Peer::ChunkDownloader(i));
            assert(r@ =~= seq![Peer::BlockDownloader] + Seq::new(
                (i + 1) as nat,
                |j: int| Peer::ChunkDownloader(j as usize),
            ));
            i = i + 1;
        }
        r.push(Peer::ReceiptHandler);
        assert(r@ =~= all_peers(self.num_chunk_downloaders as nat));
        r
    }

    /// Decides what to do with one message from the inbox.
    pub fn route(&mut self, kind: ManagerMessageKind) -> (r: RouterAction)
        requires
            old(self).wf(),
        ensures
            final(self).wf(),
            final(self).num_chunk_downloaders == old(self).num_chunk_downloaders,
            match kind {
                ManagerMessageKind::NewBlock { block, next_block_hash } => {
                    &&& r matches RouterAction::Download(plan)
                    &&& plan@ == download_plan(
                        old(self).next_downloader as nat,
                        old(self).num_chunk_downloaders as nat,
                        included_hashes(block.chunks@),
                        next_block_hash,
                    )
                    &&& final(self).next_downloader == (old(self).next_downloader
                        + plan@.len()) % (old(self).num_chunk_downloaders as int)
                },
                ManagerMessageKind::NewChunk { chunk, next_block_hash } => {
                    &&& r matches RouterAction::Handle(msgs)
                    &&& msgs@ == handle_plan(chunk.receipts@, next_block_hash)
                    &&& *final(self) == *old(self)
                },
                ManagerMessageKind::Shutdown(_) => {
                    &&& r matches RouterAction::Shutdown(peers)
                    &&& peers@ == all_peers(old(self).num_chunk_downloaders as nat)
                    &&& *final(self) == *old(self)
                },
            },
    {
        match kind {
            ManagerMessageKind::NewBlock { block, next_block_hash } => {
                RouterAction::Download(self.route_block(&block, next_block_hash))
            },
            ManagerMessageKind::NewChunk { chunk, next_block_hash } => {
                RouterAction::Handle(self.route_chunk(chunk, next_block_hash))
            },
            ManagerMessageKind::Shutdown(_) => RouterAction::Shutdown(self.shutdown_targets()),
        }
    }
}

} // verus!
