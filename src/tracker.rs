use vstd::prelude::*;

use crate::block::{find_transaction, scan_blocks, InvalidBlock, RawBlock, Scan};
use crate::chain::{genesis_hash_of, Chain, Network};
use crate::ids::{BlockHash, Txid};
use crate::index::{history_sorted, block_rows, candidates, funding_at, history_at, FundingRow, HistoryRow, Index, IndexedBlock, SpendRow, TweakRow};
use crate::mempool::{FeeHistogram, Mempool};
use crate::status::{encode_entries, entry_keys, lemma_encoding_keeps_entries, sha256_of, lemma_history_of_sorted, below_height, outputs_below, same_statushash, sum_values, visible_history, Balance, ScriptHashStatus};
use crate::tweaks::{group_tweaks, grouped};
use bitcoin::Transaction;
use std::collections::HashMap;

verus! {

/// The settings a tracker is built from.
pub struct Config {
    pub network: Network,
    pub ignore_mempool: bool,
    pub silent_payments_index: bool,
}

/// A query that the index cannot answer yet.
#[derive(PartialEq, Eq, Structural)]
pub enum Error {
    /// The index, or its silent-payments sub-index, has not finished its
    /// first full sync.
    NotReady,
}

/// A step of the synchronization sequence, run by the driver.
#[derive(PartialEq, Eq, Structural)]
pub enum SyncStep {
    /// Sync the confirmed-chain index against the daemon.
    Index,
    /// Sync the silent-payments sub-index.
    SilentPayments,
    /// Refresh the mempool snapshot.
    Mempool,
}

/// What the driver must do next.
#[derive(PartialEq, Eq, Structural)]
pub enum SyncAction {
    Run(SyncStep),
    /// The pass is over; `true` when everything is caught up.
    Finish(bool),
}

/// What a step brought back from the daemon.
pub enum SyncEvent {
    /// Blocks indexed in this step, and whether the index reached the tip.
    Index { blocks: Vec<IndexedBlock>, done: bool },
    /// Tweak rows found in this step, and whether that sub-index reached the tip.
    SilentPayments { tweaks: Vec<TweakRow>, done: bool },
    /// The fresh mempool snapshot.
    Mempool { snapshot: Mempool },
    /// The mempool refresh failed: the previous snapshot stays, as a stale
    /// mempool is tolerated.
    MempoolFailed,
}

/// The action after a step whose outcome is `done`: the silent-payments step
/// follows a finished index step when it is enabled, then the mempool refresh
/// unless the mempool is ignored; an unfinished step ends the pass.
pub open spec fn next_action(step: SyncStep, done: bool, sp_enabled: bool, ignore_mempool: bool) -> SyncAction {
    match step {
        SyncStep::Index => if !done {
            SyncAction::Finish(false)
        } else if sp_enabled {
            SyncAction::Run(SyncStep::SilentPayments)
        } else if !ignore_mempool {
            SyncAction::Run(SyncStep::Mempool)
        } else {
            SyncAction::Finish(true)
        },
        SyncStep::SilentPayments => if !done {
            SyncAction::Finish(false)
        } else if !ignore_mempool {
            SyncAction::Run(SyncStep::Mempool)
        } else {
            SyncAction::Finish(true)
        },
        SyncStep::Mempool => SyncAction::Finish(true),
    }
}

/// The step an event reports on, and its outcome.
pub open spec fn event_step(e: SyncEvent) -> (SyncStep, bool) {
    match e {
        SyncEvent::Index { done, .. } => (SyncStep::Index, done),
        SyncEvent::SilentPayments { done, .. } => (SyncStep::SilentPayments, done),
        SyncEvent::Mempool { .. } => (SyncStep::Mempool, true),
        SyncEvent::MempoolFailed => (SyncStep::Mempool, true),
    }
}

/// The rows that indexing `blocks` one after the other adds.
pub open spec fn blocks_rows(blocks: Seq<IndexedBlock>) -> Seq<crate::index::TxRow>
    decreases blocks.len(),
{
    if blocks.len() == 0 {
        seq![]
    } else {
        blocks_rows(blocks.drop_last()) + block_rows(blocks.last().hash, blocks.last().txids@)
    }
}

/// Two sequences of tweak rows hold the same heights and values.
pub open spec fn same_tweaks(a: Seq<TweakRow>, b: Seq<TweakRow>) -> bool {
    &&& a.len() == b.len()
    &&& forall|i: int| 0 <= i < a.len() ==> a[i].height == b[i].height && a[i].tweaks@ == b[i].tweaks@
}

/// The spent outpoints that indexing `blocks` adds.
pub open spec fn blocks_spending(blocks: Seq<IndexedBlock>) -> Seq<SpendRow>
    decreases blocks.len(),
{
    if blocks.len() == 0 {
        seq![]
    } else {
        blocks_spending(blocks.drop_last()) + blocks.last().spending@
    }
}

/// The script-hash history that indexing `blocks` on top of a chain of
/// `base` blocks adds: each block's rows at the height where it lands.
pub open spec fn blocks_history(blocks: Seq<IndexedBlock>, base: nat) -> Seq<HistoryRow>
    decreases blocks.len(),
{
    if blocks.len() == 0 {
        seq![]
    } else {
        blocks_history(blocks.drop_last(), base) + history_at(
            blocks.last().history@,
            (base + blocks.len() - 1) as u64,
        )
    }
}

/// The outputs that indexing `blocks` on top of a chain of `base` blocks
/// adds, at the heights where their blocks land.
pub open spec fn blocks_funding(blocks: Seq<IndexedBlock>, base: nat) -> Seq<FundingRow>
    decreases blocks.len(),
{
    if blocks.len() == 0 {
        seq![]
    } else {
        blocks_funding(blocks.drop_last(), base) + funding_at(
            blocks.last().funding@,
            (base + blocks.len() - 1) as u64,
        )
    }
}

/// The hashes of indexed `blocks`, in order.
pub open spec fn blocks_hashes(blocks: Seq<IndexedBlock>) -> Seq<BlockHash> {
    blocks.map_values(|b: IndexedBlock| b.hash)
}

/// The hashes of raw `blocks`, in order.
pub open spec fn raw_hashes(blocks: Seq<RawBlock>) -> Seq<BlockHash> {
    blocks.map_values(|b: RawBlock| b.hash)
}

/// Keeps a confirmed-chain index and a mempool snapshot in step with the
/// daemon, and answers subscribers' queries against them.
pub struct Tracker {
    index: Index,
    mempool: Mempool,
    ignore_mempool: bool,
    pub silent_payments_index: bool,
}

impl Tracker {
    pub closed spec fn index_view(&self) -> Index {
        self.index
    }

    pub closed spec fn mempool_view(&self) -> Mempool {
        self.mempool
    }

    pub closed spec fn ignore_mempool_view(&self) -> bool {
        self.ignore_mempool
    }

    pub closed spec fn sp_index_view(&self) -> bool {
        self.silent_payments_index
    }

    /// The index's confirmed history is ordered by height.
    pub open spec fn wf(&self) -> bool {
        self.index_view().wf()
    }

    /// A tracker whose chain holds the configured network's genesis block
    /// alone, with no index rows, an empty mempool, and neither index ready.
    pub fn new(config: &Config) -> (r: Tracker)
        ensures
            r.wf(),
            r.index_view().chain_view().len() == 1,
            r.index_view().chain_view()[0]@ == genesis_hash_of(config.network),
            r.index_view().tx_rows_view().len() == 0,
            r.index_view().history_view().len() == 0,
            r.index_view().funding_view().len() == 0,
            r.index_view().spending_view().len() == 0,
            r.index_view().tweaks_view().len() == 0,
            !r.index_view().ready_view(),
            !r.index_view().sp_ready_view(),
            r.mempool_view().rows_view().len() == 0,
            r.mempool_view().funding_view().len() == 0,
            r.mempool_view().spending_view().len() == 0,
            r.mempool_view().bins_view().len() == 0,
            r.ignore_mempool_view() == config.ignore_mempool,
            r.sp_index_view() == config.silent_payments_index,
    {
        Tracker {
            index: Index::load(Chain::new(config.network)),
            mempool: Mempool::new(),
            ignore_mempool: config.ignore_mempool,
            silent_payments_index: config.silent_payments_index,
        }
    }

    pub fn chain(&self) -> (r: &Chain)
        ensures
            r@ == self.index_view().chain_view(),
    {
        self.index.chain()
    }

    pub fn index(&self) -> (r: &Index)
        ensures
            *r == self.index_view(),
    {
        &self.index
    }

    pub fn fees_histogram(&self) -> (r: &FeeHistogram)
        ensures
            r.bins@ == self.mempool_view().bins_view(),
    {
        self.mempool.fees_histogram()
    }

    /// The first action of a sync pass.
    pub fn sync_start(&self) -> (r: SyncAction)
        ensures
            r == SyncAction::Run(SyncStep::Index),
    {
        SyncAction::Run(SyncStep::Index)
    }

    /// Applies what a sync step brought back and decides the next action.
    /// Index steps append their blocks and mark the index ready when done;
    /// the mempool step replaces the snapshot. A failed step is not reported
    /// here: the driver abandons the pass and the mempool stays as it was.
    /// A tracker that ignores the mempool never takes a snapshot.
    pub fn sync(&mut self, event: SyncEvent) -> (r: SyncAction)
        requires
            old(self).wf(),
        ensures
            final(self).wf(),
            r == next_action(
                event_step(event).0,
                event_step(event).1,
                old(self).sp_index_view(),
                old(self).ignore_mempool_view(),
            ),
            final(self).sp_index_view() == old(self).sp_index_view(),
            final(self).ignore_mempool_view() == old(self).ignore_mempool_view(),
            old(self).index_view().ready_view() ==> final(self).index_view().ready_view(),
            old(self).index_view().sp_ready_view() ==> final(self).index_view().sp_ready_view(),
            match event {
                SyncEvent::Index { blocks, done } => {
                    &&& final(self).index_view().ready_view() == (old(self).index_view().ready_view() || done)
                    &&& final(self).index_view().sp_ready_view() == old(self).index_view().sp_ready_view()
                    &&& final(self).index_view().tx_rows_view() == old(self).index_view().tx_rows_view() + blocks_rows(blocks@)
                    &&& final(self).index_view().chain_view() == old(self).index_view().chain_view() + blocks_hashes(blocks@)
                    &&& final(self).index_view().history_view() == old(self).index_view().history_view()
                        + blocks_history(blocks@, old(self).index_view().chain_view().len())
                    &&& final(self).index_view().funding_view() == old(self).index_view().funding_view()
                        + blocks_funding(blocks@, old(self).index_view().chain_view().len())
                    &&& final(self).index_view().spending_view() == old(self).index_view().spending_view() + blocks_spending(blocks@)
                    &&& final(self).index_view().tweaks_view() == old(self).index_view().tweaks_view()
                    &&& final(self).mempool_view() == old(self).mempool_view()
                },
                SyncEvent::SilentPayments { tweaks, done } => {
                    &&& final(self).index_view().sp_ready_view() == (old(self).index_view().sp_ready_view() || done)
                    &&& final(self).index_view().ready_view() == old(self).index_view().ready_view()
                    &&& same_tweaks(final(self).index_view().tweaks_view(), old(self).index_view().tweaks_view() + tweaks@)
                    &&& final(self).index_view().tx_rows_view() == old(self).index_view().tx_rows_view()
                    &&& final(self).index_view().history_view() == old(self).index_view().history_view()
                    &&& final(self).index_view().funding_view() == old(self).index_view().funding_view()
                    &&& final(self).index_view().spending_view() == old(self).index_view().spending_view()
                    &&& final(self).index_view().chain_view() == old(self).index_view().chain_view()
                    &&& final(self).mempool_view() == old(self).mempool_view()
                },
                SyncEvent::Mempool { snapshot } => {
                    &&& final(self).index_view() == old(self).index_view()
                    &&& final(self).mempool_view() == if old(self).ignore_mempool_view() {
                        old(self).mempool_view()
                    } else {
                        snapshot
                    }
                },
                SyncEvent::MempoolFailed => {
                    &&& final(self).index_view() == old(self).index_view()
                    &&& final(self).mempool_view() == old(self).mempool_view()
                },
            },
    {
        match event {
            SyncEvent::Index { blocks, done } => {
                let ghost start = self.index;
                let mut k: usize = 0;
                while k < blocks.len()
                    invariant
                        0 <= k <= blocks@.len(),
                        self.index.tx_rows_view() == start.tx_rows_view() + blocks_rows(blocks@.take(k as int)),
                        self.index.wf(),
                        self.index.chain_view() == start.chain_view() + blocks_hashes(blocks@.take(k as int)),
                        self.index.history_view() == start.history_view() + blocks_history(blocks@.take(k as int), start.chain_view().len()),
                        self.index.funding_view() == start.funding_view() + blocks_funding(blocks@.take(k as int), start.chain_view().len()),
                        self.index.spending_view() == start.spending_view() + blocks_spending(blocks@.take(k as int)),
                        self.index.tweaks_view() == start.tweaks_view(),
                        self.index.ready_view() == start.ready_view(),
                        self.index.sp_ready_view() == start.sp_ready_view(),
                        self.mempool == old(self).mempool,
                        self.silent_payments_index == old(self).silent_payments_index,
                        self.ignore_mempool == old(self).ignore_mempool,
                    decreases blocks@.len() - k,
                {
                    assert(blocks@.take(k + 1).drop_last() =~= blocks@.take(k as int));
                    assert(blocks_hashes(blocks@.take(k + 1)) =~= blocks_hashes(blocks@.take(k as int)).push(blocks@[k as int].hash));
                    self.index.add_block(&blocks[k]);
                    assert(self.index.chain_view() =~= start.chain_view() + blocks_hashes(blocks@.take(k + 1)));
                    k = k + 1;
                }
                assert(blocks@.take(blocks@.len() as int) =~= blocks@);
                if done {
                    self.index.mark_ready();
                }
                if !done {
                    SyncAction::Finish(false)
                } else if self.silent_payments_index {
                    SyncAction::Run(SyncStep::SilentPayments)
                } else if !self.ignore_mempool {
                    SyncAction::Run(SyncStep::Mempool)
                } else {
                    SyncAction::Finish(true)
                }
            },
            SyncEvent::SilentPayments { tweaks, done } => {
                let ghost start = self.index;
                let mut k: usize = 0;
                while k < tweaks.len()
                    invariant
                        0 <= k <= tweaks@.len(),
                        same_tweaks(self.index.tweaks_view(), start.tweaks_view() + tweaks@.take(k as int)),
                        self.index.tx_rows_view() == start.tx_rows_view(),
                        self.index.history_view() == start.history_view(),
                        self.index.funding_view() == start.funding_view(),
                        self.index.spending_view() == start.spending_view(),
                        self.index.chain_view() == start.chain_view(),
                        self.index.wf(),
                        self.index.ready_view() == start.ready_view(),
                        self.index.sp_ready_view() == start.sp_ready_view(),
                        self.mempool == old(self).mempool,
                        self.silent_payments_index == old(self).silent_payments_index,
                        self.ignore_mempool == old(self).ignore_mempool,
                    decreases tweaks@.len() - k,
                {
                    self.index.add_tweaks(&tweaks[k]);
                    proof {
                        let now = self.index.tweaks_view();
                        let want = start.tweaks_view() + tweaks@.take(k + 1);
                        assert(want.drop_last() =~= start.tweaks_view() + tweaks@.take(k as int));
                        assert forall|i: int| 0 <= i < now.len() implies now[i].height == want[i].height
                            && now[i].tweaks@ == want[i].tweaks@ by {
                            if i < now.len() - 1 {
                                assert(now[i] == now.drop_last()[i]);
                                assert(want[i] == want.drop_last()[i]);
                            }
                        }
                    }
                    k = k + 1;
                }
                assert(tweaks@.take(tweaks@.len() as int) =~= tweaks@);
                if done {
                    self.index.mark_sp_ready();
                }
                if !done {
                    SyncAction::Finish(false)
                } else if !self.ignore_mempool {
                    SyncAction::Run(SyncStep::Mempool)
                } else {
                    SyncAction::Finish(true)
                }
            },
            SyncEvent::Mempool { snapshot } => {
                if !self.ignore_mempool {
                    self.mempool = snapshot;
                }
                SyncAction::Finish(true)
            },
            SyncEvent::MempoolFailed => SyncAction::Finish(true),
        }
    }

    /// `Ok` once the confirmed-chain index has finished a full sync.
    pub fn status(&self) -> (r: Result<(), Error>)
        ensures
            r is Ok <==> self.index_view().ready_view(),
            r is Err ==> r == Err::<(), Error>(Error::NotReady),
    {
        if self.index.is_ready() {
            return Ok(());
        }
        Err(Error::NotReady)
    }

    /// `Ok` once the silent-payments sub-index has finished a full sync.
    pub fn sp_status(&self) -> (r: Result<(), Error>)
        ensures
            r is Ok <==> self.index_view().sp_ready_view(),
            r is Err ==> r == Err::<(), Error>(Error::NotReady),
    {
        if self.index.is_sp_ready() {
            return Ok(());
        }
        Err(Error::NotReady)
    }

    /// Recomputes `status` against the current index and mempool, and tells
    /// whether its status hash changed.
    /// The confirmed part of the recomputed history comes in height order,
    /// then block position, as the index holds it.
    pub fn update_scripthash_status(&self, status: &mut ScriptHashStatus) -> (changed: bool)
        requires
            self.wf(),
        ensures
            final(status).scripthash_view() == old(status).scripthash_view(),
            history_sorted(final(status).confirmed_view(), self.index_view().chain_view().len()),
            final(status).synced_with(self.index_view(), self.mempool_view()),
            changed == (old(status).statushash_view() != final(status).statushash_view()),
    {
        let prev = status.statushash();
        status.sync(&self.index, &self.mempool);
        proof {
            lemma_history_of_sorted(
                self.index.history_view(),
                status.scripthash_view(),
                self.index.chain_view().len(),
            );
        }
        let next = status.statushash();
        !same_statushash(&prev, &next)
    }

    pub fn get_balance(&self, status: &ScriptHashStatus) -> (r: Balance)
        ensures
            r.confirmed == sum_values(
                below_height(status.confirmed_view(), self.index_view().chain_view().len()),
            ),
            r.mempool_delta == sum_values(status.mempool_view()),
    {
        status.get_balance(self.chain())
    }

    pub fn get_unspent(&self, status: &ScriptHashStatus) -> (r: Vec<FundingRow>)
        ensures
            r@ == outputs_below(
                status.confirmed_unspent_view(),
                self.index_view().chain_view().len(),
            ) + status.mempool_unspent_view(),
    {
        status.get_unspent(self.chain())
    }

    /// The blocks the index records for `txid`, in index order: the blocks to
    /// fetch before calling `lookup_transaction`.
    pub fn transaction_candidates(&self, txid: &Txid) -> (r: Vec<BlockHash>)
        ensures
            r@ == candidates(self.index_view().tx_rows_view(), txid@),
    {
        self.index.filter_by_txid(txid)
    }

    /// Finds `txid` in the candidate blocks, fetched in index order; the first
    /// block holding it wins and later ones are not scanned. A malformed block
    /// is an integrity fault of the daemon.
    pub fn lookup_transaction(&self, blocks: &Vec<RawBlock>, txid: &Txid) -> (r: Result<
        Option<(BlockHash, Transaction)>,
        InvalidBlock,
    >)
        requires
            raw_hashes(blocks@) == candidates(self.index_view().tx_rows_view(), txid@),
        ensures
            match scan_blocks(blocks@, txid@) {
                Scan::Invalid(h) => r matches Err(e) && e.hash == h,
                Scan::Found(h) => r matches Ok(Some((f, _))) && f == h,
                Scan::Absent => r matches Ok(None),
            },
    {
        find_transaction(blocks, txid)
    }

    /// The silent-payment tweaks at `height` and above, grouped by height.
    pub fn get_tweaks(&self, height: usize) -> (r: HashMap<u64, Vec<String>>)
        ensures
            grouped(self.index_view().tweaks_view(), height as u64, r@),
    {
        group_tweaks(self.index.tweak_rows(), height as u64)
    }
}

/// Any change of a script hash's visible history, in a txid or a height, a
/// transaction entering or leaving, reaches its status hash: either one side
/// is empty and the other not, and the hashes differ; or both hashes are
/// SHA-256 digests of different inputs. So the update reports the change
/// unless SHA-256 collides on those two inputs.
pub proof fn lemma_history_change_reaches_hash(
    s: ScriptHashStatus,
    t: ScriptHashStatus,
    i1: Index,
    m1: Mempool,
    i2: Index,
    m2: Mempool,
)
    requires
        t.scripthash_view() == s.scripthash_view(),
        s.synced_with(i1, m1),
        t.synced_with(i2, m2),
        entry_keys(visible_history(i1, m1, s.scripthash_view())) != entry_keys(
            visible_history(i2, m2, s.scripthash_view()),
        ),
    ensures
        s.statushash_view() is None ==> t.statushash_view() is Some,
        t.statushash_view() is None ==> s.statushash_view() is Some,
        s.statushash_view() is Some && t.statushash_view() is Some ==> exists|x: Seq<u8>, y: Seq<u8>|
            x != y && s.statushash_view() == Some(#[trigger] sha256_of(x)) && t.statushash_view()
                == Some(#[trigger] sha256_of(y)),
{
    let a = visible_history(i1, m1, s.scripthash_view());
    let b = visible_history(i2, m2, s.scripthash_view());
    assert(s.entries() == a);
    assert(t.entries() == b);
    lemma_encoding_keeps_entries(a, b);
    if a.len() == 0 && b.len() == 0 {
        assert(entry_keys(a) =~= entry_keys(b));
    }
    if a.len() > 0 && b.len() > 0 {
        assert(encode_entries(a) != encode_entries(b));
        assert(s.statushash_view() == Some(sha256_of(encode_entries(a))));
        assert(t.statushash_view() == Some(sha256_of(encode_entries(b))));
    }
}

/// Where a pass goes from `a` when every step it runs reports caught up:
/// the outcome it finishes with within `fuel` steps.
pub open spec fn caught_up_outcome(
    a: SyncAction,
    sp_enabled: bool,
    ignore_mempool: bool,
    fuel: nat,
) -> Option<bool>
    decreases fuel,
{
    match a {
        SyncAction::Finish(done) => Some(done),
        SyncAction::Run(step) => if fuel == 0 {
            None
        } else {
            caught_up_outcome(
                next_action(step, true, sp_enabled, ignore_mempool),
                sp_enabled,
                ignore_mempool,
                (fuel - 1) as nat,
            )
        },
    }
}

/// A pass whose every step reports caught up finishes with `true`, after
/// at most three steps: the index, then the silent-payments sub-index if
/// enabled, then the mempool refresh unless ignored.
pub proof fn lemma_caught_up_pass_is_done(sp_enabled: bool, ignore_mempool: bool)
    ensures
        caught_up_outcome(SyncAction::Run(SyncStep::Index), sp_enabled, ignore_mempool, 3) == Some(true),
{
    reveal_with_fuel(caught_up_outcome, 4);
}

/// With silent payments enabled, a pass never finishes with done before that
/// sub-index is caught up: the index step hands over to it, and an unfinished
/// silent-payments step ends the pass with `false`.
pub proof fn lemma_silent_payments_gate_done(index_done: bool, ignore_mempool: bool)
    ensures
        next_action(SyncStep::Index, index_done, true, ignore_mempool) != SyncAction::Finish(true),
        next_action(SyncStep::SilentPayments, false, true, ignore_mempool) == SyncAction::Finish(false),
{
}

} // verus!
