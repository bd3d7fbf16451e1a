use vstd::prelude::*;

use crate::chain::Chain;
use crate::ids::{same_id, BlockHash, ScriptHash, Txid};

verus! {

/// A transaction recorded as contained in a block.
#[derive(Clone, Copy)]
pub struct TxRow {
    pub txid: Txid,
    pub blockhash: BlockHash,
}

/// A transaction that touches a script hash, with the net change it makes to
/// that script hash's balance (what it pays to it less what it spends from it).
/// For a transaction still in the mempool the height is zero.
#[derive(Clone, Copy)]
pub struct HistoryRow {
    pub scripthash: ScriptHash,
    pub txid: Txid,
    pub height: u64,
    pub value: i64,
}

/// An output paying to a script hash. For an output of a pending
/// transaction the height is zero.
#[derive(Clone, Copy)]
pub struct FundingRow {
    pub scripthash: ScriptHash,
    pub txid: Txid,
    pub vout: u32,
    pub value: u64,
    pub height: u64,
}

/// An output spent by some transaction, named by its outpoint.
#[derive(Clone, Copy)]
pub struct SpendRow {
    pub txid: Txid,
    pub vout: u32,
}

/// Appends copies of the items of `src` to `dst`.
pub fn append_copies<T: Copy>(dst: &mut Vec<T>, src: &Vec<T>)
    ensures
        final(dst)@ == old(dst)@ + src@,
{
    let ghost start = dst@;
    let mut j: usize = 0;
    while j < src.len()
        invariant
            0 <= j <= src@.len(),
            dst@ == start + src@.take(j as int),
        decreases src@.len() - j,
    {
        dst.push(src[j]);
        assert(src@.take(j + 1) == src@.take(j as int).push(src@[j as int]));
        j = j + 1;
    }
    assert(src@.take(src@.len() as int) == src@);
}

/// Silent-payment tweak values recorded for one block height in one pass.
pub struct TweakRow {
    pub height: u64,
    pub tweaks: Vec<String>,
}

/// What indexing one block adds: its hash, the ids of its transactions in
/// block order, the script-hash history rows found in it (in block order),
/// the outputs it creates and the outpoints it spends. The heights that the
/// rows carry are replaced by the height at which the block lands.
pub struct IndexedBlock {
    pub hash: BlockHash,
    pub txids: Vec<Txid>,
    pub history: Vec<HistoryRow>,
    pub funding: Vec<FundingRow>,
    pub spending: Vec<SpendRow>,
}

/// The block hashes recorded for `txid`, in the order the rows were recorded.
pub open spec fn candidates(rows: Seq<TxRow>, txid: Seq<u8>) -> Seq<BlockHash>
    decreases rows.len(),
{
    if rows.len() == 0 {
        seq![]
    } else {
        let prev = candidates(rows.drop_last(), txid);
        if rows.last().txid@ == txid {
            prev.push(rows.last().blockhash)
        } else {
            prev
        }
    }
}

/// `rows` with each height set to `h`.
pub open spec fn history_at(rows: Seq<HistoryRow>, h: u64) -> Seq<HistoryRow> {
    rows.map_values(
        |r: HistoryRow| HistoryRow { scripthash: r.scripthash, txid: r.txid, height: h, value: r.value },
    )
}

/// `outs` with each height set to `h`.
pub open spec fn funding_at(outs: Seq<FundingRow>, h: u64) -> Seq<FundingRow> {
    outs.map_values(
        |o: FundingRow|
            FundingRow { scripthash: o.scripthash, txid: o.txid, vout: o.vout, value: o.value, height: h },
    )
}

/// Heights never decrease along `rows`, and all lie below `n`.
pub open spec fn history_sorted(rows: Seq<HistoryRow>, n: nat) -> bool {
    &&& forall|i: int, j: int| 0 <= i < j < rows.len() ==> #[trigger] rows[i].height <= #[trigger] rows[j].height
    &&& forall|i: int| 0 <= i < rows.len() ==> #[trigger] rows[i].height < n
}

/// The rows that index one block: one per transaction of it.
pub open spec fn block_rows(hash: BlockHash, txids: Seq<Txid>) -> Seq<TxRow> {
    txids.map_values(|t: Txid| TxRow { txid: t, blockhash: hash })
}

/// The confirmed-chain index, with its optional silent-payments sub-index.
pub struct Index {
    chain: Chain,
    tx_rows: Vec<TxRow>,
    history: Vec<HistoryRow>,
    funding: Vec<FundingRow>,
    spending: Vec<SpendRow>,
    tweak_rows: Vec<TweakRow>,
    ready: bool,
    sp_ready: bool,
}

impl Index {
    pub closed spec fn chain_view(&self) -> Seq<BlockHash> {
        self.chain@
    }

    pub closed spec fn tx_rows_view(&self) -> Seq<TxRow> {
        self.tx_rows@
    }

    pub closed spec fn history_view(&self) -> Seq<HistoryRow> {
        self.history@
    }

    pub closed spec fn funding_view(&self) -> Seq<FundingRow> {
        self.funding@
    }

    pub closed spec fn spending_view(&self) -> Seq<SpendRow> {
        self.spending@
    }

    pub closed spec fn tweaks_view(&self) -> Seq<TweakRow> {
        self.tweak_rows@
    }

    /// Whether a full pass of the confirmed-chain sync has completed.
    pub closed spec fn ready_view(&self) -> bool {
        self.ready
    }

    /// Whether a full pass of the silent-payments sync has completed.
    pub closed spec fn sp_ready_view(&self) -> bool {
        self.sp_ready
    }

    /// An index over the given chain with no rows, not ready.
    pub fn load(chain: Chain) -> (r: Index)
        ensures
            r.wf(),
            r.chain_view() == chain@,
            r.tx_rows_view().len() == 0,
            r.history_view().len() == 0,
            r.funding_view().len() == 0,
            r.spending_view().len() == 0,
            r.tweaks_view().len() == 0,
            !r.ready_view(),
            !r.sp_ready_view(),
    {
        Index {
            chain,
            tx_rows: Vec::new(),
            history: Vec::new(),
            funding: Vec::new(),
            spending: Vec::new(),
            tweak_rows: Vec::new(),
            ready: false,
            sp_ready: false,
        }
    }

    pub fn chain(&self) -> (r: &Chain)
        ensures
            r@ == self.chain_view(),
    {
        &self.chain
    }

    pub fn is_ready(&self) -> (r: bool)
        ensures
            r == self.ready_view(),
    {
        self.ready
    }

    pub fn is_sp_ready(&self) -> (r: bool)
        ensures
            r == self.sp_ready_view(),
    {
        self.sp_ready
    }

    pub fn history(&self) -> (r: &Vec<HistoryRow>)
        ensures
            r@ == self.history_view(),
    {
        &self.history
    }

    pub fn funding(&self) -> (r: &Vec<FundingRow>)
        ensures
            r@ == self.funding_view(),
    {
        &self.funding
    }

    pub fn spending(&self) -> (r: &Vec<SpendRow>)
        ensures
            r@ == self.spending_view(),
    {
        &self.spending
    }

    pub fn tweak_rows(&self) -> (r: &Vec<TweakRow>)
        ensures
            r@ == self.tweaks_view(),
    {
        &self.tweak_rows
    }

    /// Records that a full pass of the confirmed-chain sync has completed.
    pub fn mark_ready(&mut self)
        ensures
            final(self).ready_view(),
            final(self).sp_ready_view() == old(self).sp_ready_view(),
            final(self).chain_view() == old(self).chain_view(),
            final(self).tx_rows_view() == old(self).tx_rows_view(),
            final(self).history_view() == old(self).history_view(),
            final(self).funding_view() == old(self).funding_view(),
            final(self).spending_view() == old(self).spending_view(),
            final(self).tweaks_view() == old(self).tweaks_view(),
    {
        self.ready = true;
    }

    /// Records that a full pass of the silent-payments sync has completed.
    pub fn mark_sp_ready(&mut self)
        ensures
            final(self).sp_ready_view(),
            final(self).ready_view() == old(self).ready_view(),
            final(self).chain_view() == old(self).chain_view(),
            final(self).tx_rows_view() == old(self).tx_rows_view(),
            final(self).history_view() == old(self).history_view(),
            final(self).funding_view() == old(self).funding_view(),
            final(self).spending_view() == old(self).spending_view(),
            final(self).tweaks_view() == old(self).tweaks_view(),
    {
        self.sp_ready = true;
    }

    /// The confirmed history is ordered by height, and then by position
    /// within the block, and every row lies in the chain.
    pub open spec fn wf(&self) -> bool {
        history_sorted(self.history_view(), self.chain_view().len())
    }

    /// Appends one block on top of the indexed chain, with its rows. The
    /// history and output rows take the height at which the block lands.
    pub fn add_block(&mut self, block: &IndexedBlock)
        requires
            old(self).wf(),
        ensures
            final(self).wf(),
            final(self).chain_view() == old(self).chain_view().push(block.hash),
            final(self).tx_rows_view() == old(self).tx_rows_view() + block_rows(
                block.hash,
                block.txids@,
            ),
            final(self).history_view() == old(self).history_view() + history_at(
                block.history@,
                old(self).chain_view().len() as u64,
            ),
            final(self).funding_view() == old(self).funding_view() + funding_at(
                block.funding@,
                old(self).chain_view().len() as u64,
            ),
            final(self).spending_view() == old(self).spending_view() + block.spending@,
            final(self).tweaks_view() == old(self).tweaks_view(),
            final(self).ready_view() == old(self).ready_view(),
            final(self).sp_ready_view() == old(self).sp_ready_view(),
    {
        let hash = block.hash;
        let txids = &block.txids;
        let height = self.chain.len() as u64;
        self.chain.push(hash);
        let ghost start = self.tx_rows@;
        let mut i: usize = 0;
        while i < txids.len()
            invariant
                0 <= i <= txids@.len(),
                self.tx_rows@ == start + block_rows(hash, txids@.take(i as int)),
                self.chain@ == old(self).chain@.push(hash),
                self.history@ == old(self).history@,
                self.funding@ == old(self).funding@,
                self.spending@ == old(self).spending@,
                self.tweak_rows@ == old(self).tweak_rows@,
                self.ready == old(self).ready,
                self.sp_ready == old(self).sp_ready,
            decreases txids@.len() - i,
        {
            self.tx_rows.push(TxRow { txid: txids[i], blockhash: hash });
            assert(txids@.take(i + 1) == txids@.take(i as int).push(txids@[i as int]));
            assert(block_rows(hash, txids@.take(i + 1)) =~= block_rows(
                hash,
                txids@.take(i as int),
            ).push(TxRow { txid: txids@[i as int], blockhash: hash }));
            i = i + 1;
        }
        assert(txids@.take(txids@.len() as int) == txids@);
        let ghost hstart = self.history@;
        let mut j: usize = 0;
        while j < block.history.len()
            invariant
                0 <= j <= block.history@.len(),
                height == old(self).chain@.len(),
                self.chain@ == old(self).chain@.push(hash),
                history_sorted(hstart, height as nat),
                self.history@ == hstart + history_at(block.history@.take(j as int), height),
                history_sorted(self.history@, height as nat + 1),
                self.tx_rows@ == start + block_rows(hash, txids@),
                self.funding@ == old(self).funding@,
                self.spending@ == old(self).spending@,
                self.tweak_rows@ == old(self).tweak_rows@,
                self.ready == old(self).ready,
                self.sp_ready == old(self).sp_ready,
            decreases block.history@.len() - j,
        {
            let r = block.history[j];
            self.history.push(HistoryRow { scripthash: r.scripthash, txid: r.txid, height, value: r.value });
            assert(history_at(block.history@.take(j + 1), height) =~= history_at(
                block.history@.take(j as int),
                height,
            ).push(HistoryRow { scripthash: r.scripthash, txid: r.txid, height, value: r.value }));
            j = j + 1;
        }
        assert(block.history@.take(block.history@.len() as int) == block.history@);
        let ghost fstart = self.funding@;
        let mut k: usize = 0;
        while k < block.funding.len()
            invariant
                0 <= k <= block.funding@.len(),
                height == old(self).chain@.len(),
                self.chain@ == old(self).chain@.push(hash),
                self.history@ == hstart + history_at(block.history@, height),
                history_sorted(self.history@, height as nat + 1),
                self.funding@ == fstart + funding_at(block.funding@.take(k as int), height),
                fstart == old(self).funding@,
                self.tx_rows@ == start + block_rows(hash, txids@),
                self.spending@ == old(self).spending@,
                self.tweak_rows@ == old(self).tweak_rows@,
                self.ready == old(self).ready,
                self.sp_ready == old(self).sp_ready,
            decreases block.funding@.len() - k,
        {
            let f = block.funding[k];
            let o = FundingRow { scripthash: f.scripthash, txid: f.txid, vout: f.vout, value: f.value, height };
            self.funding.push(o);
            assert(funding_at(block.funding@.take(k + 1), height) =~= funding_at(
                block.funding@.take(k as int),
                height,
            ).push(o));
            k = k + 1;
        }
        assert(block.funding@.take(block.funding@.len() as int) == block.funding@);
        append_copies(&mut self.spending, &block.spending);
    }

    /// Appends the tweak values that a silent-payments pass found at one height.
    pub fn add_tweaks(&mut self, row: &TweakRow)
        ensures
            final(self).tweaks_view().len() == old(self).tweaks_view().len() + 1,
            final(self).tweaks_view().drop_last() == old(self).tweaks_view(),
            final(self).tweaks_view().last().height == row.height,
            final(self).tweaks_view().last().tweaks@ == row.tweaks@,
            final(self).chain_view() == old(self).chain_view(),
            final(self).tx_rows_view() == old(self).tx_rows_view(),
            final(self).history_view() == old(self).history_view(),
            final(self).funding_view() == old(self).funding_view(),
            final(self).spending_view() == old(self).spending_view(),
            final(self).ready_view() == old(self).ready_view(),
            final(self).sp_ready_view() == old(self).sp_ready_view(),
    {
        let mut copy: Vec<String> = Vec::new();
        let mut j: usize = 0;
        while j < row.tweaks.len()
            invariant
                0 <= j <= row.tweaks@.len(),
                copy@ == row.tweaks@.take(j as int),
            decreases row.tweaks@.len() - j,
        {
            copy.push(row.tweaks[j].clone());
            assert(row.tweaks@.take(j + 1) == row.tweaks@.take(j as int).push(row.tweaks@[j as int]));
            j = j + 1;
        }
        assert(row.tweaks@.take(row.tweaks@.len() as int) == row.tweaks@);
        self.tweak_rows.push(TweakRow { height: row.height, tweaks: copy });
    }

    /// The blocks that may hold `txid`: normally one, two for the few
    /// coinbase transactions whose id was reused.
    pub fn filter_by_txid(&self, txid: &Txid) -> (r: Vec<BlockHash>)
        ensures
            r@ == candidates(self.tx_rows_view(), txid@),
    {
        let mut r: Vec<BlockHash> = Vec::new();
        let mut i: usize = 0;
        while i < self.tx_rows.len()
            invariant
                0 <= i <= self.tx_rows@.len(),
                r@ == candidates(self.tx_rows@.take(i as int), txid@),
            decreases self.tx_rows@.len() - i,
        {
            let row = &self.tx_rows[i];
            assert(self.tx_rows@.take(i + 1).drop_last() == self.tx_rows@.take(i as int));
            if same_id(&row.txid, txid) {
                r.push(row.blockhash);
            }
            i = i + 1;
        }
        assert(self.tx_rows@.take(self.tx_rows@.len() as int) == self.tx_rows@);
        r
    }
}

} // verus!
