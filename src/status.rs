use vstd::prelude::*;

use crate::chain::Chain;
use crate::ids::{same_id, ScriptHash};
use crate::index::{append_copies, history_sorted, FundingRow, HistoryRow, Index, SpendRow};
use crate::mempool::Mempool;

verus! {

/// The SHA-256 digest of `data`.
pub uninterp spec fn sha256_of(data: Seq<u8>) -> Seq<u8>;

/// Relies on bitcoin's `hashes::sha256::Hash::hash`: the 32-byte SHA-256
/// digest of the input.
#[verifier::external_body]
fn sha256(data: &[u8]) -> (r: [u8; 32])
    ensures
        r@ == sha256_of(data@),
{
    let digest = <bitcoin::hashes::sha256::Hash as bitcoin::hashes::Hash>::hash(data);
    <bitcoin::hashes::sha256::Hash as bitcoin::hashes::Hash>::to_byte_array(digest)
}

/// The rows of `rows` that touch `sh`, in order.
pub open spec fn history_of(rows: Seq<HistoryRow>, sh: Seq<u8>) -> Seq<HistoryRow>
    decreases rows.len(),
{
    if rows.len() == 0 {
        seq![]
    } else {
        let prev = history_of(rows.drop_last(), sh);
        if rows.last().scripthash@ == sh {
            prev.push(rows.last())
        } else {
            prev
        }
    }
}

/// Every row that `history_of` keeps is a row of `rows`.
proof fn lemma_history_of_members(rows: Seq<HistoryRow>, sh: Seq<u8>)
    ensures
        forall|k: int|
            0 <= k < history_of(rows, sh).len() ==> exists|i: int|
                0 <= i < rows.len() && #[trigger] history_of(rows, sh)[k] == rows[i],
    decreases rows.len(),
{
    if rows.len() > 0 {
        let pre = rows.drop_last();
        lemma_history_of_members(pre, sh);
        let h = history_of(rows, sh);
        let p = history_of(pre, sh);
        assert forall|k: int| 0 <= k < h.len() implies exists|i: int|
            0 <= i < rows.len() && #[trigger] h[k] == rows[i] by {
            if k < p.len() {
                let i = choose|i: int| 0 <= i < pre.len() && #[trigger] p[k] == pre[i];
                assert(h[k] == rows[i]);
            } else {
                assert(h[k] == rows[rows.len() - 1]);
            }
        }
    }
}

/// Keeping the rows of one script hash keeps them in height order.
pub proof fn lemma_history_of_sorted(rows: Seq<HistoryRow>, sh: Seq<u8>, n: nat)
    requires
        history_sorted(rows, n),
    ensures
        history_sorted(history_of(rows, sh), n),
    decreases rows.len(),
{
    lemma_history_of_members(rows, sh);
    if rows.len() > 0 {
        let pre = rows.drop_last();
        assert(history_sorted(pre, n)) by {
            assert forall|i: int, j: int| 0 <= i < j < pre.len() implies #[trigger] pre[i].height
                <= #[trigger] pre[j].height by {
                assert(pre[i] == rows[i] && pre[j] == rows[j]);
            }
            assert forall|i: int| 0 <= i < pre.len() implies #[trigger] pre[i].height < n by {
                assert(pre[i] == rows[i]);
            }
        }
        lemma_history_of_sorted(pre, sh, n);
        lemma_history_of_members(pre, sh);
        let p = history_of(pre, sh);
        let last = rows[rows.len() - 1];
        assert forall|k: int| 0 <= k < p.len() implies #[trigger] p[k].height <= last.height by {
            let i = choose|i: int| 0 <= i < pre.len() && #[trigger] p[k] == pre[i];
            assert(pre[i] == rows[i]);
        }
    }
}

/// The `n` low bytes of `x`, least significant first.
pub open spec fn le_bytes(x: nat, n: nat) -> Seq<u8>
    decreases n,
{
    if n == 0 {
        seq![]
    } else {
        seq![(x % 256) as u8] + le_bytes(x / 256, (n - 1) as nat)
    }
}

/// The digest input: for each entry, its txid then its height as 8
/// little-endian bytes.
pub open spec fn encode_entries(entries: Seq<HistoryRow>) -> Seq<u8>
    decreases entries.len(),
{
    if entries.len() == 0 {
        seq![]
    } else {
        encode_entries(entries.drop_last()) + entries.last().txid@ + le_bytes(
            entries.last().height as nat,
            8,
        )
    }
}

/// The status hash of a history: none for an empty one, else the digest of
/// its encoding.
pub open spec fn statushash_of(entries: Seq<HistoryRow>) -> Option<Seq<u8>> {
    if entries.len() == 0 {
        None
    } else {
        Some(sha256_of(encode_entries(entries)))
    }
}

/// The full visible history of `sh`: confirmed rows in index order, then
/// mempool rows.
pub open spec fn visible_history(index: Index, mempool: Mempool, sh: Seq<u8>) -> Seq<HistoryRow> {
    history_of(index.history_view(), sh) + history_of(mempool.rows_view(), sh)
}

/// What the status hash covers of each entry: its txid and its height.
pub open spec fn entry_keys(entries: Seq<HistoryRow>) -> Seq<(Seq<u8>, u64)> {
    entries.map_values(|e: HistoryRow| (e.txid@, e.height))
}

/// `256` to the power `n`.
pub open spec fn pow256(n: nat) -> nat
    decreases n,
{
    if n == 0 {
        1
    } else {
        256 * pow256((n - 1) as nat)
    }
}

proof fn lemma_le_bytes_len(x: nat, n: nat)
    ensures
        le_bytes(x, n).len() == n,
    decreases n,
{
    if n > 0 {
        lemma_le_bytes_len(x / 256, (n - 1) as nat);
    }
}

/// Distinct numbers below `256^n` have distinct `n`-byte encodings.
proof fn lemma_le_bytes_injective(x: nat, y: nat, n: nat)
    requires
        x < pow256(n),
        y < pow256(n),
        le_bytes(x, n) == le_bytes(y, n),
    ensures
        x == y,
    decreases n,
{
    if n > 0 {
        let p = pow256((n - 1) as nat);
        let rx = le_bytes(x / 256, (n - 1) as nat);
        let ry = le_bytes(y / 256, (n - 1) as nat);
        lemma_le_bytes_len(x / 256, (n - 1) as nat);
        lemma_le_bytes_len(y / 256, (n - 1) as nat);
        assert(le_bytes(x, n) == seq![(x % 256) as u8] + rx);
        assert(le_bytes(y, n) == seq![(y % 256) as u8] + ry);
        assert((seq![(x % 256) as u8] + rx)[0] == (x % 256) as u8);
        assert((seq![(y % 256) as u8] + ry)[0] == (y % 256) as u8);
        assert(x % 256 == y % 256);
        assert(le_bytes(x / 256, (n - 1) as nat) =~= le_bytes(x, n).subrange(1, n as int));
        assert(le_bytes(y / 256, (n - 1) as nat) =~= le_bytes(y, n).subrange(1, n as int));
        assert(x / 256 < p) by (nonlinear_arith)
            requires x < 256 * p;
        assert(y / 256 < p) by (nonlinear_arith)
            requires y < 256 * p;
        lemma_le_bytes_injective(x / 256, y / 256, (n - 1) as nat);
        assert(x == 256 * (x / 256) + x % 256);
        assert(y == 256 * (y / 256) + y % 256);
    }
}

proof fn lemma_encode_len(entries: Seq<HistoryRow>)
    ensures
        encode_entries(entries).len() == 40 * entries.len(),
    decreases entries.len(),
{
    if entries.len() > 0 {
        lemma_encode_len(entries.drop_last());
        lemma_le_bytes_len(entries.last().height as nat, 8);
    }
}

/// The digest input determines the txids and heights it was made from: two
/// histories that differ in them have different digest inputs, so a change
/// of a script hash's visible history changes what its status hash is
/// computed from.
pub proof fn lemma_encoding_keeps_entries(a: Seq<HistoryRow>, b: Seq<HistoryRow>)
    requires
        entry_keys(a) != entry_keys(b),
    ensures
        encode_entries(a) != encode_entries(b),
    decreases a.len(),
{
    lemma_encode_len(a);
    lemma_encode_len(b);
    if a.len() == b.len() && a.len() > 0 && encode_entries(a) == encode_entries(b) {
        let ea = encode_entries(a.drop_last());
        let eb = encode_entries(b.drop_last());
        lemma_encode_len(a.drop_last());
        lemma_encode_len(b.drop_last());
        let x = a.last();
        let y = b.last();
        lemma_le_bytes_len(x.height as nat, 8);
        lemma_le_bytes_len(y.height as nat, 8);
        let whole = encode_entries(a);
        let m = ea.len() as int;
        assert(whole.subrange(0, m) =~= ea);
        assert(encode_entries(b).subrange(0, m) =~= eb);
        assert(whole.subrange(m, m + 32) =~= x.txid@);
        assert(encode_entries(b).subrange(m, m + 32) =~= y.txid@);
        assert(whole.subrange(m + 32, m + 40) =~= le_bytes(x.height as nat, 8));
        assert(encode_entries(b).subrange(m + 32, m + 40) =~= le_bytes(y.height as nat, 8));
        assert(pow256(8) == 0x1_0000_0000_0000_0000) by {
            reveal_with_fuel(pow256, 9);
        }
        lemma_le_bytes_injective(x.height as nat, y.height as nat, 8);
        if entry_keys(a.drop_last()) != entry_keys(b.drop_last()) {
            lemma_encoding_keeps_entries(a.drop_last(), b.drop_last());
        }
        assert(entry_keys(a) =~= entry_keys(a.drop_last()).push((x.txid@, x.height)));
        assert(entry_keys(b) =~= entry_keys(b.drop_last()).push((y.txid@, y.height)));
    }
    if a.len() != b.len() {
        assert(encode_entries(a).len() != encode_entries(b).len());
    }
    if a.len() == 0 && b.len() == 0 {
        assert(entry_keys(a) =~= entry_keys(b));
    }
}

/// The sum of the balance changes of `rows`.
pub open spec fn sum_values(rows: Seq<HistoryRow>) -> int
    decreases rows.len(),
{
    if rows.len() == 0 {
        0
    } else {
        sum_values(rows.drop_last()) + rows.last().value
    }
}

/// The rows whose block is within the first `n` blocks of the chain.
pub open spec fn below_height(rows: Seq<HistoryRow>, n: nat) -> Seq<HistoryRow>
    decreases rows.len(),
{
    if rows.len() == 0 {
        seq![]
    } else {
        let prev = below_height(rows.drop_last(), n);
        if rows.last().height < n {
            prev.push(rows.last())
        } else {
            prev
        }
    }
}

/// Some row of `spends` spends output `vout` of `txid`.
pub open spec fn spent_in(spends: Seq<SpendRow>, txid: Seq<u8>, vout: u32) -> bool {
    exists|i: int| 0 <= i < spends.len() && #[trigger] spends[i].txid@ == txid && spends[i].vout == vout
}

/// The outputs of `outs` that pay to `sh` and that no row of `s1` or `s2`
/// spends, in order.
pub open spec fn unspent_of(
    outs: Seq<FundingRow>,
    s1: Seq<SpendRow>,
    s2: Seq<SpendRow>,
    sh: Seq<u8>,
) -> Seq<FundingRow>
    decreases outs.len(),
{
    if outs.len() == 0 {
        seq![]
    } else {
        let prev = unspent_of(outs.drop_last(), s1, s2, sh);
        let o = outs.last();
        if o.scripthash@ == sh && !spent_in(s1, o.txid@, o.vout) && !spent_in(s2, o.txid@, o.vout) {
            prev.push(o)
        } else {
            prev
        }
    }
}

/// The outputs of `outs` whose block is within the first `n` blocks.
pub open spec fn outputs_below(outs: Seq<FundingRow>, n: nat) -> Seq<FundingRow>
    decreases outs.len(),
{
    if outs.len() == 0 {
        seq![]
    } else {
        let prev = outputs_below(outs.drop_last(), n);
        if outs.last().height < n {
            prev.push(outs.last())
        } else {
            prev
        }
    }
}

/// Tells whether some row of `spends` spends output `vout` of `txid`.
fn is_spent(spends: &Vec<SpendRow>, txid: &[u8; 32], vout: u32) -> (r: bool)
    ensures
        r == spent_in(spends@, txid@, vout),
{
    let mut i: usize = 0;
    while i < spends.len()
        invariant
            0 <= i <= spends@.len(),
            forall|j: int| 0 <= j < i ==> !(#[trigger] spends@[j].txid@ == txid@ && spends@[j].vout == vout),
        decreases spends@.len() - i,
    {
        if spends[i].vout == vout && same_id(&spends[i].txid, txid) {
            return true;
        }
        i = i + 1;
    }
    false
}

/// Copies the outputs of `outs` that pay to `sh` and are not spent.
fn collect_unspent(
    outs: &Vec<FundingRow>,
    s1: &Vec<SpendRow>,
    s2: &Vec<SpendRow>,
    sh: &ScriptHash,
) -> (r: Vec<FundingRow>)
    ensures
        r@ == unspent_of(outs@, s1@, s2@, sh@),
{
    let mut r: Vec<FundingRow> = Vec::new();
    let mut i: usize = 0;
    while i < outs.len()
        invariant
            0 <= i <= outs@.len(),
            r@ == unspent_of(outs@.take(i as int), s1@, s2@, sh@),
        decreases outs@.len() - i,
    {
        let o = outs[i];
        assert(outs@.take(i + 1).drop_last() == outs@.take(i as int));
        if same_id(&o.scripthash, sh) && !is_spent(s1, &o.txid, o.vout) && !is_spent(s2, &o.txid, o.vout) {
            r.push(o);
        }
        i = i + 1;
    }
    assert(outs@.take(outs@.len() as int) == outs@);
    r
}

/// Confirmed and unconfirmed balance changes of a script hash.
pub struct Balance {
    pub confirmed: i128,
    pub mempool_delta: i128,
}

/// A subscriber's view of one script hash.
pub struct ScriptHashStatus {
    scripthash: ScriptHash,
    confirmed: Vec<HistoryRow>,
    mempool: Vec<HistoryRow>,
    confirmed_unspent: Vec<FundingRow>,
    mempool_unspent: Vec<FundingRow>,
    statushash: Option<[u8; 32]>,
}

/// The spec view of an optional 32-byte digest.
pub open spec fn opt_view(h: Option<[u8; 32]>) -> Option<Seq<u8>> {
    match h {
        Some(d) => Some(d@),
        None => None,
    }
}

/// Tells whether two optional digests are the same.
pub fn same_statushash(a: &Option<[u8; 32]>, b: &Option<[u8; 32]>) -> (r: bool)
    ensures
        r == (opt_view(*a) == opt_view(*b)),
{
    match (a, b) {
        (Some(x), Some(y)) => same_id(x, y),
        (None, None) => true,
        _ => false,
    }
}

/// Copies the rows of `rows` that touch `sh`.
fn collect_history(rows: &Vec<HistoryRow>, sh: &ScriptHash) -> (r: Vec<HistoryRow>)
    ensures
        r@ == history_of(rows@, sh@),
{
    let mut r: Vec<HistoryRow> = Vec::new();
    let mut i: usize = 0;
    while i < rows.len()
        invariant
            0 <= i <= rows@.len(),
            r@ == history_of(rows@.take(i as int), sh@),
        decreases rows@.len() - i,
    {
        let row = &rows[i];
        assert(rows@.take(i + 1).drop_last() == rows@.take(i as int));
        if same_id(&row.scripthash, sh) {
            r.push(HistoryRow {
                scripthash: row.scripthash,
                txid: row.txid,
                height: row.height,
                value: row.value,
            });
        }
        i = i + 1;
    }
    assert(rows@.take(rows@.len() as int) == rows@);
    r
}

/// Appends `x` as 8 little-endian bytes.
fn push_le_u64(out: &mut Vec<u8>, x: u64)
    ensures
        final(out)@ == old(out)@ + le_bytes(x as nat, 8),
{
    let ghost start = out@;
    let mut k: u64 = 0;
    let mut y: u64 = x;
    while k < 8
        invariant
            0 <= k <= 8,
            start + le_bytes(x as nat, 8) == out@ + le_bytes(y as nat, (8 - k) as nat),
        decreases 8 - k,
    {
        let ghost before = out@;
        assert(le_bytes(y as nat, (8 - k) as nat) == seq![(y as nat % 256) as u8] + le_bytes(
            (y / 256) as nat,
            (8 - k - 1) as nat,
        ));
        out.push((y % 256) as u8);
        assert(before + le_bytes(y as nat, (8 - k) as nat) =~= out@ + le_bytes(
            (y / 256) as nat,
            (8 - k - 1) as nat,
        ));
        y = y / 256;
        k = k + 1;
    }
    assert(le_bytes(y as nat, 0) == Seq::<u8>::empty());
    assert(out@ + Seq::<u8>::empty() == out@);
}

/// The digest input for `entries`.
fn encode(entries: &Vec<HistoryRow>) -> (r: Vec<u8>)
    ensures
        r@ == encode_entries(entries@),
{
    let mut out: Vec<u8> = Vec::new();
    let mut i: usize = 0;
    while i < entries.len()
        invariant
            0 <= i <= entries@.len(),
            out@ == encode_entries(entries@.take(i as int)),
        decreases entries@.len() - i,
    {
        let e = &entries[i];
        assert(entries@.take(i + 1).drop_last() == entries@.take(i as int));
        let mut j: usize = 0;
        let ghost mid = out@;
        while j < 32
            invariant
                0 <= j <= 32,
                e.txid@.len() == 32,
                out@ == mid + e.txid@.take(j as int),
            decreases 32 - j,
        {
            out.push(e.txid[j]);
            assert(e.txid@.take(j + 1) == e.txid@.take(j as int).push(e.txid@[j as int]));
            j = j + 1;
        }
        assert(e.txid@.take(32) == e.txid@);
        push_le_u64(&mut out, e.height);
        i = i + 1;
    }
    assert(entries@.take(entries@.len() as int) == entries@);
    out
}

impl ScriptHashStatus {
    pub closed spec fn scripthash_view(&self) -> Seq<u8> {
        self.scripthash@
    }

    pub closed spec fn confirmed_view(&self) -> Seq<HistoryRow> {
        self.confirmed@
    }

    pub closed spec fn mempool_view(&self) -> Seq<HistoryRow> {
        self.mempool@
    }

    pub closed spec fn confirmed_unspent_view(&self) -> Seq<FundingRow> {
        self.confirmed_unspent@
    }

    pub closed spec fn mempool_unspent_view(&self) -> Seq<FundingRow> {
        self.mempool_unspent@
    }

    pub closed spec fn statushash_view(&self) -> Option<Seq<u8>> {
        opt_view(self.statushash)
    }

    /// The history this status holds, confirmed rows first.
    pub open spec fn entries(&self) -> Seq<HistoryRow> {
        self.confirmed_view() + self.mempool_view()
    }

    /// This status reflects the given index and mempool.
    pub open spec fn synced_with(&self, index: Index, mempool: Mempool) -> bool {
        &&& self.confirmed_view() == history_of(index.history_view(), self.scripthash_view())
        &&& self.mempool_view() == history_of(mempool.rows_view(), self.scripthash_view())
        &&& self.statushash_view() == statushash_of(self.entries())
        &&& self.confirmed_unspent_view() == unspent_of(
            index.funding_view(),
            index.spending_view(),
            mempool.spending_view(),
            self.scripthash_view(),
        )
        &&& self.mempool_unspent_view() == unspent_of(
            mempool.funding_view(),
            index.spending_view(),
            mempool.spending_view(),
            self.scripthash_view(),
        )
    }

    /// A fresh subscription to `scripthash`, with no history seen yet.
    pub fn new(scripthash: ScriptHash) -> (r: ScriptHashStatus)
        ensures
            r.scripthash_view() == scripthash@,
            r.confirmed_view().len() == 0,
            r.mempool_view().len() == 0,
            r.confirmed_unspent_view().len() == 0,
            r.mempool_unspent_view().len() == 0,
            r.statushash_view() is None,
    {
        ScriptHashStatus {
            scripthash,
            confirmed: Vec::new(),
            mempool: Vec::new(),
            confirmed_unspent: Vec::new(),
            mempool_unspent: Vec::new(),
            statushash: None,
        }
    }

    pub fn statushash(&self) -> (r: Option<[u8; 32]>)
        ensures
            opt_view(r) == self.statushash_view(),
    {
        self.statushash
    }

    /// Recomputes the history and status hash from scratch against the
    /// given index and mempool.
    pub fn sync(&mut self, index: &Index, mempool: &Mempool)
        ensures
            final(self).scripthash_view() == old(self).scripthash_view(),
            final(self).synced_with(*index, *mempool),
    {
        let confirmed = collect_history(index.history(), &self.scripthash);
        let pending = collect_history(mempool.rows(), &self.scripthash);
        let mut all: Vec<HistoryRow> = Vec::new();
        append_copies(&mut all, &confirmed);
        append_copies(&mut all, &pending);
        assert(all@ =~= confirmed@ + pending@);
        let confirmed_unspent = collect_unspent(
            index.funding(),
            index.spending(),
            mempool.spending(),
            &self.scripthash,
        );
        let mempool_unspent = collect_unspent(
            mempool.funding(),
            index.spending(),
            mempool.spending(),
            &self.scripthash,
        );
        let hash = if all.len() == 0 {
            None
        } else {
            let bytes = encode(&all);
            Some(sha256(bytes.as_slice()))
        };
        self.confirmed = confirmed;
        self.mempool = pending;
        self.statushash = hash;
        self.confirmed_unspent = confirmed_unspent;
        self.mempool_unspent = mempool_unspent;
    }

    /// The unspent outputs paying to this script hash: the confirmed ones in
    /// blocks still in `chain`, then the pending ones.
    pub fn get_unspent(&self, chain: &Chain) -> (r: Vec<FundingRow>)
        ensures
            r@ == outputs_below(self.confirmed_unspent_view(), chain@.len()) + self.mempool_unspent_view(),
    {
        let n = chain.len();
        let mut r: Vec<FundingRow> = Vec::new();
        let mut i: usize = 0;
        while i < self.confirmed_unspent.len()
            invariant
                0 <= i <= self.confirmed_unspent@.len(),
                n == chain@.len(),
                r@ == outputs_below(self.confirmed_unspent@.take(i as int), n as nat),
            decreases self.confirmed_unspent@.len() - i,
        {
            let o = self.confirmed_unspent[i];
            assert(self.confirmed_unspent@.take(i + 1).drop_last() == self.confirmed_unspent@.take(i as int));
            if (o.height as u128) < (n as u128) {
                r.push(o);
            }
            i = i + 1;
        }
        assert(self.confirmed_unspent@.take(self.confirmed_unspent@.len() as int) == self.confirmed_unspent@);
        append_copies(&mut r, &self.mempool_unspent);
        r
    }

    /// Confirmed balance over the blocks still in `chain`, and the change
    /// that pending transactions make to it.
    pub fn get_balance(&self, chain: &Chain) -> (r: Balance)
        ensures
            r.confirmed == sum_values(below_height(self.confirmed_view(), chain@.len())),
            r.mempool_delta == sum_values(self.mempool_view()),
    {
        let n = chain.len();
        let mut confirmed: i128 = 0;
        let mut i: usize = 0;
        let ghost mut kept: Seq<HistoryRow> = seq![];
        while i < self.confirmed.len()
            invariant
                0 <= i <= self.confirmed@.len(),
                n == chain@.len(),
                kept == below_height(self.confirmed@.take(i as int), n as nat),
                kept.len() <= i,
                confirmed == sum_values(kept),
                -0x8000_0000_0000_0000 * kept.len() <= sum_values(kept) <= 0x7fff_ffff_ffff_ffff * kept.len(),
            decreases self.confirmed@.len() - i,
        {
            let e = &self.confirmed[i];
            assert(self.confirmed@.take(i + 1).drop_last() == self.confirmed@.take(i as int));
            if (e.height as u128) < (n as u128) {
                proof {
                    let k = kept.len() as int;
                    assert(-0x8000_0000_0000_0000 * k + -0x8000_0000_0000_0000 == -0x8000_0000_0000_0000 * (k + 1)) by (nonlinear_arith);
                    assert(0x7fff_ffff_ffff_ffff * k + 0x7fff_ffff_ffff_ffff == 0x7fff_ffff_ffff_ffff * (k + 1)) by (nonlinear_arith);
                    assert(k < 0x1_0000_0000_0000_0000);
                    assert(0x7fff_ffff_ffff_ffff * (k + 1) <= 0x7fff_ffff_ffff_ffff * 0x1_0000_0000_0000_0000) by (nonlinear_arith)
                        requires k + 1 <= 0x1_0000_0000_0000_0000;
                    assert(-0x8000_0000_0000_0000 * (k + 1) >= -0x8000_0000_0000_0000 * 0x1_0000_0000_0000_0000) by (nonlinear_arith)
                        requires k + 1 <= 0x1_0000_0000_0000_0000;
                    kept = kept.push(*e);
                }
                assert(kept.drop_last() =~= below_height(self.confirmed@.take(i as int), n as nat));
                confirmed = confirmed + e.value as i128;
            }
            i = i + 1;
        }
        assert(self.confirmed@.take(self.confirmed@.len() as int) == self.confirmed@);
        let mut delta: i128 = 0;
        let mut j: usize = 0;
        while j < self.mempool.len()
            invariant
                0 <= j <= self.mempool@.len(),
                delta == sum_values(self.mempool@.take(j as int)),
                -0x8000_0000_0000_0000 * j <= delta <= 0x7fff_ffff_ffff_ffff * j,
            decreases self.mempool@.len() - j,
        {
            let e = &self.mempool[j];
            assert(self.mempool@.take(j + 1).drop_last() == self.mempool@.take(j as int));
            proof {
                let k = j as int;
                assert(-0x8000_0000_0000_0000 * k + -0x8000_0000_0000_0000 == -0x8000_0000_0000_0000 * (k + 1)) by (nonlinear_arith);
                assert(0x7fff_ffff_ffff_ffff * k + 0x7fff_ffff_ffff_ffff == 0x7fff_ffff_ffff_ffff * (k + 1)) by (nonlinear_arith);
                assert(0x7fff_ffff_ffff_ffff * (k + 1) <= 0x7fff_ffff_ffff_ffff * 0x1_0000_0000_0000_0000) by (nonlinear_arith)
                    requires k + 1 <= 0x1_0000_0000_0000_0000;
                assert(-0x8000_0000_0000_0000 * (k + 1) >= -0x8000_0000_0000_0000 * 0x1_0000_0000_0000_0000) by (nonlinear_arith)
                    requires k + 1 <= 0x1_0000_0000_0000_0000;
            }
            delta = delta + e.value as i128;
            j = j + 1;
        }
        assert(self.mempool@.take(self.mempool@.len() as int) == self.mempool@);
        Balance { confirmed, mempool_delta: delta }
    }
}

/// Recomputing a status is deterministic: two statuses of the same script
/// hash, each synced with the same index and mempool, hold the same hash.
pub proof fn lemma_statushash_deterministic(
    a: ScriptHashStatus,
    b: ScriptHashStatus,
    index: Index,
    mempool: Mempool,
)
    requires
        a.scripthash_view() == b.scripthash_view(),
        a.synced_with(index, mempool),
        b.synced_with(index, mempool),
    ensures
        a.statushash_view() == b.statushash_view(),
{
}

} // verus!
