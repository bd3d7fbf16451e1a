use vstd::prelude::*;

use crate::index::TweakRow;
use std::collections::HashMap;

verus! {

broadcast use vstd::std_specs::hash::group_hash_axioms;

/// All tweak values recorded at height `h`, row after row, in row order.
pub open spec fn tweaks_at(rows: Seq<TweakRow>, h: u64) -> Seq<String>
    decreases rows.len(),
{
    if rows.len() == 0 {
        seq![]
    } else {
        let prev = tweaks_at(rows.drop_last(), h);
        if rows.last().height == h {
            prev + rows.last().tweaks@
        } else {
            prev
        }
    }
}

/// Some row was recorded at height `h`.
pub open spec fn has_height(rows: Seq<TweakRow>, h: u64) -> bool {
    exists|i: int| 0 <= i < rows.len() && #[trigger] rows[i].height == h
}

/// What grouping `rows` from height `min` on must give: one entry per height
/// at or above `min` that has a row, holding all of that height's values.
pub open spec fn grouped(rows: Seq<TweakRow>, min: u64, m: Map<u64, Vec<String>>) -> bool {
    &&& forall|h: u64| #[trigger] m.contains_key(h) <==> (h >= min && has_height(rows, h))
    &&& forall|h: u64| #[trigger] m.contains_key(h) ==> m[h]@ == tweaks_at(rows, h)
}

/// Groups the tweak rows at or above `min` by height, concatenating the
/// values of rows that share a height instead of keeping only one of them.
pub fn group_tweaks(rows: &Vec<TweakRow>, min: u64) -> (r: HashMap<u64, Vec<String>>)
    ensures
        grouped(rows@, min, r@),
{
    let mut res: HashMap<u64, Vec<String>> = HashMap::new();
    let mut i: usize = 0;
    while i < rows.len()
        invariant
            0 <= i <= rows@.len(),
            grouped(rows@.take(i as int), min, res@),
        decreases rows@.len() - i,
    {
        let ghost pre = rows@.take(i as int);
        let ghost post = rows@.take(i + 1);
        assert(post.drop_last() == pre);
        let row = &rows[i];
        let h = row.height;
        if h >= min {
            let mut v = match res.remove(&h) {
                Some(v) => v,
                None => Vec::new(),
            };
            proof {
                if !has_height(pre, h) {
                    lemma_absent_height_empty(pre, h);
                }
            }
            assert(v@ == tweaks_at(pre, h));
            let ghost base = v@;
            let mut j: usize = 0;
            while j < row.tweaks.len()
                invariant
                    0 <= j <= row.tweaks@.len(),
                    v@ == base + row.tweaks@.take(j as int),
                decreases row.tweaks@.len() - j,
            {
                v.push(row.tweaks[j].clone());
                assert(row.tweaks@.take(j + 1) == row.tweaks@.take(j as int).push(
                    row.tweaks@[j as int],
                ));
                j = j + 1;
            }
            assert(row.tweaks@.take(row.tweaks@.len() as int) == row.tweaks@);
            res.insert(h, v);
        }
        assert forall|k: u64| #[trigger] res@.contains_key(k) <==> (k >= min && has_height(post, k)) by {
            if has_height(pre, k) {
                let w = choose|w: int| 0 <= w < pre.len() && #[trigger] pre[w].height == k;
                assert(post[w].height == k);
            }
            if has_height(post, k) && k != h {
                let w = choose|w: int| 0 <= w < post.len() && #[trigger] post[w].height == k;
                assert(pre[w].height == k);
            }
            if k == h {
                assert(post[i as int].height == k);
            }
        }
        assert forall|k: u64| #[trigger] res@.contains_key(k) implies res@[k]@ == tweaks_at(post, k) by {
            if k != h && has_height(post, k) {
                let w = choose|w: int| 0 <= w < post.len() && #[trigger] post[w].height == k;
                assert(pre[w].height == k);
            }
        }
        i = i + 1;
    }
    assert(rows@.take(rows@.len() as int) == rows@);
    res
}

/// A height with no row has no values.
proof fn lemma_absent_height_empty(rows: Seq<TweakRow>, h: u64)
    requires
        !has_height(rows, h),
    ensures
        tweaks_at(rows, h) == Seq::<String>::empty(),
    decreases rows.len(),
{
    if rows.len() > 0 {
        let pre = rows.drop_last();
        assert(!has_height(pre, h)) by {
            if has_height(pre, h) {
                let w = choose|w: int| 0 <= w < pre.len() && #[trigger] pre[w].height == h;
                assert(rows[w].height == h);
            }
        }
        assert(rows[rows.len() - 1].height != h);
        lemma_absent_height_empty(pre, h);
    }
}

/// Every value recorded in any row at height `h` is in the list for `h`:
/// a later pass at a height adds to what earlier passes recorded there.
pub proof fn lemma_tweaks_kept(rows: Seq<TweakRow>, i: int, k: int)
    requires
        0 <= i < rows.len(),
        0 <= k < rows[i].tweaks@.len(),
    ensures
        tweaks_at(rows, rows[i].height).contains(rows[i].tweaks@[k]),
    decreases rows.len(),
{
    let h = rows[i].height;
    let prev = tweaks_at(rows.drop_last(), h);
    if i == rows.len() - 1 {
        assert((prev + rows.last().tweaks@)[prev.len() + k] == rows[i].tweaks@[k]);
    } else {
        lemma_tweaks_kept(rows.drop_last(), i, k);
        let w = choose|w: int| 0 <= w < prev.len() && prev[w] == rows[i].tweaks@[k];
        if rows.last().height == h {
            assert((prev + rows.last().tweaks@)[w] == rows[i].tweaks@[k]);
        }
    }
}

/// Grouping keeps every recorded value: for each row at or above `min`,
/// each of its values is in the grouped list of its height.
pub proof fn lemma_group_keeps_all(
    rows: Seq<TweakRow>,
    min: u64,
    m: Map<u64, Vec<String>>,
    i: int,
    k: int,
)
    requires
        grouped(rows, min, m),
        0 <= i < rows.len(),
        rows[i].height >= min,
        0 <= k < rows[i].tweaks@.len(),
    ensures
        m.contains_key(rows[i].height),
        m[rows[i].height]@.contains(rows[i].tweaks@[k]),
{
    let h = rows[i].height;
    assert(has_height(rows, h));
    assert(m.contains_key(h));
    assert(m[h]@ == tweaks_at(rows, h));
    lemma_tweaks_kept(rows, i, k);
}

} // verus!
