use vstd::prelude::*;

verus! {

/// Identifier of a transaction: the 32 bytes of its double-SHA256 digest.
pub type Txid = [u8; 32];

/// Identifier of a block: the 32 bytes of its header's double-SHA256 digest.
pub type BlockHash = [u8; 32];

/// Hashed form of a spending condition, the key of a subscription.
pub type ScriptHash = [u8; 32];

/// Tells whether two 32-byte identifiers are the same.
pub fn same_id(a: &[u8; 32], b: &[u8; 32]) -> (r: bool)
    ensures
        r == (a@ == b@),
{
    let mut i: usize = 0;
    while i < 32
        invariant
            0 <= i <= 32,
            a@.len() == 32,
            b@.len() == 32,
            forall|j: int| 0 <= j < i ==> a@[j] == b@[j],
        decreases 32 - i,
    {
        if a[i] != b[i] {
            return false;
        }
        i = i + 1;
    }
    assert(a@ =~= b@);
    true
}

} // verus!
