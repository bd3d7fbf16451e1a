use vstd::prelude::*;

use crate::ids::{BlockHash, Txid};
use bitcoin::Transaction;
use bitcoin_slices::bsl::{Block, FindTransaction};
use bitcoin_slices::Visit;

verus! {

#[verifier::external_type_specification]
#[verifier::external_body]
pub struct ExTransaction(bitcoin::Transaction);

/// What scanning the serialized block `block` for the transaction `txid`
/// finds: `None` when the bytes are not a well-formed block up to that
/// transaction, `Some(true)` when the transaction is in it, `Some(false)`
/// when the block is well formed and does not hold it.
pub uninterp spec fn block_scan(block: Seq<u8>, txid: Seq<u8>) -> Option<bool>;

/// The largest serialized block that consensus allows, in bytes.
pub const MAX_BLOCK_SIZE: usize = 4_000_000;

/// Relies on bitcoin_slices' `bsl::Block::visit` with its `FindTransaction`
/// visitor: it parses the block and stops at the first transaction whose id is
/// `txid` (given in internal byte order), or fails on malformed bytes. The
/// visitor decodes the found transaction with bitcoin's `consensus_decode`,
/// which reads at most 4,000,000 bytes and would fail, and panic the visitor,
/// on a longer one; a block within that size holds no such transaction.
#[verifier::external_body]
fn find_in_block(block: &[u8], txid: &Txid) -> (r: Result<Option<Transaction>, ()>)
    requires
        block@.len() <= MAX_BLOCK_SIZE,
    ensures
        (block_scan(block@, txid@) is None) <==> (r is Err),
        (block_scan(block@, txid@) == Some(true)) <==> (r matches Ok(Some(_))),
{
    let id = <bitcoin::Txid as bitcoin::hashes::Hash>::from_byte_array(*txid);
    let mut visitor = FindTransaction::new(id);
    match Block::visit(block, &mut visitor) {
        Ok(_) | Err(bitcoin_slices::Error::VisitBreak) => Ok(visitor.tx_found()),
        Err(_) => Err(()),
    }
}

/// A block's hash and its serialized content, as the daemon delivered them.
pub struct RawBlock {
    pub hash: BlockHash,
    pub bytes: Vec<u8>,
}

/// The outcome of scanning candidate blocks in order.
pub enum Scan {
    /// A block before any match is oversized or failed to parse.
    Invalid(BlockHash),
    /// The first block holding the transaction.
    Found(BlockHash),
    /// No block holds it.
    Absent,
}

/// Scanning stops at the first block that holds the transaction, is larger
/// than consensus allows, or fails to parse; later blocks are not looked at.
pub open spec fn scan_blocks(blocks: Seq<RawBlock>, txid: Seq<u8>) -> Scan
    decreases blocks.len(),
{
    if blocks.len() == 0 {
        Scan::Absent
    } else if blocks[0].bytes@.len() > MAX_BLOCK_SIZE {
        Scan::Invalid(blocks[0].hash)
    } else {
        match block_scan(blocks[0].bytes@, txid) {
            None => Scan::Invalid(blocks[0].hash),
            Some(true) => Scan::Found(blocks[0].hash),
            Some(false) => scan_blocks(blocks.skip(1), txid),
        }
    }
}

/// A block returned by the daemon is not a well-formed block of at most
/// `MAX_BLOCK_SIZE` bytes: the daemon broke
/// its contract, and this is not a condition to retry.
pub struct InvalidBlock {
    pub hash: BlockHash,
}

/// Finds `txid` in the first of `blocks` that holds it, in the given order.
pub fn find_transaction(blocks: &Vec<RawBlock>, txid: &Txid) -> (r: Result<
    Option<(BlockHash, Transaction)>,
    InvalidBlock,
>)
    ensures
        match scan_blocks(blocks@, txid@) {
            Scan::Invalid(h) => r matches Err(e) && e.hash == h,
            Scan::Found(h) => r matches Ok(Some((f, _))) && f == h,
            Scan::Absent => r matches Ok(None),
        },
{
    let mut i: usize = 0;
    assert(blocks@.skip(0) == blocks@);
    while i < blocks.len()
        invariant
            0 <= i <= blocks@.len(),
            scan_blocks(blocks@, txid@) == scan_blocks(blocks@.skip(i as int), txid@),
        decreases blocks@.len() - i,
    {
        let block = &blocks[i];
        assert(blocks@.skip(i as int)[0] == blocks@[i as int]);
        assert(blocks@.skip(i as int).skip(1) == blocks@.skip(i + 1));
        if block.bytes.len() > MAX_BLOCK_SIZE {
            return Err(InvalidBlock { hash: block.hash });
        }
        match find_in_block(block.bytes.as_slice(), txid) {
            Err(()) => {
                return Err(InvalidBlock { hash: block.hash });
            },
            Ok(Some(tx)) => {
                return Ok(Some((block.hash, tx)));
            },
            Ok(None) => {},
        }
        i = i + 1;
    }
    Ok(None)
}

/// Once a block holds the transaction, the blocks after it do not change
/// what is found: the first candidate in order wins.
pub proof fn lemma_first_match_wins(first: RawBlock, rest: Seq<RawBlock>, txid: Seq<u8>)
    requires
        first.bytes@.len() <= MAX_BLOCK_SIZE,
        block_scan(first.bytes@, txid) == Some(true),
    ensures
        scan_blocks(seq![first] + rest, txid) == Scan::Found(first.hash),
{
    assert((seq![first] + rest)[0] == first);
}

} // verus!
