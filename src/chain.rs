use vstd::prelude::*;

use crate::ids::BlockHash;

verus! {

/// The chain a server follows.
#[derive(Clone, Copy, PartialEq, Eq, Structural)]
pub enum Network {
    Bitcoin,
    Testnet,
    Testnet4,
    Signet,
    Regtest,
}

/// The hash of the genesis block of `network`.
pub uninterp spec fn genesis_hash_of(network: Network) -> Seq<u8>;

/// Relies on bitcoin's `constants::genesis_block` and `Block::block_hash`:
/// the hash of the network's hard-coded genesis block.
#[verifier::external_body]
fn genesis_hash(network: Network) -> (r: BlockHash)
    ensures
        r@ == genesis_hash_of(network),
{
    let net = match network {
        Network::Bitcoin => bitcoin::Network::Bitcoin,
        Network::Testnet => bitcoin::Network::Testnet,
        Network::Testnet4 => bitcoin::Network::Testnet4,
        Network::Signet => bitcoin::Network::Signet,
        Network::Regtest => bitcoin::Network::Regtest,
    };
    let hash = bitcoin::blockdata::constants::genesis_block(net).block_hash();
    <bitcoin::BlockHash as bitcoin::hashes::Hash>::to_byte_array(hash)
}

/// The best known sequence of block headers, by height.
pub struct Chain {
    hashes: Vec<BlockHash>,
}

impl Chain {
    /// The block hashes, the one at position `h` being the block at height `h`.
    pub closed spec fn view(&self) -> Seq<BlockHash> {
        self.hashes@
    }

    /// The chain of `network` that holds its genesis block alone.
    pub fn new(network: Network) -> (r: Chain)
        ensures
            r@.len() == 1,
            r@[0]@ == genesis_hash_of(network),
    {
        let mut hashes: Vec<BlockHash> = Vec::new();
        hashes.push(genesis_hash(network));
        Chain { hashes }
    }

    /// Number of blocks known.
    pub fn len(&self) -> (r: usize)
        ensures
            r == self@.len(),
    {
        self.hashes.len()
    }

    /// The hash of the block at `height`, if the chain reaches it.
    pub fn get_block_hash(&self, height: usize) -> (r: Option<BlockHash>)
        ensures
            height < self@.len() ==> r == Some(self@[height as int]),
            height >= self@.len() ==> r is None,
    {
        if height < self.hashes.len() {
            Some(self.hashes[height])
        } else {
            None
        }
    }

    /// Extends the chain by one block on top of its tip.
    pub fn push(&mut self, hash: BlockHash)
        ensures
            final(self)@ == old(self)@.push(hash),
    {
        self.hashes.push(hash);
    }
}

} // verus!
