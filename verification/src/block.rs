//! Blocks, headers, and the selectors that name them.

use crate::felt::Felt;
use vstd::prelude::*;

verus! {

/// The height of a block.
pub type BlockNumber = u64;

/// The hash that names a block.
pub type BlockHash = Felt;

/// The position of a transaction in the chain-wide order of commitment.
pub type TxNumber = u64;

/// The hash that names a transaction.
pub type TxHash = Felt;

/// How far a block has been confirmed.
#[derive(Clone, Copy, Debug, PartialEq, Eq, Structural)]
pub enum FinalityStatus {
    AcceptedOnL2,
    AcceptedOnL1,
}

/// The header of a block. It is never changed once stored.
#[derive(Clone, Copy, Debug, PartialEq, Eq, Structural)]
pub struct Header {
    pub parent_hash: BlockHash,
    pub number: BlockNumber,
    pub gas_price: u128,
    pub timestamp: u64,
    pub state_root: Felt,
    pub sequencer_address: Felt,
    pub version: u8,
}

/// A header together with the hash of its block.
#[derive(Clone, Copy, Debug, PartialEq, Eq, Structural)]
pub struct SealedHeader {
    pub hash: BlockHash,
    pub header: Header,
}

/// Where the transactions and receipts of one block lie in the chain-wide arrays:
/// `tx_count` entries starting at `tx_offset`.
#[derive(Clone, Copy, Debug, PartialEq, Eq, Structural)]
pub struct StoredBlockBodyIndices {
    pub tx_offset: TxNumber,
    pub tx_count: u64,
}

impl StoredBlockBodyIndices {
    /// Whether transaction number `i` lies in this body.
    pub open spec fn covers(self, i: int) -> bool {
        self.tx_offset <= i < self.tx_offset + self.tx_count
    }

    /// The transaction number one past the last of this body.
    pub open spec fn end(self) -> int {
        self.tx_offset + self.tx_count
    }
}

/// Names a block by its hash or by its number.
#[derive(Clone, Copy, Debug, PartialEq, Eq, Structural)]
pub enum BlockHashOrNumber {
    Hash(BlockHash),
    Num(BlockNumber),
}

/// A transaction payload with the hash that names it.
#[derive(Debug)]
pub struct TxWithHash<T> {
    pub hash: TxHash,
    pub transaction: T,
}

/// A stored transaction, lent out by the store together with its hash.
#[derive(Debug)]
pub struct TxRef<'a, T> {
    pub hash: TxHash,
    pub transaction: &'a T,
}

/// A block as it is handed in for commitment: sealed header and transactions.
#[derive(Debug)]
pub struct SealedBlock<T> {
    pub header: SealedHeader,
    pub body: Vec<TxWithHash<T>>,
}

/// A sealed block with its finality status.
#[derive(Debug)]
pub struct SealedBlockWithStatus<T> {
    pub block: SealedBlock<T>,
    pub status: FinalityStatus,
}

impl<T> SealedBlockWithStatus<T> {
    /// The number of the block.
    pub open spec fn number(self) -> BlockNumber {
        self.block.header.header.number
    }

    /// The hash of the block.
    pub open spec fn hash(self) -> BlockHash {
        self.block.header.hash
    }

    /// The hashes of the block's transactions, in order.
    pub open spec fn tx_hashes(self) -> Seq<TxHash> {
        Seq::new(self.block.body@.len(), |i: int| self.block.body@[i].hash)
    }
}

/// A stored block, lent out by the store: its header and its transactions, in order.
#[derive(Debug)]
pub struct BlockRef<'a, T> {
    pub header: Header,
    pub body: Vec<TxRef<'a, T>>,
}

/// A block: its header and its transactions, in order.
#[derive(Debug)]
pub struct Block<T> {
    pub header: Header,
    pub body: Vec<TxWithHash<T>>,
}

/// A stored block with the hashes of its transactions in place of the transactions.
#[derive(Debug)]
pub struct BlockWithTxHashes {
    pub header: Header,
    pub body: Vec<TxHash>,
}

} // verus!
