//! The mathematical model of the chain index: what is stored, what it means for the
//! indices to agree with one another, and what committing a block does to them.

use crate::block::BlockHashOrNumber;
use crate::block::BlockRef;
use crate::block::FinalityStatus;
use crate::block::Header;
use crate::block::SealedBlockWithStatus;
use crate::block::StoredBlockBodyIndices;
use crate::block::TxRef;
use crate::felt::Felt;
use crate::state_update::StateUpdates;
use vstd::prelude::*;

verus! {

/// What the index holds of one block.
pub struct BlockRecord {
    pub hash: Felt,
    pub header: Header,
    pub status: FinalityStatus,
    pub body: StoredBlockBodyIndices,
}

/// What the index holds of one transaction: its hash, its payload and the number of
/// the block that contains it. Its transaction number is its position in
/// [`ChainModel::txs`].
pub struct TxRecord<T> {
    pub hash: Felt,
    pub transaction: T,
    pub block: u64,
}

/// The contents of a chain index with transaction payloads `T` and receipts `R`.
#[verifier::ext_equal]
pub struct ChainModel<T, R> {
    /// The committed blocks, by number.
    pub blocks: Map<u64, BlockRecord>,
    /// The block number that each block hash resolves to.
    pub numbers: Map<Felt, u64>,
    /// The numbers of the committed blocks, in the order of their commitment.
    pub order: Seq<u64>,
    /// All transactions, in the order of their commitment.
    pub txs: Seq<TxRecord<T>>,
    /// The transaction number that each transaction hash resolves to.
    pub tx_numbers: Map<Felt, u64>,
    /// All receipts; the receipt at position `i` belongs to transaction number `i`.
    pub receipts: Seq<R>,
    /// The state diff of each committed block, by number.
    pub state_updates: Map<u64, StateUpdates>,
}

/// The map `base` after the hashes `hashes` were registered front to back, the one at
/// position `i` under the transaction number `offset + i`. Of two equal hashes the
/// later one keeps the entry.
pub open spec fn index_hashes(base: Map<Felt, u64>, hashes: Seq<Felt>, offset: nat) -> Map<
    Felt,
    u64,
>
    decreases hashes.len(),
{
    if hashes.len() == 0 {
        base
    } else {
        index_hashes(base, hashes.drop_last(), offset).insert(
            hashes.last(),
            (offset + hashes.len() - 1) as u64,
        )
    }
}

/// [`index_hashes`] adds exactly the given hashes, sends each to one of its own
/// positions, and leaves every other entry alone.
pub proof fn lemma_index_hashes(base: Map<Felt, u64>, hashes: Seq<Felt>, offset: nat)
    requires
        offset + hashes.len() <= u64::MAX,
    ensures
        forall|h: Felt| #[trigger]
            index_hashes(base, hashes, offset).contains_key(h) <==> base.contains_key(h)
                || hashes.contains(h),
        forall|h: Felt|
            hashes.contains(h) ==> {
                let n = #[trigger] index_hashes(base, hashes, offset)[h];
                &&& offset <= n < offset + hashes.len()
                &&& hashes[n - offset] == h
            },
        forall|h: Felt|
            !hashes.contains(h) ==> #[trigger] index_hashes(base, hashes, offset)[h] == base[h],
    decreases hashes.len(),
{
    if hashes.len() > 0 {
        let front = hashes.drop_last();
        lemma_index_hashes(base, front, offset);
        let prev = index_hashes(base, front, offset);
        let next = index_hashes(base, hashes, offset);
        assert forall|h: Felt| hashes.contains(h) <==> front.contains(h) || h == hashes.last() by {
            if hashes.contains(h) {
                let i = choose|i: int| 0 <= i < hashes.len() && hashes[i] == h;
                if i < hashes.len() - 1 {
                    assert(front[i] == h);
                }
            }
            if front.contains(h) {
                let i = choose|i: int| 0 <= i < front.len() && front[i] == h;
                assert(hashes[i] == h);
            }
            if h == hashes.last() {
                assert(hashes[hashes.len() - 1] == h);
            }
        }
        assert forall|h: Felt| hashes.contains(h) implies {
            let n = #[trigger] next[h];
            &&& offset <= n < offset + hashes.len()
            &&& hashes[n - offset] == h
        } by {
            if h != hashes.last() {
                assert(front.contains(h));
                assert(next[h] == prev[h]);
                assert(front[prev[h] - offset] == h);
            }
        }
    }
}

/// Whether a transaction lent out by the index is the stored one: same hash, same
/// payload.
pub open spec fn tx_shows<T>(t: TxRef<T>, rec: TxRecord<T>) -> bool {
    t.hash == rec.hash && *t.transaction == rec.transaction
}

/// Whether a lookup result shows the stored transaction, or none where there is none.
pub open spec fn tx_found<T>(r: Option<TxRef<T>>, rec: Option<TxRecord<T>>) -> bool {
    match (r, rec) {
        (Some(t), Some(rec)) => tx_shows(t, rec),
        (None, None) => true,
        _ => false,
    }
}

/// Whether a list of transactions lent out by the index shows the stored ones, one
/// for one and in order.
pub open spec fn txs_show<T>(ts: Seq<TxRef<T>>, recs: Seq<TxRecord<T>>) -> bool {
    &&& ts.len() == recs.len()
    &&& forall|i: int| 0 <= i < ts.len() ==> tx_shows(#[trigger] ts[i], recs[i])
}

impl<T, R> ChainModel<T, R> {
    /// The index that holds nothing.
    pub open spec fn empty() -> Self {
        ChainModel {
            blocks: Map::empty(),
            numbers: Map::empty(),
            order: Seq::empty(),
            txs: Seq::empty(),
            tx_numbers: Map::empty(),
            receipts: Seq::empty(),
            state_updates: Map::empty(),
        }
    }

    /// Whether a block with number `n` was committed.
    pub open spec fn contains_block(self, n: u64) -> bool {
        self.blocks.contains_key(n)
    }

    /// The block number that a selector stands for: a number stands for itself, a hash
    /// for the number it was registered under, if any.
    pub open spec fn resolve(self, id: BlockHashOrNumber) -> Option<u64> {
        match id {
            BlockHashOrNumber::Num(n) => Some(n),
            BlockHashOrNumber::Hash(h) => self.numbers.get(h),
        }
    }

    /// The record of the block that a selector names, if that block was committed.
    pub open spec fn record(self, id: BlockHashOrNumber) -> Option<BlockRecord> {
        match self.resolve(id) {
            Some(n) => self.blocks.get(n),
            None => None,
        }
    }

    /// The number of the block committed last, or 0 if there is none.
    pub open spec fn latest_number(self) -> u64 {
        if self.order.len() == 0 {
            0
        } else {
            self.order.last()
        }
    }

    /// The hash of the block committed last, or zero if there is none.
    pub open spec fn latest_hash(self) -> Felt {
        if self.order.len() == 0 {
            Felt::spec_zero()
        } else {
            self.blocks[self.order.last()].hash
        }
    }

    /// One past the last transaction number any committed block covers.
    pub open spec fn committed_end(self) -> int {
        if self.order.len() == 0 {
            0
        } else {
            self.blocks[self.order.last()].body.end()
        }
    }

    /// The transactions of a body, in order.
    pub open spec fn body_txs(self, body: StoredBlockBodyIndices) -> Seq<TxRecord<T>> {
        self.txs.subrange(body.tx_offset as int, body.end())
    }

    /// The receipts of a body, in order.
    pub open spec fn body_receipts(self, body: StoredBlockBodyIndices) -> Seq<R> {
        self.receipts.subrange(body.tx_offset as int, body.end())
    }

    /// The hashes of the transactions numbered `lo` up to but not including `hi`,
    /// as far as such transactions exist.
    pub open spec fn tx_hashes_between(self, lo: int, hi: int) -> Seq<Felt> {
        let hi = if hi <= self.txs.len() {
            hi
        } else {
            self.txs.len() as int
        };
        if lo < hi {
            Seq::new((hi - lo) as nat, |i: int| self.txs[lo + i].hash)
        } else {
            Seq::empty()
        }
    }

    /// The hash of the block with number `n`, if that block was committed.
    pub open spec fn hash_of(self, n: u64) -> Option<Felt> {
        match self.blocks.get(n) {
            Some(b) => Some(b.hash),
            None => None,
        }
    }

    /// The header of the block that a selector names.
    pub open spec fn header(self, id: BlockHashOrNumber) -> Option<Header> {
        match self.record(id) {
            Some(b) => Some(b.header),
            None => None,
        }
    }

    /// The finality status of the block that a selector names.
    pub open spec fn status(self, id: BlockHashOrNumber) -> Option<FinalityStatus> {
        match self.record(id) {
            Some(b) => Some(b.status),
            None => None,
        }
    }

    /// The body indices of the block that a selector names.
    pub open spec fn body_indices(self, id: BlockHashOrNumber) -> Option<StoredBlockBodyIndices> {
        match self.record(id) {
            Some(b) => Some(b.body),
            None => None,
        }
    }

    /// The state root recorded in the header of the block that a selector names.
    pub open spec fn state_root(self, id: BlockHashOrNumber) -> Option<Felt> {
        match self.record(id) {
            Some(b) => Some(b.header.state_root),
            None => None,
        }
    }

    /// The number of transactions in the block that a selector names.
    pub open spec fn tx_count(self, id: BlockHashOrNumber) -> Option<u64> {
        match self.record(id) {
            Some(b) => Some(b.body.tx_count),
            None => None,
        }
    }

    /// The transactions of the block that a selector names, in order.
    pub open spec fn block_txs(self, id: BlockHashOrNumber) -> Option<Seq<TxRecord<T>>> {
        match self.record(id) {
            Some(b) => Some(self.body_txs(b.body)),
            None => None,
        }
    }

    /// The receipts of the block that a selector names, in order.
    pub open spec fn block_receipts(self, id: BlockHashOrNumber) -> Option<Seq<R>> {
        match self.record(id) {
            Some(b) => Some(self.body_receipts(b.body)),
            None => None,
        }
    }

    /// The state diff of the block that a selector names.
    pub open spec fn state_update(self, id: BlockHashOrNumber) -> Option<StateUpdates> {
        match self.resolve(id) {
            Some(n) => self.state_updates.get(n),
            None => None,
        }
    }

    /// The transaction that a hash names.
    pub open spec fn tx_by_hash(self, hash: Felt) -> Option<TxRecord<T>> {
        if self.tx_numbers.contains_key(hash) {
            Some(self.txs[self.tx_numbers[hash] as int])
        } else {
            None
        }
    }

    /// The transaction at position `idx` of the block that a selector names. There is
    /// none if the block is unknown or has `idx` transactions or fewer.
    pub open spec fn tx_by_block_and_idx(self, id: BlockHashOrNumber, idx: u64) -> Option<
        TxRecord<T>,
    > {
        match self.record(id) {
            Some(b) => if idx < b.body.tx_count {
                Some(self.txs[b.body.tx_offset + idx])
            } else {
                None
            },
            None => None,
        }
    }

    /// The number and the hash of the block that contains the transaction that a hash
    /// names.
    pub open spec fn tx_block(self, hash: Felt) -> Option<(u64, Felt)> {
        match self.tx_by_hash(hash) {
            Some(t) => Some((t.block, self.blocks[t.block].hash)),
            None => None,
        }
    }

    /// The finality status of the block that contains the transaction that a hash
    /// names.
    pub open spec fn tx_status(self, hash: Felt) -> Option<FinalityStatus> {
        match self.tx_by_hash(hash) {
            Some(t) => Some(self.blocks[t.block].status),
            None => None,
        }
    }

    /// The receipt of the transaction that a hash names.
    pub open spec fn receipt_by_hash(self, hash: Felt) -> Option<R> {
        if self.tx_numbers.contains_key(hash) {
            Some(self.receipts[self.tx_numbers[hash] as int])
        } else {
            None
        }
    }

    /// The numbers of the committed blocks from `lo` to `hi`, both included, in
    /// increasing order. Numbers in between that were never committed are left out.
    pub open spec fn committed_between(self, lo: int, hi: int) -> Seq<u64>
        decreases hi - lo + 1,
    {
        if hi < lo {
            Seq::empty()
        } else {
            let front = self.committed_between(lo, hi - 1);
            if 0 <= hi <= u64::MAX && self.blocks.contains_key(hi as u64) {
                front.push(hi as u64)
            } else {
                front
            }
        }
    }

    /// Whether a block handed out by the index is the stored block `rec`: same
    /// header, and the transactions of its body in order.
    pub open spec fn block_shows(self, b: BlockRef<T>, rec: BlockRecord) -> bool {
        b.header == rec.header && txs_show(b.body@, self.body_txs(rec.body))
    }

    /// Block hashes and block numbers resolve to each other: every registered hash
    /// leads to a committed block that carries it, the hash of every committed block
    /// is registered, and every block is stored under the number in its header.
    pub open spec fn hashes_agree(self) -> bool {
        &&& forall|h: Felt| #[trigger]
            self.numbers.contains_key(h) ==> self.blocks.contains_key(self.numbers[h])
                && self.blocks[self.numbers[h]].hash == h
        &&& forall|n: u64| #[trigger]
            self.blocks.contains_key(n) ==> self.numbers.contains_key(self.blocks[n].hash)
                && self.blocks[n].header.number == n
    }

    /// Whether the hash of the block committed at position `i` resolves to the block
    /// committed at position `j`, which is `i` or a later one.
    pub open spec fn resolves_to(self, i: int, j: int) -> bool {
        &&& i <= j < self.order.len()
        &&& self.order[j] == self.numbers[self.blocks[self.order[i]].hash]
    }

    /// A block hash resolves to the block committed last under it: the hash of every
    /// committed block leads to that block or to one committed after it.
    pub open spec fn latest_hash_wins(self) -> bool {
        forall|i: int| 0 <= i < self.order.len() ==> #[trigger] self.resolves_later(i)
    }

    /// Whether the hash of the block committed at position `i` resolves to that block
    /// or to one committed after it.
    pub open spec fn resolves_later(self, i: int) -> bool {
        exists|j: int| self.resolves_to(i, j)
    }

    /// Bodies and transactions agree: every body lies inside the transaction array,
    /// every transaction lies in the body of the block it names, and every position
    /// of a body holds a transaction that names that block.
    pub open spec fn bodies_agree(self) -> bool {
        &&& forall|n: u64| #[trigger]
            self.blocks.contains_key(n) ==> self.blocks[n].body.end() <= self.txs.len()
        &&& forall|i: int|
            0 <= i < self.txs.len() ==> self.blocks.contains_key((#[trigger] self.txs[i]).block)
                && self.blocks[self.txs[i].block].body.covers(i)
        &&& forall|n: u64, i: int|
            self.blocks.contains_key(n) && #[trigger] self.blocks[n].body.covers(i)
                ==> self.txs[i].block == n
    }

    /// Transaction hashes and transaction numbers resolve to each other.
    pub open spec fn tx_hashes_agree(self) -> bool {
        &&& forall|h: Felt| #[trigger]
            self.tx_numbers.contains_key(h) ==> self.tx_numbers[h] < self.txs.len()
                && self.txs[self.tx_numbers[h] as int].hash == h
        &&& forall|i: int|
            0 <= i < self.txs.len() ==> self.tx_numbers.contains_key((#[trigger] self.txs[i]).hash)
    }

    /// The order of commitment lists every committed block once, and the bodies
    /// follow one another in that order without gap or overlap, from transaction
    /// number 0 to the end of the transaction array.
    pub open spec fn order_agrees(self) -> bool {
        &&& self.order.no_duplicates()
        &&& forall|n: u64| self.blocks.contains_key(n) <==> #[trigger] self.order.contains(n)
        &&& self.order.len() > 0 ==> self.blocks[self.order[0]].body.tx_offset == 0
        &&& forall|i: int|
            0 <= i < self.order.len() - 1 ==> (#[trigger] self.blocks[self.order[i
                + 1]]).body.tx_offset == self.blocks[self.order[i]].body.end()
        &&& self.committed_end() == self.txs.len()
    }

    /// The invariant of the index: all its tables agree with one another.
    pub open spec fn wf(self) -> bool {
        &&& self.hashes_agree()
        &&& self.latest_hash_wins()
        &&& self.bodies_agree()
        &&& self.tx_hashes_agree()
        &&& self.order_agrees()
        &&& self.receipts.len() == self.txs.len()
        &&& self.state_updates.dom() =~= self.blocks.dom()
        &&& self.txs.len() <= u64::MAX
    }

    /// The records of the transactions of `block`, as they are appended on commitment.
    pub open spec fn new_txs(block: SealedBlockWithStatus<T>) -> Seq<TxRecord<T>> {
        Seq::new(
            block.block.body@.len(),
            |i: int|
                TxRecord {
                    hash: block.block.body@[i].hash,
                    transaction: block.block.body@[i].transaction,
                    block: block.number(),
                },
        )
    }

    /// The body of `block` when it is committed to this index: its transactions are
    /// appended after all that are there.
    pub open spec fn next_body(self, block: SealedBlockWithStatus<T>) -> StoredBlockBodyIndices {
        StoredBlockBodyIndices {
            tx_offset: self.txs.len() as u64,
            tx_count: block.block.body@.len() as u64,
        }
    }

    /// The index after `block` was committed with its state diff and receipts.
    pub open spec fn insert_block(
        self,
        block: SealedBlockWithStatus<T>,
        updates: StateUpdates,
        receipts: Seq<R>,
    ) -> Self {
        let n = block.number();
        ChainModel {
            blocks: self.blocks.insert(
                n,
                BlockRecord {
                    hash: block.hash(),
                    header: block.block.header.header,
                    status: block.status,
                    body: self.next_body(block),
                },
            ),
            numbers: self.numbers.insert(block.hash(), n),
            order: self.order.push(n),
            txs: self.txs + Self::new_txs(block),
            tx_numbers: index_hashes(self.tx_numbers, block.tx_hashes(), self.txs.len()),
            receipts: self.receipts + receipts,
            state_updates: self.state_updates.insert(n, updates),
        }
    }

    /// Committing a block whose number is new, with one receipt for each of its
    /// transactions, keeps the index well formed.
    pub proof fn lemma_insert_block_wf(
        self,
        block: SealedBlockWithStatus<T>,
        updates: StateUpdates,
        receipts: Seq<R>,
    )
        requires
            self.wf(),
            !self.contains_block(block.number()),
            receipts.len() == block.block.body@.len(),
            self.txs.len() + block.block.body@.len() <= u64::MAX,
        ensures
            self.insert_block(block, updates, receipts).wf(),
    {
        let next = self.insert_block(block, updates, receipts);
        let n = block.number();
        let hashes = block.tx_hashes();
        let added = Self::new_txs(block);
        let offset = self.txs.len();
        lemma_index_hashes(self.tx_numbers, hashes, offset);
        assert(next.hashes_agree()) by {
            assert forall|h: Felt| #[trigger] next.numbers.contains_key(h) implies next.blocks.contains_key(
                next.numbers[h],
            ) && next.blocks[next.numbers[h]].hash == h by {
                if h != block.hash() {
                    assert(self.numbers.contains_key(h));
                }
            }
            assert forall|m: u64| #[trigger] next.blocks.contains_key(m) implies next.numbers.contains_key(
                next.blocks[m].hash,
            ) && next.blocks[m].header.number == m by {
                if m != n {
                    assert(self.blocks.contains_key(m));
                }
            }
        }
        assert(next.bodies_agree()) by {
            assert forall|m: u64| #[trigger] next.blocks.contains_key(m) implies next.blocks[m].body.end()
                <= next.txs.len() by {
                if m != n {
                    assert(self.blocks.contains_key(m));
                }
            }
            assert forall|i: int| 0 <= i < next.txs.len() implies next.blocks.contains_key(
                (#[trigger] next.txs[i]).block,
            ) && next.blocks[next.txs[i].block].body.covers(i) by {
                if i < offset {
                    assert(next.txs[i] == self.txs[i]);
                    assert(self.blocks.contains_key(self.txs[i].block));
                } else {
                    assert(next.txs[i] == added[i - offset]);
                }
            }
            assert forall|m: u64, i: int|
                next.blocks.contains_key(m) && #[trigger] next.blocks[m].body.covers(
                    i,
                ) implies next.txs[i].block == m by {
                if m != n {
                    assert(self.blocks.contains_key(m));
                    assert(self.blocks[m].body.covers(i));
                    assert(next.txs[i] == self.txs[i]);
                } else {
                    assert(next.txs[i] == added[i - offset]);
                }
            }
        }
        assert(next.tx_hashes_agree()) by {
            assert forall|h: Felt| #[trigger] next.tx_numbers.contains_key(h) implies next.tx_numbers[h]
                < next.txs.len() && next.txs[next.tx_numbers[h] as int].hash == h by {
                if hashes.contains(h) {
                    let k = next.tx_numbers[h];
                    assert(next.txs[k as int] == added[k - offset]);
                } else {
                    assert(self.tx_numbers.contains_key(h));
                    assert(next.txs[self.tx_numbers[h] as int] == self.txs[self.tx_numbers[h] as int]);
                }
            }
            assert forall|i: int| 0 <= i < next.txs.len() implies next.tx_numbers.contains_key(
                (#[trigger] next.txs[i]).hash,
            ) by {
                if i < offset {
                    assert(next.txs[i] == self.txs[i]);
                    assert(self.tx_numbers.contains_key(self.txs[i].hash));
                } else {
                    assert(next.txs[i] == added[i - offset]);
                    assert(hashes[i - offset] == next.txs[i].hash);
                }
            }
        }
        assert(next.latest_hash_wins()) by {
            assert forall|i: int| 0 <= i < next.order.len() implies #[trigger] next.resolves_later(
                i,
            ) by {
                let last = self.order.len() as int;
                if i < last {
                    assert(self.order.contains(self.order[i]));
                    if self.blocks[self.order[i]].hash == block.hash() {
                        assert(next.resolves_to(i, last));
                    } else {
                        assert(self.resolves_later(i));
                        let j = choose|j: int| self.resolves_to(i, j);
                        assert(next.resolves_to(i, j));
                    }
                } else {
                    assert(next.resolves_to(i, last));
                }
            }
        }
        assert(next.order_agrees()) by {
            assert(!self.order.contains(n));
            assert forall|m: u64| next.blocks.contains_key(m) <==> #[trigger] next.order.contains(
                m,
            ) by {
                if self.order.contains(m) {
                    let i = choose|i: int| 0 <= i < self.order.len() && self.order[i] == m;
                    assert(next.order[i] == m);
                }
                if m == n {
                    assert(next.order[self.order.len() as int] == n);
                }
                if next.order.contains(m) && m != n {
                    let i = choose|i: int| 0 <= i < next.order.len() && next.order[i] == m;
                    assert(self.order[i] == m);
                }
            }
            assert forall|i: int| 0 <= i < next.order.len() - 1 implies (#[trigger] next.blocks[next.order[i
                + 1]]).body.tx_offset == next.blocks[next.order[i]].body.end() by {
                assert(self.order.contains(self.order[i]));
                if i + 1 < self.order.len() {
                    assert(self.order.contains(self.order[i + 1]));
                    assert(self.blocks[self.order[i + 1]].body.tx_offset
                        == self.blocks[self.order[i]].body.end());
                }
            }
            if self.order.len() > 0 {
                assert(self.order.contains(self.order[0]));
            }
        }
    }
}

} // verus!
