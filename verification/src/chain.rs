//! The chain index: committed blocks, their transactions and receipts, and the maps
//! that find each of them by number, by hash and by position in a block.

use crate::block::BlockHashOrNumber;
use crate::block::BlockRef;
use crate::block::BlockWithTxHashes;
use crate::block::FinalityStatus;
use crate::block::Header;
use crate::block::SealedBlock;
use crate::block::SealedBlockWithStatus;
use crate::block::SealedHeader;
use crate::block::StoredBlockBodyIndices;
use crate::block::TxRef;
use crate::block::TxWithHash;
use crate::chain_model::index_hashes;
use crate::chain_model::tx_found;
use crate::chain_model::tx_shows;
use crate::chain_model::txs_show;
use crate::chain_model::BlockRecord;
use crate::chain_model::ChainModel;
use crate::chain_model::TxRecord;
use crate::felt::Felt;
use crate::felt_map::FeltMap;
use crate::state_update::StateUpdates;
use std::collections::HashMap;
use std::ops::Range;
use vstd::slice::slice_subrange;
use vstd::prelude::*;

verus! {

broadcast use vstd::std_specs::hash::group_hash_axioms;

/// Why a block was not committed.
#[derive(Clone, Copy, Debug, PartialEq, Eq, Structural)]
pub enum CommitError {
    /// A block with the same number is already stored. Nothing is overwritten.
    DuplicateBlock,
    /// The number of receipts differs from the number of transactions in the block.
    ReceiptCountMismatch,
}

/// The map `base` with `items` stored under the keys `offset`, `offset + 1`, and so on.
pub open spec fn appended<V>(base: Map<u64, V>, offset: nat, items: Seq<V>) -> Map<u64, V> {
    Map::new(
        |j: u64| base.contains_key(j) || offset <= j < offset + items.len(),
        |j: u64|
            if offset <= j < offset + items.len() {
                items[j - offset]
            } else {
                base[j]
            },
    )
}

/// The index of committed blocks, transactions and receipts.
///
/// Transactions and receipts of all blocks lie in two flat arrays, in the order of
/// commitment; every block records which slice of them is its own.
pub struct ChainIndex<T, R> {
    block_hashes: HashMap<u64, Felt>,
    block_numbers: FeltMap<u64>,
    block_headers: HashMap<u64, Header>,
    block_statusses: HashMap<u64, FinalityStatus>,
    block_body_indices: HashMap<u64, StoredBlockBodyIndices>,
    transactions: Vec<T>,
    transaction_hashes: HashMap<u64, Felt>,
    transaction_numbers: FeltMap<u64>,
    transaction_block: HashMap<u64, u64>,
    receipts: Vec<R>,
    state_update: HashMap<u64, StateUpdates>,
    latest_block_hash: Felt,
    latest_block_number: u64,
    order: Ghost<Seq<u64>>,
}

impl<T, R> View for ChainIndex<T, R> {
    type V = ChainModel<T, R>;

    closed spec fn view(&self) -> ChainModel<T, R> {
        ChainModel {
            blocks: Map::new(
                |n: u64| self.block_hashes@.contains_key(n),
                |n: u64|
                    BlockRecord {
                        hash: self.block_hashes@[n],
                        header: self.block_headers@[n],
                        status: self.block_statusses@[n],
                        body: self.block_body_indices@[n],
                    },
            ),
            numbers: self.block_numbers@,
            order: self.order@,
            txs: Seq::new(
                self.transactions@.len(),
                |i: int|
                    TxRecord {
                        hash: self.transaction_hashes@[i as u64],
                        transaction: self.transactions@[i],
                        block: self.transaction_block@[i as u64],
                    },
            ),
            tx_numbers: self.transaction_numbers@,
            receipts: self.receipts@,
            state_updates: self.state_update@,
        }
    }
}

/// Appends the transactions of one block to the flat array and registers each of them
/// in the three transaction maps.
fn append_body<T>(
    transactions: &mut Vec<T>,
    transaction_hashes: &mut HashMap<u64, Felt>,
    transaction_numbers: &mut FeltMap<u64>,
    transaction_block: &mut HashMap<u64, u64>,
    body: Vec<TxWithHash<T>>,
    number: u64,
)
    ensures
        final(transactions)@ == old(transactions)@ + Seq::new(
            body@.len(),
            |i: int| body@[i].transaction,
        ),
        final(transaction_hashes)@ == appended(
            old(transaction_hashes)@,
            old(transactions)@.len(),
            Seq::new(body@.len(), |i: int| body@[i].hash),
        ),
        final(transaction_block)@ == appended(
            old(transaction_block)@,
            old(transactions)@.len(),
            Seq::new(body@.len(), |i: int| number),
        ),
        final(transaction_numbers)@ == index_hashes(
            old(transaction_numbers)@,
            Seq::new(body@.len(), |i: int| body@[i].hash),
            old(transactions)@.len(),
        ),
{
    let ghost payloads = Seq::new(body@.len(), |i: int| body@[i].transaction);
    let ghost hashes = Seq::new(body@.len(), |i: int| body@[i].hash);
    let ghost blocks = Seq::new(body@.len(), |i: int| number);
    let ghost offset = transactions@.len();
    let ghost old_transactions = transactions@;
    let ghost old_hashes = transaction_hashes@;
    let ghost old_numbers = transaction_numbers@;
    let ghost old_block = transaction_block@;
    assert(hashes.take(0) =~= Seq::<Felt>::empty());
    for tx in it: body
        invariant
            it.seq() == body@,
            offset == old_transactions.len(),
            payloads == Seq::new(body@.len(), |i: int| body@[i].transaction),
            hashes == Seq::new(body@.len(), |i: int| body@[i].hash),
            blocks == Seq::new(body@.len(), |i: int| number),
            transactions@ == old_transactions + payloads.take(it.index() as int),
            transaction_hashes@ == appended(old_hashes, offset, hashes.take(it.index() as int)),
            transaction_block@ == appended(old_block, offset, blocks.take(it.index() as int)),
            transaction_numbers@ == index_hashes(old_numbers, hashes.take(it.index() as int), offset),
    {
        let ghost k = it.index() as int;
        let num = transactions.len() as u64;
        transaction_hashes.insert(num, tx.hash);
        transaction_numbers.insert(tx.hash, num);
        transaction_block.insert(num, number);
        transactions.push(tx.transaction);
        proof {
            assert(hashes.take(k + 1).drop_last() =~= hashes.take(k));
            assert(hashes.take(k + 1).last() == tx.hash);
            assert(transactions@ =~= old_transactions + payloads.take(k + 1));
            assert(transaction_hashes@ =~= appended(old_hashes, offset, hashes.take(k + 1)));
            assert(transaction_block@ =~= appended(old_block, offset, blocks.take(k + 1)));
        }
    }
    proof {
        assert(payloads.take(body@.len() as int) =~= payloads);
        assert(hashes.take(body@.len() as int) =~= hashes);
        assert(blocks.take(body@.len() as int) =~= blocks);
    }
}

impl<T, R> ChainIndex<T, R> {
    /// Agreement of the stored tables beyond what the model shows: the per-block
    /// tables have the same keys, every transaction number has a hash and a block,
    /// and the two `latest` fields name the block committed last.
    pub closed spec fn tables_agree(&self) -> bool {
        &&& self.block_headers@.dom() =~= self.block_hashes@.dom()
        &&& self.block_statusses@.dom() =~= self.block_hashes@.dom()
        &&& self.block_body_indices@.dom() =~= self.block_hashes@.dom()
        &&& forall|j: u64|
            j < self.transactions@.len() ==> #[trigger] self.transaction_hashes@.contains_key(j)
        &&& forall|j: u64|
            j < self.transactions@.len() ==> #[trigger] self.transaction_block@.contains_key(j)
        &&& self.latest_block_number == self@.latest_number()
        &&& self.latest_block_hash == self@.latest_hash()
    }

    /// The invariant of the index: its tables agree with one another.
    pub open spec fn wf(&self) -> bool {
        &&& self.tables_agree()
        &&& self@.wf()
    }

    /// An index that holds nothing.
    pub fn new() -> (r: Self)
        ensures
            r.wf(),
            r@ == ChainModel::<T, R>::empty(),
    {
        let r = ChainIndex {
            block_hashes: HashMap::new(),
            block_numbers: FeltMap::new(),
            block_headers: HashMap::new(),
            block_statusses: HashMap::new(),
            block_body_indices: HashMap::new(),
            transactions: Vec::new(),
            transaction_hashes: HashMap::new(),
            transaction_numbers: FeltMap::new(),
            transaction_block: HashMap::new(),
            receipts: Vec::new(),
            state_update: HashMap::new(),
            latest_block_hash: Felt::zero(),
            latest_block_number: 0,
            order: Ghost(Seq::empty()),
        };
        assert(r@ =~= ChainModel::<T, R>::empty());
        r
    }

    /// Commits a block: appends its transactions and receipts to the flat arrays,
    /// registers the block and each transaction under number and hash, and keeps
    /// the block's state diff.
    ///
    /// A block whose number is already stored is refused, and so is one that does not
    /// come with exactly one receipt per transaction. A refused block changes nothing.
    pub fn insert_block(
        &mut self,
        block: SealedBlockWithStatus<T>,
        updates: StateUpdates,
        receipts: Vec<R>,
    ) -> (r: Result<(), CommitError>)
        requires
            old(self).wf(),
        ensures
            final(self).wf(),
            r == (if old(self)@.contains_block(block.number()) {
                Err(CommitError::DuplicateBlock)
            } else if receipts@.len() != block.block.body@.len() {
                Err(CommitError::ReceiptCountMismatch)
            } else {
                Ok(())
            }),
            r is Ok ==> final(self)@ == old(self)@.insert_block(block, updates, receipts@),
            r is Err ==> *final(self) == *old(self),
    {
        let number = block.block.header.header.number;
        if self.block_hashes.contains_key(&number) {
            return Err(CommitError::DuplicateBlock);
        }
        if receipts.len() != block.block.body.len() {
            return Err(CommitError::ReceiptCountMismatch);
        }
        let ghost before = self@;
        let ghost after = before.insert_block(block, updates, receipts@);
        let ghost count = block.block.body@.len();
        let ghost given = receipts@;
        let SealedBlockWithStatus { block: sealed, status } = block;
        let SealedBlock { header: SealedHeader { hash, header }, body } = sealed;
        let mut receipts = receipts;

        let tx_offset = self.transactions.len() as u64;
        let tx_count = body.len() as u64;
        let block_body_indices = StoredBlockBodyIndices { tx_offset, tx_count };

        self.latest_block_hash = hash;
        self.latest_block_number = number;

        self.block_numbers.insert(hash, number);
        self.block_hashes.insert(number, hash);
        self.block_headers.insert(number, header);
        self.block_statusses.insert(number, status);
        self.block_body_indices.insert(number, block_body_indices);

        append_body(
            &mut self.transactions,
            &mut self.transaction_hashes,
            &mut self.transaction_numbers,
            &mut self.transaction_block,
            body,
            number,
        );
        self.receipts.append(&mut receipts);
        self.state_update.insert(number, updates);
        proof {
            self.order@ = self.order@.push(number);
            assert(before.txs.len() + count == self.transactions@.len());
            assert(self.transactions@.len() == self.transactions.len());
            assert(self@.blocks =~= after.blocks);
            assert(self@.txs =~= after.txs);
            assert(self@ =~= after);
            before.lemma_insert_block_wf(block, updates, given);
        }
        Ok(())
    }
}

impl<T, R> ChainIndex<T, R> {
    /// The hash of the block committed last, or zero if there is none.
    pub fn latest_hash(&self) -> (r: Felt)
        requires
            self.wf(),
        ensures
            r == self@.latest_hash(),
    {
        self.latest_block_hash
    }

    /// The number of the block committed last, or 0 if there is none.
    pub fn latest_number(&self) -> (r: u64)
        requires
            self.wf(),
        ensures
            r == self@.latest_number(),
    {
        self.latest_block_number
    }

    /// The hash of the block with number `num`.
    pub fn block_hash_by_num(&self, num: u64) -> (r: Option<Felt>)
        requires
            self.wf(),
        ensures
            r == self@.hash_of(num),
    {
        match self.block_hashes.get(&num) {
            Some(hash) => Some(*hash),
            None => None,
        }
    }

    /// The number that the block hash `hash` resolves to.
    pub fn block_number_by_hash(&self, hash: Felt) -> (r: Option<u64>)
        requires
            self.wf(),
        ensures
            r == self@.numbers.get(hash),
    {
        match self.block_numbers.get(hash) {
            Some(num) => Some(*num),
            None => None,
        }
    }

    /// The block number that a selector stands for. A number is handed back as it
    /// is, whether or not such a block was committed.
    pub fn block_number_by_id(&self, id: BlockHashOrNumber) -> (r: Option<u64>)
        requires
            self.wf(),
        ensures
            r == self@.resolve(id),
    {
        match id {
            BlockHashOrNumber::Num(num) => Some(num),
            BlockHashOrNumber::Hash(hash) => self.block_number_by_hash(hash),
        }
    }

    /// The header of the block that `id` names.
    pub fn header(&self, id: BlockHashOrNumber) -> (r: Option<Header>)
        requires
            self.wf(),
        ensures
            r == self@.header(id),
    {
        match self.block_number_by_id(id) {
            Some(num) => match self.block_headers.get(&num) {
                Some(header) => Some(*header),
                None => None,
            },
            None => None,
        }
    }

    /// The finality status of the block that `id` names.
    pub fn block_status(&self, id: BlockHashOrNumber) -> (r: Option<FinalityStatus>)
        requires
            self.wf(),
        ensures
            r == self@.status(id),
    {
        match self.block_number_by_id(id) {
            Some(num) => match self.block_statusses.get(&num) {
                Some(status) => Some(*status),
                None => None,
            },
            None => None,
        }
    }

    /// Where the transactions and receipts of the block that `id` names lie in the
    /// flat arrays.
    pub fn block_body_indices(&self, id: BlockHashOrNumber) -> (r: Option<StoredBlockBodyIndices>)
        requires
            self.wf(),
        ensures
            r == self@.body_indices(id),
            r matches Some(b) ==> b.end() <= self@.txs.len(),
    {
        match self.block_number_by_id(id) {
            Some(num) => match self.block_body_indices.get(&num) {
                Some(indices) => {
                    assert(self@.blocks.contains_key(num));
                    Some(*indices)
                },
                None => None,
            },
            None => None,
        }
    }

    /// The state root recorded in the header of the block that `id` names. It is
    /// the stored value; nothing is recomputed.
    pub fn state_root(&self, id: BlockHashOrNumber) -> (r: Option<Felt>)
        requires
            self.wf(),
        ensures
            r == self@.state_root(id),
    {
        match self.header(id) {
            Some(header) => Some(header.state_root),
            None => None,
        }
    }

    /// The number of transactions in the block that `id` names.
    pub fn transaction_count_by_block(&self, id: BlockHashOrNumber) -> (r: Option<u64>)
        requires
            self.wf(),
        ensures
            r == self@.tx_count(id),
    {
        match self.block_body_indices(id) {
            Some(indices) => Some(indices.tx_count),
            None => None,
        }
    }

    /// The state diff that the block that `id` names was committed with.
    pub fn state_update(&self, id: BlockHashOrNumber) -> (r: Option<&StateUpdates>)
        requires
            self.wf(),
        ensures
            r == (match self@.state_update(id) {
                Some(u) => Some(&u),
                None => None,
            }),
    {
        match self.block_number_by_id(id) {
            Some(num) => self.state_update.get(&num),
            None => None,
        }
    }

    /// The flat arrays are as long as the model says, which fits the machine word.
    proof fn lemma_lengths(&self)
        requires
            self.wf(),
        ensures
            self@.txs.len() == self.transactions@.len(),
            self@.receipts == self.receipts@,
            self@.txs.len() <= usize::MAX,
    {
        assert(self.transactions@.len() == self.transactions.len());
    }

    /// The stored transaction with number `num`.
    fn transaction_at(&self, num: u64) -> (r: TxRef<'_, T>)
        requires
            self.wf(),
            num < self@.txs.len(),
        ensures
            tx_shows(r, self@.txs[num as int]),
    {
        proof {
            self.lemma_lengths();
        }
        let hash = *self.transaction_hashes.get(&num).unwrap();
        TxRef { hash, transaction: &self.transactions[num as usize] }
    }

    /// The transaction that `hash` names.
    pub fn transaction_by_hash(&self, hash: Felt) -> (r: Option<TxRef<'_, T>>)
        requires
            self.wf(),
        ensures
            tx_found(r, self@.tx_by_hash(hash)),
    {
        match self.transaction_numbers.get(hash) {
            Some(num) => Some(self.transaction_at(*num)),
            None => None,
        }
    }

    /// The transactions of the block that `id` names, in order. A known block
    /// without transactions gives an empty list, an unknown block gives `None`.
    pub fn transactions_by_block(&self, id: BlockHashOrNumber) -> (r: Option<Vec<TxRef<'_, T>>>)
        requires
            self.wf(),
        ensures
            match (r, self@.block_txs(id)) {
                (Some(ts), Some(recs)) => txs_show(ts@, recs),
                (None, None) => true,
                _ => false,
            },
    {
        let indices = match self.block_body_indices(id) {
            Some(indices) => indices,
            None => { return None; },
        };
        let offset = indices.tx_offset;
        let count = indices.tx_count;
        let ghost recs = self@.body_txs(indices);
        let mut txs: Vec<TxRef<'_, T>> = Vec::new();
        let mut i: u64 = 0;
        while i < count
            invariant
                self.wf(),
                i <= count,
                offset + count <= self@.txs.len(),
                recs == self@.txs.subrange(offset as int, offset + count),
                txs@.len() == i,
                forall|k: int| 0 <= k < i ==> tx_shows(#[trigger] txs@[k], recs[k]),
            decreases count - i,
        {
            let tx = self.transaction_at(offset + i);
            txs.push(tx);
            i = i + 1;
        }
        Some(txs)
    }

    /// The transaction at position `idx` of the block that `id` names. There is
    /// none if the block is unknown or `idx` is not below its transaction count.
    pub fn transaction_by_block_and_idx(&self, id: BlockHashOrNumber, idx: u64) -> (r: Option<
        TxRef<'_, T>,
    >)
        requires
            self.wf(),
        ensures
            tx_found(r, self@.tx_by_block_and_idx(id, idx)),
    {
        let indices = match self.block_body_indices(id) {
            Some(indices) => indices,
            None => { return None; },
        };
        if idx >= indices.tx_count {
            return None;
        }
        Some(self.transaction_at(indices.tx_offset + idx))
    }

    /// The number and the hash of the block that contains the transaction that
    /// `hash` names.
    pub fn transaction_block_num_and_hash(&self, hash: Felt) -> (r: Option<(u64, Felt)>)
        requires
            self.wf(),
        ensures
            r == self@.tx_block(hash),
    {
        let number = match self.transaction_numbers.get(hash) {
            Some(number) => *number,
            None => { return None; },
        };
        proof {
            let t = self@.txs[number as int];
            assert(self@.blocks.contains_key(t.block));
        }
        let block_num = *self.transaction_block.get(&number).unwrap();
        let block_hash = *self.block_hashes.get(&block_num).unwrap();
        Some((block_num, block_hash))
    }

    /// The hashes of the transactions whose numbers lie in `range`, in order.
    /// Numbers in the range that no transaction has yet are passed over.
    pub fn transaction_hashes_in_range(&self, range: Range<u64>) -> (r: Vec<Felt>)
        requires
            self.wf(),
        ensures
            r@ == self@.tx_hashes_between(range.start as int, range.end as int),
    {
        let total = self.transactions.len() as u64;
        let end = if range.end <= total {
            range.end
        } else {
            total
        };
        let mut hashes: Vec<Felt> = Vec::new();
        let ghost want = self@.tx_hashes_between(range.start as int, range.end as int);
        if range.start >= end {
            assert(hashes@ =~= want);
            return hashes;
        }
        let mut num = range.start;
        while num < end
            invariant
                self.wf(),
                range.start <= num <= end <= self@.txs.len(),
                want == self@.tx_hashes_between(range.start as int, range.end as int),
                want.len() == end - range.start,
                hashes@ == want.take(num - range.start),
            decreases end - num,
        {
            let hash = *self.transaction_hashes.get(&num).unwrap();
            hashes.push(hash);
            assert(hashes@ =~= want.take(num + 1 - range.start));
            num = num + 1;
        }
        assert(hashes@ =~= want);
        hashes
    }

    /// The finality status of the block that contains the transaction that `hash`
    /// names.
    pub fn transaction_status(&self, hash: Felt) -> (r: Option<FinalityStatus>)
        requires
            self.wf(),
        ensures
            r == self@.tx_status(hash),
    {
        match self.transaction_block_num_and_hash(hash) {
            Some((num, _)) => self.block_status(BlockHashOrNumber::Num(num)),
            None => None,
        }
    }

    /// The receipt of the transaction that `hash` names.
    pub fn receipt_by_hash(&self, hash: Felt) -> (r: Option<&R>)
        requires
            self.wf(),
        ensures
            r == (match self@.receipt_by_hash(hash) {
                Some(receipt) => Some(&receipt),
                None => None,
            }),
    {
        proof {
            self.lemma_lengths();
        }
        match self.transaction_numbers.get(hash) {
            Some(num) => Some(&self.receipts[*num as usize]),
            None => None,
        }
    }

    /// The receipts of the block that `id` names, in the order of its transactions.
    /// A known block without transactions gives an empty slice, an unknown block
    /// gives `None`.
    pub fn receipts_by_block(&self, id: BlockHashOrNumber) -> (r: Option<&[R]>)
        requires
            self.wf(),
        ensures
            match (r, self@.block_receipts(id)) {
                (Some(rs), Some(recs)) => rs@ == recs,
                (None, None) => true,
                _ => false,
            },
    {
        let indices = match self.block_body_indices(id) {
            Some(indices) => indices,
            None => { return None; },
        };
        proof {
            self.lemma_lengths();
        }
        let offset = indices.tx_offset as usize;
        let count = indices.tx_count as usize;
        Some(slice_subrange(self.receipts.as_slice(), offset, offset + count))
    }

    /// The block that `id` names: its header and its transactions.
    pub fn block(&self, id: BlockHashOrNumber) -> (r: Option<BlockRef<'_, T>>)
        requires
            self.wf(),
        ensures
            match (r, self@.record(id)) {
                (Some(b), Some(rec)) => self@.block_shows(b, rec),
                (None, None) => true,
                _ => false,
            },
    {
        let header = match self.header(id) {
            Some(header) => header,
            None => { return None; },
        };
        let body = match self.transactions_by_block(id) {
            Some(body) => body,
            None => Vec::new(),
        };
        Some(BlockRef { header, body })
    }

    /// The block that `id` names, with the hashes of its transactions in place of the
    /// transactions.
    pub fn block_with_tx_hashes(&self, id: BlockHashOrNumber) -> (r: Option<BlockWithTxHashes>)
        requires
            self.wf(),
        ensures
            match (r, self@.record(id)) {
                (Some(b), Some(rec)) => b.header == rec.header && b.body@
                    == self@.tx_hashes_between(rec.body.tx_offset as int, rec.body.end()),
                (None, None) => true,
                _ => false,
            },
    {
        let header = match self.header(id) {
            Some(header) => header,
            None => { return None; },
        };
        let indices = self.block_body_indices(id).unwrap();
        let body = self.transaction_hashes_in_range(
            indices.tx_offset..indices.tx_offset + indices.tx_count,
        );
        Some(BlockWithTxHashes { header, body })
    }

    /// The committed blocks whose numbers lie between `first` and `last`, both
    /// included, by increasing number. Numbers in between that were never committed
    /// are passed over.
    pub fn blocks_in_range(&self, first: u64, last: u64) -> (r: Vec<BlockRef<'_, T>>)
        requires
            self.wf(),
        ensures
            r@.len() == self@.committed_between(first as int, last as int).len(),
            forall|i: int|
                0 <= i < r@.len() ==> self@.block_shows(
                    #[trigger] r@[i],
                    self@.blocks[self@.committed_between(first as int, last as int)[i]],
                ),
    {
        let mut blocks: Vec<BlockRef<'_, T>> = Vec::new();
        if last < first {
            return blocks;
        }
        let mut num = first;
        loop
            invariant_except_break
                self.wf(),
                first <= num <= last,
                blocks@.len() == self@.committed_between(first as int, num - 1).len(),
                forall|i: int|
                    0 <= i < blocks@.len() ==> self@.block_shows(
                        #[trigger] blocks@[i],
                        self@.blocks[self@.committed_between(first as int, num - 1)[i]],
                    ),
            ensures
                blocks@.len() == self@.committed_between(first as int, last as int).len(),
                forall|i: int|
                    0 <= i < blocks@.len() ==> self@.block_shows(
                        #[trigger] blocks@[i],
                        self@.blocks[self@.committed_between(first as int, last as int)[i]],
                    ),
            decreases last - num,
        {
            let ghost before = self@.committed_between(first as int, num - 1);
            match self.block(BlockHashOrNumber::Num(num)) {
                Some(block) => {
                    blocks.push(block);
                },
                None => {},
            }
            assert(self@.committed_between(first as int, num as int) == if self@.blocks.contains_key(
                num,
            ) {
                before.push(num)
            } else {
                before
            });
            if num == last {
                break ;
            }
            num = num + 1;
        }
        blocks
    }
}

} // verus!
