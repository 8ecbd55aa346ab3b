//! The provider: one [`Store`] under a reader-writer lock, shared by any number of
//! readers and one writer at a time.
//!
//! Every function here takes the lock once, asks the store, and gives the lock back.
//! What the store answers is stated exactly in [`crate::store`]. What a function here
//! can promise is less: another thread may commit between any two calls, so a result
//! is known to be the answer of *some* well-formed store, the one that was under
//! the lock during the call.

use crate::block::Block;
use crate::block::BlockHashOrNumber;
use crate::block::BlockRef;
use crate::block::BlockWithTxHashes;
use crate::block::FinalityStatus;
use crate::block::Header;
use crate::block::SealedBlockWithStatus;
use crate::block::StoredBlockBodyIndices;
use crate::block::TxRef;
use crate::block::TxWithHash;
use crate::chain::CommitError;
use crate::chain_model::TxRecord;
use crate::felt::Felt;
use crate::lock::exclusive;
use crate::lock::new_lock;
use crate::lock::read_lock;
use crate::lock::shared;
use crate::lock::write_lock;
use crate::lock::Locked;
use crate::state_model::WorldState;
use crate::state_update::ClassDeclaration;
use crate::state_update::ClassHashUpdate;
use crate::state_update::NonceUpdate;
use crate::state_update::StateUpdates;
use crate::state_update::StateUpdatesWithDeclaredClasses;
use crate::state_update::StorageEntry;
use crate::store::Store;
use crate::store_model::StoreModel;
use std::ops::Range;
use vstd::prelude::*;

verus! {

/// Whether `t` is a copy of the stored transaction `rec`: the same hash, and a clone
/// of the payload.
pub open spec fn tx_copies<T: Clone>(t: TxWithHash<T>, rec: TxRecord<T>) -> bool {
    t.hash == rec.hash && cloned(rec.transaction, t.transaction)
}

/// Whether a lookup result is a copy of the stored transaction, or none where there
/// is none.
pub open spec fn tx_copy_found<T: Clone>(r: Option<TxWithHash<T>>, rec: Option<TxRecord<T>>) -> bool {
    match (r, rec) {
        (Some(t), Some(rec)) => tx_copies(t, rec),
        (None, None) => true,
        _ => false,
    }
}

/// Whether `ts` are copies of the stored transactions `recs`, one for one and in
/// order.
pub open spec fn txs_copy<T: Clone>(ts: Seq<TxWithHash<T>>, recs: Seq<TxRecord<T>>) -> bool {
    &&& ts.len() == recs.len()
    &&& forall|i: int| 0 <= i < ts.len() ==> tx_copies(#[trigger] ts[i], recs[i])
}

/// Whether `to` holds clones of the items of `from`, one for one and in order.
pub open spec fn all_cloned<A: Clone>(from: Seq<A>, to: Seq<A>) -> bool {
    &&& to.len() == from.len()
    &&& forall|i: int| 0 <= i < to.len() ==> cloned(from[i], #[trigger] to[i])
}

/// Whether a lookup result is a clone of the stored item, or none where there is
/// none.
pub open spec fn clone_found<A: Clone>(r: Option<A>, stored: Option<A>) -> bool {
    match (r, stored) {
        (Some(a), Some(stored)) => cloned(stored, a),
        (None, None) => true,
        _ => false,
    }
}

/// Whether two state diffs hold the same writes in the same order.
pub open spec fn same_updates(a: StateUpdates, b: StateUpdates) -> bool {
    &&& a.storage_updates@ == b.storage_updates@
    &&& a.nonce_updates@ == b.nonce_updates@
    &&& a.contract_updates@ == b.contract_updates@
    &&& a.declared_classes@ == b.declared_classes@
}

/// A copy of a transaction that the store lent out.
fn copy_tx<T: Clone>(t: &TxRef<'_, T>) -> (r: TxWithHash<T>)
    ensures
        r.hash == t.hash,
        cloned(*t.transaction, r.transaction),
{
    TxWithHash { hash: t.hash, transaction: t.transaction.clone() }
}

/// Copies of the transactions that the store lent out, in order.
fn copy_txs<T: Clone>(ts: &Vec<TxRef<'_, T>>) -> (r: Vec<TxWithHash<T>>)
    ensures
        r@.len() == ts@.len(),
        forall|i: int|
            0 <= i < r@.len() ==> (#[trigger] r@[i]).hash == ts@[i].hash && cloned(
                *ts@[i].transaction,
                r@[i].transaction,
            ),
{
    let mut out: Vec<TxWithHash<T>> = Vec::new();
    let mut i: usize = 0;
    while i < ts.len()
        invariant
            i <= ts@.len(),
            out@.len() == i,
            forall|k: int|
                0 <= k < i ==> (#[trigger] out@[k]).hash == ts@[k].hash && cloned(
                    *ts@[k].transaction,
                    out@[k].transaction,
                ),
        decreases ts@.len() - i,
    {
        let t = copy_tx(&ts[i]);
        out.push(t);
        i = i + 1;
    }
    out
}

/// A copy of a block that the store lent out.
fn copy_block<T: Clone>(b: &BlockRef<'_, T>) -> (r: Block<T>)
    ensures
        r.header == b.header,
        r.body@.len() == b.body@.len(),
        forall|i: int|
            0 <= i < r.body@.len() ==> (#[trigger] r.body@[i]).hash == b.body@[i].hash && cloned(
                *b.body@[i].transaction,
                r.body@[i].transaction,
            ),
{
    Block { header: b.header, body: copy_txs(&b.body) }
}

/// Clones of the items of a slice, in order.
fn copy_items<A: Clone>(items: &[A]) -> (r: Vec<A>)
    ensures
        all_cloned(items@, r@),
{
    let mut out: Vec<A> = Vec::new();
    let mut i: usize = 0;
    while i < items.len()
        invariant
            i <= items@.len(),
            out@.len() == i,
            forall|k: int| 0 <= k < i ==> cloned(items@[k], #[trigger] out@[k]),
        decreases items@.len() - i,
    {
        out.push(items[i].clone());
        i = i + 1;
    }
    out
}

/// A copy of a state diff: the same writes in the same order.
fn copy_updates(u: &StateUpdates) -> (r: StateUpdates)
    ensures
        same_updates(r, *u),
{
    let mut storage_updates: Vec<StorageEntry> = Vec::new();
    let mut i: usize = 0;
    while i < u.storage_updates.len()
        invariant
            i <= u.storage_updates@.len(),
            storage_updates@ == u.storage_updates@.take(i as int),
        decreases u.storage_updates@.len() - i,
    {
        storage_updates.push(u.storage_updates[i]);
        assert(storage_updates@ =~= u.storage_updates@.take(i + 1));
        i = i + 1;
    }
    assert(u.storage_updates@.take(i as int) =~= u.storage_updates@);
    let mut nonce_updates: Vec<NonceUpdate> = Vec::new();
    i = 0;
    while i < u.nonce_updates.len()
        invariant
            i <= u.nonce_updates@.len(),
            nonce_updates@ == u.nonce_updates@.take(i as int),
        decreases u.nonce_updates@.len() - i,
    {
        nonce_updates.push(u.nonce_updates[i]);
        assert(nonce_updates@ =~= u.nonce_updates@.take(i + 1));
        i = i + 1;
    }
    assert(u.nonce_updates@.take(i as int) =~= u.nonce_updates@);
    let mut contract_updates: Vec<ClassHashUpdate> = Vec::new();
    i = 0;
    while i < u.contract_updates.len()
        invariant
            i <= u.contract_updates@.len(),
            contract_updates@ == u.contract_updates@.take(i as int),
        decreases u.contract_updates@.len() - i,
    {
        contract_updates.push(u.contract_updates[i]);
        assert(contract_updates@ =~= u.contract_updates@.take(i + 1));
        i = i + 1;
    }
    assert(u.contract_updates@.take(i as int) =~= u.contract_updates@);
    let mut declared_classes: Vec<ClassDeclaration> = Vec::new();
    i = 0;
    while i < u.declared_classes.len()
        invariant
            i <= u.declared_classes@.len(),
            declared_classes@ == u.declared_classes@.take(i as int),
        decreases u.declared_classes@.len() - i,
    {
        declared_classes.push(u.declared_classes[i]);
        assert(declared_classes@ =~= u.declared_classes@.take(i + 1));
        i = i + 1;
    }
    assert(u.declared_classes@.take(i as int) =~= u.declared_classes@);
    StateUpdates { storage_updates, nonce_updates, contract_updates, declared_classes }
}

/// The in-memory provider of chain data: a store that any number of threads may read
/// and write through shared references.
///
/// A commit is one step to every reader: a reader sees the store before the commit
/// or after it, never in between. A query that takes several lookups makes all of
/// them on one and the same store.
#[verifier::reject_recursive_types(T)]
#[verifier::reject_recursive_types(R)]
#[verifier::reject_recursive_types(C)]
#[verifier::reject_recursive_types(S)]
pub struct InMemoryProvider<T, R, C, S> {
    store: Locked<Store<T, R, C, S>>,
}

impl<T, R, C, S> InMemoryProvider<T, R, C, S> {
    /// A provider whose store holds nothing.
    pub fn new() -> Self {
        InMemoryProvider { store: new_lock(Store::new()) }
    }

    /// A provider over `store`.
    pub fn from_store(store: Store<T, R, C, S>) -> Self {
        InMemoryProvider { store: new_lock(store) }
    }

    /// The hash of the block committed last, or zero if there is none.
    pub fn latest_hash(&self) -> (r: Felt)
        ensures
            exists|m: StoreModel<T, R, C, S>| #[trigger] m.wf() && r == m.chain.latest_hash(),
    {
        let guard = read_lock(&self.store);
        let store = shared(&guard);
        proof {
            use_type_invariant(store);
        }
        store.latest_hash()
    }

    /// The hash of the block with number `num`.
    pub fn block_hash_by_num(&self, num: u64) -> (r: Option<Felt>)
        ensures
            exists|m: StoreModel<T, R, C, S>| #[trigger] m.wf() && r == m.chain.hash_of(num),
    {
        let guard = read_lock(&self.store);
        let store = shared(&guard);
        proof {
            use_type_invariant(store);
        }
        store.block_hash_by_num(num)
    }

    /// The number of the block committed last, or 0 if there is none.
    pub fn latest_number(&self) -> (r: u64)
        ensures
            exists|m: StoreModel<T, R, C, S>| #[trigger] m.wf() && r == m.chain.latest_number(),
    {
        let guard = read_lock(&self.store);
        let store = shared(&guard);
        proof {
            use_type_invariant(store);
        }
        store.latest_number()
    }

    /// The number that the block hash `hash` resolves to.
    pub fn block_number_by_hash(&self, hash: Felt) -> (r: Option<u64>)
        ensures
            exists|m: StoreModel<T, R, C, S>| #[trigger] m.wf() && r == m.chain.numbers.get(hash),
    {
        let guard = read_lock(&self.store);
        let store = shared(&guard);
        proof {
            use_type_invariant(store);
        }
        store.block_number_by_hash(hash)
    }

    /// The block number that a selector stands for. A number is handed back as it
    /// is, whether or not such a block was committed.
    pub fn block_number_by_id(&self, id: BlockHashOrNumber) -> (r: Option<u64>)
        ensures
            exists|m: StoreModel<T, R, C, S>| #[trigger] m.wf() && r == m.chain.resolve(id),
            id matches BlockHashOrNumber::Num(n) ==> r == Some(n),
    {
        let guard = read_lock(&self.store);
        let store = shared(&guard);
        proof {
            use_type_invariant(store);
        }
        store.block_number_by_id(id)
    }

    /// The header of the block that `id` names.
    pub fn header(&self, id: BlockHashOrNumber) -> (r: Option<Header>)
        ensures
            exists|m: StoreModel<T, R, C, S>| #[trigger] m.wf() && r == m.chain.header(id),
            r matches Some(header) ==> (id matches BlockHashOrNumber::Num(n) ==> header.number == n),
    {
        let guard = read_lock(&self.store);
        let store = shared(&guard);
        proof {
            use_type_invariant(store);
        }
        store.header(id)
    }

    /// The finality status of the block that `id` names.
    pub fn block_status(&self, id: BlockHashOrNumber) -> (r: Option<FinalityStatus>)
        ensures
            exists|m: StoreModel<T, R, C, S>| #[trigger] m.wf() && r == m.chain.status(id),
    {
        let guard = read_lock(&self.store);
        let store = shared(&guard);
        proof {
            use_type_invariant(store);
        }
        store.block_status(id)
    }

    /// The block that `id` names, with the hashes of its transactions in place of the
    /// transactions.
    pub fn block_with_tx_hashes(&self, id: BlockHashOrNumber) -> (r: Option<BlockWithTxHashes>)
        ensures
            exists|m: StoreModel<T, R, C, S>| #[trigger]
                m.wf() && match (r, m.chain.record(id)) {
                    (Some(b), Some(rec)) => b.header == rec.header && b.body@
                        == m.chain.tx_hashes_between(rec.body.tx_offset as int, rec.body.end()),
                    (None, None) => true,
                    _ => false,
                },
    {
        let guard = read_lock(&self.store);
        let store = shared(&guard);
        proof {
            use_type_invariant(store);
        }
        store.block_with_tx_hashes(id)
    }

    /// Where the transactions and receipts of the block that `id` names lie in the
    /// flat arrays.
    pub fn block_body_indices(&self, id: BlockHashOrNumber) -> (r: Option<StoredBlockBodyIndices>)
        ensures
            exists|m: StoreModel<T, R, C, S>| #[trigger] m.wf() && r == m.chain.body_indices(id),
    {
        let guard = read_lock(&self.store);
        let store = shared(&guard);
        proof {
            use_type_invariant(store);
        }
        store.block_body_indices(id)
    }

    /// The number of transactions in the block that `id` names.
    pub fn transaction_count_by_block(&self, id: BlockHashOrNumber) -> (r: Option<u64>)
        ensures
            exists|m: StoreModel<T, R, C, S>| #[trigger] m.wf() && r == m.chain.tx_count(id),
    {
        let guard = read_lock(&self.store);
        let store = shared(&guard);
        proof {
            use_type_invariant(store);
        }
        store.transaction_count_by_block(id)
    }

    /// The number and the hash of the block that contains the transaction that
    /// `hash` names.
    pub fn transaction_block_num_and_hash(&self, hash: Felt) -> (r: Option<(u64, Felt)>)
        ensures
            exists|m: StoreModel<T, R, C, S>| #[trigger] m.wf() && r == m.chain.tx_block(hash),
    {
        let guard = read_lock(&self.store);
        let store = shared(&guard);
        proof {
            use_type_invariant(store);
        }
        store.transaction_block_num_and_hash(hash)
    }

    /// The hashes of the transactions whose numbers lie in `range`, in order.
    /// Numbers in the range that no transaction has yet are passed over.
    pub fn transaction_hashes_in_range(&self, range: Range<u64>) -> (r: Vec<Felt>)
        ensures
            exists|m: StoreModel<T, R, C, S>| #[trigger]
                m.wf() && r@ == m.chain.tx_hashes_between(range.start as int, range.end as int),
    {
        let guard = read_lock(&self.store);
        let store = shared(&guard);
        proof {
            use_type_invariant(store);
        }
        store.transaction_hashes_in_range(range)
    }

    /// The finality status of the block that contains the transaction that `hash`
    /// names.
    pub fn transaction_status(&self, hash: Felt) -> (r: Option<FinalityStatus>)
        ensures
            exists|m: StoreModel<T, R, C, S>| #[trigger] m.wf() && r == m.chain.tx_status(hash),
    {
        let guard = read_lock(&self.store);
        let store = shared(&guard);
        proof {
            use_type_invariant(store);
        }
        store.transaction_status(hash)
    }

    /// The state diff that the block that `id` names was committed with.
    pub fn state_update(&self, id: BlockHashOrNumber) -> (r: Option<StateUpdates>)
        ensures
            exists|m: StoreModel<T, R, C, S>| #[trigger]
                m.wf() && match (r, m.chain.state_update(id)) {
                    (Some(u), Some(kept)) => same_updates(u, kept),
                    (None, None) => true,
                    _ => false,
                },
    {
        let guard = read_lock(&self.store);
        let store = shared(&guard);
        proof {
            use_type_invariant(store);
        }
        match store.state_update(id) {
            Some(u) => Some(copy_updates(u)),
            None => None,
        }
    }

    /// The state root recorded in the header of the block that `id` names. It is
    /// the stored value; nothing is recomputed.
    pub fn state_root(&self, id: BlockHashOrNumber) -> (r: Option<Felt>)
        ensures
            exists|m: StoreModel<T, R, C, S>| #[trigger] m.wf() && r == m.chain.state_root(id),
    {
        let guard = read_lock(&self.store);
        let store = shared(&guard);
        proof {
            use_type_invariant(store);
        }
        store.state_root(id)
    }

    /// A reader of the latest state. Each read sees the state as it is at the time
    /// of the read.
    pub fn latest(&self) -> (r: StateReader<'_, T, R, C, S>)
        ensures
            r.block() is None,
    {
        StateReader { provider: self, block: None }
    }

    /// A reader of the state as of the block that `id` names: the state right after
    /// that block was committed, whatever was committed or written since. There is
    /// none if the block is not committed.
    pub fn historical(&self, id: BlockHashOrNumber) -> (r: Option<StateReader<'_, T, R, C, S>>)
        ensures
            exists|m: StoreModel<T, R, C, S>| #[trigger]
                m.wf() && match r {
                    Some(reader) => m.state_at(id) is Some && reader.block() == m.chain.resolve(id),
                    None => m.state_at(id) is None,
                },
    {
        let guard = read_lock(&self.store);
        let store = shared(&guard);
        proof {
            use_type_invariant(store);
        }
        let num = match store.block_number_by_id(id) {
            Some(num) => num,
            None => { return None; },
        };
        match store.historical(BlockHashOrNumber::Num(num)) {
            Some(_) => Some(StateReader { provider: self, block: Some(num) }),
            None => None,
        }
    }

    /// Commits a block with the state diff and the receipts that its execution
    /// produced, as one step under the write lock.
    ///
    /// A block whose number is already stored is refused, and so is one that does
    /// not come with exactly one receipt per transaction. A refused block changes
    /// nothing.
    pub fn insert_block_with_states_and_receipts(
        &self,
        block: SealedBlockWithStatus<T>,
        states: StateUpdatesWithDeclaredClasses<C, S>,
        receipts: Vec<R>,
    ) -> (r: Result<(), CommitError>)
        ensures
            exists|m: StoreModel<T, R, C, S>| #[trigger]
                m.wf() && r == (match m.refusal(block, receipts@) {
                    Some(e) => Err::<(), CommitError>(e),
                    None => Ok(()),
                }),
            r is Ok ==> receipts@.len() == block.block.body@.len(),
            r == Err::<(), CommitError>(CommitError::ReceiptCountMismatch) ==> receipts@.len()
                != block.block.body@.len(),
    {
        let mut guard = write_lock(&self.store);
        let store = exclusive(&mut guard);
        proof {
            use_type_invariant(&*store);
        }
        store.insert_block_with_states_and_receipts(block, states, receipts)
    }

    /// Stores the compiled class `class` under `hash`, in place of any earlier one.
    pub fn set_class(&self, hash: Felt, class: C) {
        let mut guard = write_lock(&self.store);
        let store = exclusive(&mut guard);
        store.set_class(hash, class);
    }

    /// Stores the source class `sierra` under `hash`, in place of any earlier one.
    pub fn set_sierra_class(&self, hash: Felt, sierra: S) {
        let mut guard = write_lock(&self.store);
        let store = exclusive(&mut guard);
        store.set_sierra_class(hash, sierra);
    }

    /// Binds the compiled class hash `compiled_hash` to the class hash `hash`, in
    /// place of any earlier binding.
    pub fn set_compiled_class_hash_of_class_hash(&self, hash: Felt, compiled_hash: Felt) {
        let mut guard = write_lock(&self.store);
        let store = exclusive(&mut guard);
        store.set_compiled_class_hash_of_class_hash(hash, compiled_hash);
    }

    /// Sets slot `storage_key` of contract `address` to `storage_value` in the
    /// latest state.
    pub fn set_storage(&self, address: Felt, storage_key: Felt, storage_value: Felt) {
        let mut guard = write_lock(&self.store);
        let store = exclusive(&mut guard);
        store.set_storage(address, storage_key, storage_value);
    }

    /// Sets the class hash of contract `address` in the latest state.
    pub fn set_class_hash_of_contract(&self, address: Felt, class_hash: Felt) {
        let mut guard = write_lock(&self.store);
        let store = exclusive(&mut guard);
        store.set_class_hash_of_contract(address, class_hash);
    }

    /// Sets the nonce of contract `address` in the latest state.
    pub fn set_nonce(&self, address: Felt, nonce: Felt) {
        let mut guard = write_lock(&self.store);
        let store = exclusive(&mut guard);
        store.set_nonce(address, nonce);
    }
}

impl<T, R, C, S> Default for InMemoryProvider<T, R, C, S> {
    /// A provider whose store holds nothing.
    fn default() -> Self {
        Self::new()
    }
}

impl<T: Clone, R, C, S> InMemoryProvider<T, R, C, S> {
    /// The block that `id` names: its header and its transactions.
    pub fn block(&self, id: BlockHashOrNumber) -> (r: Option<Block<T>>)
        ensures
            exists|m: StoreModel<T, R, C, S>| #[trigger]
                m.wf() && match (r, m.chain.record(id)) {
                    (Some(b), Some(rec)) => b.header == rec.header && txs_copy(
                        b.body@,
                        m.chain.body_txs(rec.body),
                    ),
                    (None, None) => true,
                    _ => false,
                },
    {
        let guard = read_lock(&self.store);
        let store = shared(&guard);
        proof {
            use_type_invariant(store);
        }
        match store.block(id) {
            Some(b) => Some(copy_block(&b)),
            None => None,
        }
    }

    /// The committed blocks whose numbers lie between `first` and `last`, both
    /// included, by increasing number. Numbers in between that were never committed
    /// are passed over.
    pub fn blocks_in_range(&self, first: u64, last: u64) -> (r: Vec<Block<T>>)
        ensures
            exists|m: StoreModel<T, R, C, S>| #[trigger]
                m.wf() && r@.len() == m.chain.committed_between(first as int, last as int).len()
                    && forall|i: int|
                    0 <= i < r@.len() ==> {
                        let rec = m.chain.blocks[m.chain.committed_between(
                            first as int,
                            last as int,
                        )[i]];
                        (#[trigger] r@[i]).header == rec.header && txs_copy(
                            r@[i].body@,
                            m.chain.body_txs(rec.body),
                        )
                    },
    {
        let guard = read_lock(&self.store);
        let store = shared(&guard);
        proof {
            use_type_invariant(store);
        }
        let lent = store.blocks_in_range(first, last);
        let ghost numbers = store@.chain.committed_between(first as int, last as int);
        let mut out: Vec<Block<T>> = Vec::new();
        let mut i: usize = 0;
        while i < lent.len()
            invariant
                i <= lent@.len(),
                out@.len() == i,
                lent@.len() == numbers.len(),
                forall|k: int|
                    0 <= k < lent@.len() ==> store@.chain.block_shows(
                        #[trigger] lent@[k],
                        store@.chain.blocks[numbers[k]],
                    ),
                forall|k: int|
                    0 <= k < i ==> (#[trigger] out@[k]).header
                        == store@.chain.blocks[numbers[k]].header && txs_copy(
                        out@[k].body@,
                        store@.chain.body_txs(store@.chain.blocks[numbers[k]].body),
                    ),
            decreases lent@.len() - i,
        {
            let b = copy_block(&lent[i]);
            out.push(b);
            i = i + 1;
        }
        out
    }

    /// The transaction that `hash` names.
    pub fn transaction_by_hash(&self, hash: Felt) -> (r: Option<TxWithHash<T>>)
        ensures
            exists|m: StoreModel<T, R, C, S>| #[trigger]
                m.wf() && tx_copy_found(r, m.chain.tx_by_hash(hash)),
            r matches Some(t) ==> t.hash == hash,
    {
        let guard = read_lock(&self.store);
        let store = shared(&guard);
        proof {
            use_type_invariant(store);
        }
        match store.transaction_by_hash(hash) {
            Some(t) => Some(copy_tx(&t)),
            None => None,
        }
    }

    /// The transactions of the block that `id` names, in order. A known block
    /// without transactions gives an empty list, an unknown block gives `None`.
    pub fn transactions_by_block(&self, id: BlockHashOrNumber) -> (r: Option<Vec<TxWithHash<T>>>)
        ensures
            exists|m: StoreModel<T, R, C, S>| #[trigger]
                m.wf() && match (r, m.chain.block_txs(id)) {
                    (Some(ts), Some(recs)) => txs_copy(ts@, recs),
                    (None, None) => true,
                    _ => false,
                },
    {
        let guard = read_lock(&self.store);
        let store = shared(&guard);
        proof {
            use_type_invariant(store);
        }
        match store.transactions_by_block(id) {
            Some(ts) => Some(copy_txs(&ts)),
            None => None,
        }
    }

    /// The transaction at position `idx` of the block that `id` names. There is
    /// none if the block is unknown or `idx` is not below its transaction count.
    pub fn transaction_by_block_and_idx(&self, id: BlockHashOrNumber, idx: u64) -> (r: Option<
        TxWithHash<T>,
    >)
        ensures
            exists|m: StoreModel<T, R, C, S>| #[trigger]
                m.wf() && tx_copy_found(r, m.chain.tx_by_block_and_idx(id, idx)),
    {
        let guard = read_lock(&self.store);
        let store = shared(&guard);
        proof {
            use_type_invariant(store);
        }
        match store.transaction_by_block_and_idx(id, idx) {
            Some(t) => Some(copy_tx(&t)),
            None => None,
        }
    }
}

impl<T, R: Clone, C, S> InMemoryProvider<T, R, C, S> {
    /// The receipt of the transaction that `hash` names.
    pub fn receipt_by_hash(&self, hash: Felt) -> (r: Option<R>)
        ensures
            exists|m: StoreModel<T, R, C, S>| #[trigger]
                m.wf() && clone_found(r, m.chain.receipt_by_hash(hash)),
    {
        let guard = read_lock(&self.store);
        let store = shared(&guard);
        proof {
            use_type_invariant(store);
        }
        match store.receipt_by_hash(hash) {
            Some(receipt) => Some(receipt.clone()),
            None => None,
        }
    }

    /// The receipts of the block that `id` names, in the order of its transactions.
    /// A known block without transactions gives an empty list, an unknown block
    /// gives `None`.
    pub fn receipts_by_block(&self, id: BlockHashOrNumber) -> (r: Option<Vec<R>>)
        ensures
            exists|m: StoreModel<T, R, C, S>| #[trigger]
                m.wf() && match (r, m.chain.block_receipts(id)) {
                    (Some(rs), Some(recs)) => all_cloned(recs, rs@),
                    (None, None) => true,
                    _ => false,
                },
    {
        let guard = read_lock(&self.store);
        let store = shared(&guard);
        proof {
            use_type_invariant(store);
        }
        match store.receipts_by_block(id) {
            Some(receipts) => Some(copy_items(receipts)),
            None => None,
        }
    }
}

/// A reader of the state behind a provider: of the latest state, or of the state as
/// of one committed block. It takes the lock for each read.
#[verifier::reject_recursive_types(T)]
#[verifier::reject_recursive_types(R)]
#[verifier::reject_recursive_types(C)]
#[verifier::reject_recursive_types(S)]
pub struct StateReader<'a, T, R, C, S> {
    provider: &'a InMemoryProvider<T, R, C, S>,
    block: Option<u64>,
}

impl<'a, T, R, C, S> StateReader<'a, T, R, C, S> {
    /// The number of the block whose state the reader shows; none for the latest
    /// state.
    pub closed spec fn block(self) -> Option<u64> {
        self.block
    }

    /// The state that the reader shows in a store: the latest state, or the state as
    /// of its block, which is empty if the store does not know the block.
    pub open spec fn world_in(self, m: StoreModel<T, R, C, S>) -> WorldState {
        match self.block() {
            None => m.latest,
            Some(n) => match m.history.get(n) {
                Some(world) => world,
                None => WorldState::empty(),
            },
        }
    }

    /// The value of slot `key` of contract `address`, if it was written.
    pub fn storage(&self, address: Felt, key: Felt) -> (r: Option<Felt>)
        ensures
            exists|m: StoreModel<T, R, C, S>| #[trigger]
                m.wf() && r == self.world_in(m).storage_of(address, key),
    {
        let guard = read_lock(&self.provider.store);
        let store = shared(&guard);
        proof {
            use_type_invariant(store);
        }
        match self.block {
            None => store.latest().storage(address, key),
            Some(num) => match store.historical(BlockHashOrNumber::Num(num)) {
                Some(view) => view.storage(address, key),
                None => None,
            },
        }
    }

    /// The nonce of contract `address`, if the contract was written.
    pub fn nonce(&self, address: Felt) -> (r: Option<Felt>)
        ensures
            exists|m: StoreModel<T, R, C, S>| #[trigger]
                m.wf() && r == self.world_in(m).nonce_of(address),
    {
        let guard = read_lock(&self.provider.store);
        let store = shared(&guard);
        proof {
            use_type_invariant(store);
        }
        match self.block {
            None => store.latest().nonce(address),
            Some(num) => match store.historical(BlockHashOrNumber::Num(num)) {
                Some(view) => view.nonce(address),
                None => None,
            },
        }
    }

    /// The class hash of contract `address`, if the contract was written.
    pub fn class_hash_of_contract(&self, address: Felt) -> (r: Option<Felt>)
        ensures
            exists|m: StoreModel<T, R, C, S>| #[trigger]
                m.wf() && r == self.world_in(m).class_hash_of(address),
    {
        let guard = read_lock(&self.provider.store);
        let store = shared(&guard);
        proof {
            use_type_invariant(store);
        }
        match self.block {
            None => store.latest().class_hash_of_contract(address),
            Some(num) => match store.historical(BlockHashOrNumber::Num(num)) {
                Some(view) => view.class_hash_of_contract(address),
                None => None,
            },
        }
    }

    /// The compiled class hash bound to the class hash `hash`.
    pub fn compiled_class_hash_of_class_hash(&self, hash: Felt) -> (r: Option<Felt>)
        ensures
            exists|m: StoreModel<T, R, C, S>| #[trigger]
                m.wf() && r == m.classes.compiled_class_hashes.get(hash),
    {
        let guard = read_lock(&self.provider.store);
        let store = shared(&guard);
        proof {
            use_type_invariant(store);
        }
        store.latest().compiled_class_hash_of_class_hash(hash)
    }
}

impl<'a, T, R, C: Clone, S> StateReader<'a, T, R, C, S> {
    /// The compiled class stored under `hash`.
    pub fn class(&self, hash: Felt) -> (r: Option<C>)
        ensures
            exists|m: StoreModel<T, R, C, S>| #[trigger]
                m.wf() && clone_found(r, m.classes.compiled_classes.get(hash)),
    {
        let guard = read_lock(&self.provider.store);
        let store = shared(&guard);
        proof {
            use_type_invariant(store);
        }
        match store.latest().class(hash) {
            Some(class) => Some(class.clone()),
            None => None,
        }
    }
}

impl<'a, T, R, C, S: Clone> StateReader<'a, T, R, C, S> {
    /// The source class stored under `hash`.
    pub fn sierra_class(&self, hash: Felt) -> (r: Option<S>)
        ensures
            exists|m: StoreModel<T, R, C, S>| #[trigger]
                m.wf() && clone_found(r, m.classes.sierra_classes.get(hash)),
    {
        let guard = read_lock(&self.provider.store);
        let store = shared(&guard);
        proof {
            use_type_invariant(store);
        }
        match store.latest().sierra_class(hash) {
            Some(class) => Some(class.clone()),
            None => None,
        }
    }
}

} // verus!
