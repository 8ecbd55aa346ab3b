//! The store: the chain index, the state store and the registry of historical states,
//! kept consistent with one another.

use crate::block::BlockHashOrNumber;
use crate::block::BlockRef;
use crate::block::BlockWithTxHashes;
use crate::block::FinalityStatus;
use crate::block::Header;
use crate::block::SealedBlockWithStatus;
use crate::block::StoredBlockBodyIndices;
use crate::block::TxRef;
use crate::chain::ChainIndex;
use crate::chain::CommitError;
use crate::chain_model::tx_found;
use crate::chain_model::txs_show;
use crate::felt::Felt;
use crate::state::HistoricalStates;
use crate::state::InMemoryStateDb;
use crate::state::StateProvider;
use crate::state_update::StateUpdates;
use crate::state_update::StateUpdatesWithDeclaredClasses;
use crate::store_model::StoreModel;
use std::ops::Range;
use vstd::prelude::*;
use vstd::set_lib::lemma_int_range;
use vstd::set_lib::lemma_len_subset;
use vstd::set_lib::set_int_range;

verus! {

/// A sequence of distinct 64-bit numbers has at most 2^64 entries.
pub proof fn lemma_distinct_numbers_bounded(s: Seq<u64>)
    requires
        s.no_duplicates(),
    ensures
        s.len() <= 0x1_0000_0000_0000_0000,
{
    let wide = s.map_values(|x: u64| x as int);
    let all = set_int_range(0, 0x1_0000_0000_0000_0000);
    assert(wide.no_duplicates()) by {
        assert forall|i: int, j: int| 0 <= i < wide.len() && 0 <= j < wide.len() && i != j implies wide[i]
            != wide[j] by {
            assert(s[i] != s[j]);
        }
    }
    wide.unique_seq_to_set();
    lemma_int_range(0, 0x1_0000_0000_0000_0000);
    assert(wide.to_set().subset_of(all)) by {
        assert forall|x: int| wide.to_set().contains(x) implies all.contains(x) by {
            let i = choose|i: int| 0 <= i < wide.len() && wide[i] == x;
            assert(x == s[i] as int);
        }
    }
    lemma_len_subset(wide.to_set(), all);
}

/// The store of a chain: committed blocks with their transactions and receipts, the
/// latest state, and the state as of every committed block.
///
/// A store is well formed at all times, so no function of it asks for that.
pub struct Store<T, R, C, S> {
    storage: ChainIndex<T, R>,
    state: InMemoryStateDb<C, S>,
    historical_states: HistoricalStates,
}

impl<T, R, C, S> View for Store<T, R, C, S> {
    type V = StoreModel<T, R, C, S>;

    closed spec fn view(&self) -> StoreModel<T, R, C, S> {
        StoreModel {
            chain: self.storage@,
            latest: self.state@.latest,
            history: Map::new(
                |n: u64| self.historical_states@.contains_key(n),
                |n: u64| self.state@.at(self.historical_states@[n]),
            ),
            classes: self.state@.classes,
        }
    }
}

impl<T, R, C, S> Store<T, R, C, S> {
    /// Agreement of the three components: each is well formed, every registered
    /// snapshot was issued by the state store, and one snapshot was taken per
    /// committed block.
    pub closed spec fn parts_agree(&self) -> bool {
        &&& self.storage.wf()
        &&& self.state.wf()
        &&& forall|n: u64| #[trigger]
            self.historical_states@.contains_key(n) ==> 0 <= self.historical_states@[n]
                < self.state@.snapshots.len()
        &&& self.state@.snapshots.len() == self.storage@.order.len()
    }

    /// The invariant of the store. It holds of every store at all times: whoever
    /// holds a store may rely on it.
    #[verifier::type_invariant]
    pub open spec fn wf(&self) -> bool {
        &&& self.parts_agree()
        &&& self@.wf()
    }

    /// A store that holds nothing.
    pub fn new() -> (r: Self)
        ensures
            r@ == StoreModel::<T, R, C, S>::empty(),
    {
        let r = Store {
            storage: ChainIndex::new(),
            state: InMemoryStateDb::new(),
            historical_states: HistoricalStates::new(),
        };
        proof {
            assert(r@.history =~= StoreModel::<T, R, C, S>::empty().history);
            assert(r@ =~= StoreModel::<T, R, C, S>::empty());
        }
        r
    }

    /// A change to the latest state or to the class tables alone leaves the state
    /// as of every committed block as it was.
    proof fn lemma_history_kept(&self, before: Self)
        requires
            before.wf(),
            self.storage == before.storage,
            self.historical_states == before.historical_states,
            self.state.wf(),
            self.state@.snapshots == before.state@.snapshots,
        ensures
            self.wf(),
            self@.history == before@.history,
            self@.chain == before@.chain,
    {
        assert(self@.history =~= before@.history);
    }

    /// Takes the three components out of the store, which is left empty.
    fn take(&mut self) -> (parts: (ChainIndex<T, R>, InMemoryStateDb<C, S>, HistoricalStates))
        ensures
            parts.0 == old(self).storage,
            parts.1 == old(self).state,
            parts.2 == old(self).historical_states,
    {
        let mut taken = Self::new();
        std::mem::swap(self, &mut taken);
        let Store { storage, state, historical_states } = taken;
        (storage, state, historical_states)
    }

    /// Commits a block with the state diff and the receipts that its execution
    /// produced, as one step: the block, its transactions and its receipts are
    /// indexed and the diff is kept; then the diff is applied to the latest state;
    /// then a snapshot of the resulting state is registered as the state as of the
    /// new block.
    ///
    /// A block whose number is already stored is refused, and so is one that does
    /// not come with exactly one receipt per transaction. A refused block changes
    /// nothing.
    pub fn insert_block_with_states_and_receipts(
        &mut self,
        block: SealedBlockWithStatus<T>,
        states: StateUpdatesWithDeclaredClasses<C, S>,
        receipts: Vec<R>,
    ) -> (r: Result<(), CommitError>)
        ensures
            r == (match old(self)@.refusal(block, receipts@) {
                Some(e) => Err(e),
                None => Ok(()),
            }),
            final(self)@ == old(self)@.step(block, states, receipts@),
            r is Err ==> *final(self) == *old(self),
    {
        proof {
            use_type_invariant(&*self);
        }
        let number = block.block.header.header.number;
        if self.storage.block_hash_by_num(number).is_some() {
            return Err(CommitError::DuplicateBlock);
        }
        if receipts.len() != block.block.body.len() {
            return Err(CommitError::ReceiptCountMismatch);
        }
        let ghost before = *self;
        let (mut storage, mut state, mut historical_states) = self.take();
        let StateUpdatesWithDeclaredClasses {
            state_updates,
            declared_compiled_classes,
            declared_sierra_classes,
        } = states;
        let r = storage.insert_block(block, state_updates, receipts);
        let kept = storage.state_update(BlockHashOrNumber::Num(number)).unwrap();
        state.insert_updates(kept, declared_compiled_classes, declared_sierra_classes);
        proof {
            lemma_distinct_numbers_bounded(storage@.order);
        }
        let snapshot = state.create_snapshot();
        historical_states.insert(number, snapshot);
        proof {
            let ghost after = Store { storage, state, historical_states };
            assert(after@.history =~= before@.history.insert(number, after@.latest));
            assert(after@ =~= before@.commit(block, states, receipts@));
        }
        *self = Store { storage, state, historical_states };
        r
    }
}

impl<T, R, C, S> Default for Store<T, R, C, S> {
    /// A store that holds nothing.
    fn default() -> (r: Self)
        ensures
            r@ == StoreModel::<T, R, C, S>::empty(),
    {
        Self::new()
    }
}

impl<T, R, C, S> Store<T, R, C, S> {
    /// The hash of the block committed last, or zero if there is none.
    pub fn latest_hash(&self) -> (r: Felt)
        ensures
            r == self@.chain.latest_hash(),
    {
        proof {
            use_type_invariant(self);
        }
        self.storage.latest_hash()
    }

    /// The hash of the block with number `num`.
    pub fn block_hash_by_num(&self, num: u64) -> (r: Option<Felt>)
        ensures
            r == self@.chain.hash_of(num),
    {
        proof {
            use_type_invariant(self);
        }
        self.storage.block_hash_by_num(num)
    }

    /// The number of the block committed last, or 0 if there is none.
    pub fn latest_number(&self) -> (r: u64)
        ensures
            r == self@.chain.latest_number(),
    {
        proof {
            use_type_invariant(self);
        }
        self.storage.latest_number()
    }

    /// The number that the block hash `hash` resolves to.
    pub fn block_number_by_hash(&self, hash: Felt) -> (r: Option<u64>)
        ensures
            r == self@.chain.numbers.get(hash),
    {
        proof {
            use_type_invariant(self);
        }
        self.storage.block_number_by_hash(hash)
    }

    /// The block number that a selector stands for. A number is handed back as it
    /// is, whether or not such a block was committed.
    pub fn block_number_by_id(&self, id: BlockHashOrNumber) -> (r: Option<u64>)
        ensures
            r == self@.chain.resolve(id),
    {
        proof {
            use_type_invariant(self);
        }
        self.storage.block_number_by_id(id)
    }

    /// The header of the block that `id` names.
    pub fn header(&self, id: BlockHashOrNumber) -> (r: Option<Header>)
        ensures
            r == self@.chain.header(id),
    {
        proof {
            use_type_invariant(self);
        }
        self.storage.header(id)
    }

    /// The finality status of the block that `id` names.
    pub fn block_status(&self, id: BlockHashOrNumber) -> (r: Option<FinalityStatus>)
        ensures
            r == self@.chain.status(id),
    {
        proof {
            use_type_invariant(self);
        }
        self.storage.block_status(id)
    }

    /// The block that `id` names: its header and its transactions.
    pub fn block(&self, id: BlockHashOrNumber) -> (r: Option<BlockRef<'_, T>>)
        ensures
            match (r, self@.chain.record(id)) {
                (Some(b), Some(rec)) => self@.chain.block_shows(b, rec),
                (None, None) => true,
                _ => false,
            },
    {
        proof {
            use_type_invariant(self);
        }
        self.storage.block(id)
    }

    /// The block that `id` names, with the hashes of its transactions in place of the
    /// transactions.
    pub fn block_with_tx_hashes(&self, id: BlockHashOrNumber) -> (r: Option<BlockWithTxHashes>)
        ensures
            match (r, self@.chain.record(id)) {
                (Some(b), Some(rec)) => b.header == rec.header && b.body@
                    == self@.chain.tx_hashes_between(rec.body.tx_offset as int, rec.body.end()),
                (None, None) => true,
                _ => false,
            },
    {
        proof {
            use_type_invariant(self);
        }
        self.storage.block_with_tx_hashes(id)
    }

    /// The committed blocks whose numbers lie between `first` and `last`, both
    /// included, by increasing number. Numbers in between that were never committed
    /// are passed over.
    pub fn blocks_in_range(&self, first: u64, last: u64) -> (r: Vec<BlockRef<'_, T>>)
        ensures
            r@.len() == self@.chain.committed_between(first as int, last as int).len(),
            forall|i: int|
                0 <= i < r@.len() ==> self@.chain.block_shows(
                    #[trigger] r@[i],
                    self@.chain.blocks[self@.chain.committed_between(first as int, last as int)[i]],
                ),
    {
        proof {
            use_type_invariant(self);
        }
        self.storage.blocks_in_range(first, last)
    }

    /// Where the transactions and receipts of the block that `id` names lie in the
    /// flat arrays.
    pub fn block_body_indices(&self, id: BlockHashOrNumber) -> (r: Option<StoredBlockBodyIndices>)
        ensures
            r == self@.chain.body_indices(id),
    {
        proof {
            use_type_invariant(self);
        }
        self.storage.block_body_indices(id)
    }

    /// The transaction that `hash` names.
    pub fn transaction_by_hash(&self, hash: Felt) -> (r: Option<TxRef<'_, T>>)
        ensures
            tx_found(r, self@.chain.tx_by_hash(hash)),
    {
        proof {
            use_type_invariant(self);
        }
        self.storage.transaction_by_hash(hash)
    }

    /// The transactions of the block that `id` names, in order. A known block
    /// without transactions gives an empty list, an unknown block gives `None`.
    pub fn transactions_by_block(&self, id: BlockHashOrNumber) -> (r: Option<Vec<TxRef<'_, T>>>)
        ensures
            match (r, self@.chain.block_txs(id)) {
                (Some(ts), Some(recs)) => txs_show(ts@, recs),
                (None, None) => true,
                _ => false,
            },
    {
        proof {
            use_type_invariant(self);
        }
        self.storage.transactions_by_block(id)
    }

    /// The transaction at position `idx` of the block that `id` names. There is
    /// none if the block is unknown or `idx` is not below its transaction count.
    pub fn transaction_by_block_and_idx(&self, id: BlockHashOrNumber, idx: u64) -> (r: Option<
        TxRef<'_, T>,
    >)
        ensures
            tx_found(r, self@.chain.tx_by_block_and_idx(id, idx)),
    {
        proof {
            use_type_invariant(self);
        }
        self.storage.transaction_by_block_and_idx(id, idx)
    }

    /// The number of transactions in the block that `id` names.
    pub fn transaction_count_by_block(&self, id: BlockHashOrNumber) -> (r: Option<u64>)
        ensures
            r == self@.chain.tx_count(id),
    {
        proof {
            use_type_invariant(self);
        }
        self.storage.transaction_count_by_block(id)
    }

    /// The number and the hash of the block that contains the transaction that
    /// `hash` names.
    pub fn transaction_block_num_and_hash(&self, hash: Felt) -> (r: Option<(u64, Felt)>)
        ensures
            r == self@.chain.tx_block(hash),
    {
        proof {
            use_type_invariant(self);
        }
        self.storage.transaction_block_num_and_hash(hash)
    }

    /// The hashes of the transactions whose numbers lie in `range`, in order.
    /// Numbers in the range that no transaction has yet are passed over.
    pub fn transaction_hashes_in_range(&self, range: Range<u64>) -> (r: Vec<Felt>)
        ensures
            r@ == self@.chain.tx_hashes_between(range.start as int, range.end as int),
    {
        proof {
            use_type_invariant(self);
        }
        self.storage.transaction_hashes_in_range(range)
    }

    /// The finality status of the block that contains the transaction that `hash`
    /// names.
    pub fn transaction_status(&self, hash: Felt) -> (r: Option<FinalityStatus>)
        ensures
            r == self@.chain.tx_status(hash),
    {
        proof {
            use_type_invariant(self);
        }
        self.storage.transaction_status(hash)
    }

    /// The receipt of the transaction that `hash` names.
    pub fn receipt_by_hash(&self, hash: Felt) -> (r: Option<&R>)
        ensures
            r == (match self@.chain.receipt_by_hash(hash) {
                Some(receipt) => Some(&receipt),
                None => None,
            }),
    {
        proof {
            use_type_invariant(self);
        }
        self.storage.receipt_by_hash(hash)
    }

    /// The receipts of the block that `id` names, in the order of its transactions.
    /// A known block without transactions gives an empty slice, an unknown block
    /// gives `None`.
    pub fn receipts_by_block(&self, id: BlockHashOrNumber) -> (r: Option<&[R]>)
        ensures
            match (r, self@.chain.block_receipts(id)) {
                (Some(rs), Some(recs)) => rs@ == recs,
                (None, None) => true,
                _ => false,
            },
    {
        proof {
            use_type_invariant(self);
        }
        self.storage.receipts_by_block(id)
    }

    /// The state diff that the block that `id` names was committed with.
    pub fn state_update(&self, id: BlockHashOrNumber) -> (r: Option<&StateUpdates>)
        ensures
            r == (match self@.chain.state_update(id) {
                Some(u) => Some(&u),
                None => None,
            }),
    {
        proof {
            use_type_invariant(self);
        }
        self.storage.state_update(id)
    }

    /// A view of the latest state.
    pub fn latest(&self) -> (r: StateProvider<'_, C, S>)
        ensures
            r.wf(),
            r.world() == self@.latest,
            r.classes() == self@.classes,
    {
        proof {
            use_type_invariant(self);
        }
        StateProvider::latest(&self.state)
    }

    /// A view of the state as of the block that `id` names: the state right after
    /// that block was committed, whatever was committed or written since. There is
    /// none if the block was never committed.
    pub fn historical(&self, id: BlockHashOrNumber) -> (r: Option<StateProvider<'_, C, S>>)
        ensures
            match (r, self@.state_at(id)) {
                (Some(view), Some(world)) => view.wf() && view.world() == world && view.classes()
                    == self@.classes,
                (None, None) => true,
                _ => false,
            },
    {
        proof {
            use_type_invariant(self);
        }
        let num = match self.storage.block_number_by_id(id) {
            Some(num) => num,
            None => { return None; },
        };
        match self.historical_states.get(num) {
            Some(snapshot) => Some(StateProvider::historical(&self.state, snapshot)),
            None => None,
        }
    }

    /// The state root recorded in the header of the block that `id` names. It is
    /// the stored value; nothing is recomputed.
    pub fn state_root(&self, id: BlockHashOrNumber) -> (r: Option<Felt>)
        ensures
            r == self@.chain.state_root(id),
    {
        proof {
            use_type_invariant(self);
        }
        self.storage.state_root(id)
    }
}

impl<T, R, C, S> Store<T, R, C, S> {
    /// Stores the compiled class `class` under `hash`, in place of any earlier one.
    pub fn set_class(&mut self, hash: Felt, class: C)
        ensures
            final(self)@ == old(self)@.set_class(hash, class),
    {
        proof {
            use_type_invariant(&*self);
        }
        let ghost before = *self;
        let (storage, mut state, historical_states) = self.take();
        state.set_class(hash, class);
        proof {
            let ghost after = Store { storage, state, historical_states };
            after.lemma_history_kept(before);
            assert(after@ =~= before@.set_class(hash, class));
        }
        *self = Store { storage, state, historical_states };
    }

    /// Stores the source class `sierra` under `hash`, in place of any earlier one.
    pub fn set_sierra_class(&mut self, hash: Felt, sierra: S)
        ensures
            final(self)@ == old(self)@.set_sierra_class(hash, sierra),
    {
        proof {
            use_type_invariant(&*self);
        }
        let ghost before = *self;
        let (storage, mut state, historical_states) = self.take();
        state.set_sierra_class(hash, sierra);
        proof {
            let ghost after = Store { storage, state, historical_states };
            after.lemma_history_kept(before);
            assert(after@ =~= before@.set_sierra_class(hash, sierra));
        }
        *self = Store { storage, state, historical_states };
    }

    /// Binds the compiled class hash `compiled_hash` to the class hash `hash`, in
    /// place of any earlier binding.
    pub fn set_compiled_class_hash_of_class_hash(&mut self, hash: Felt, compiled_hash: Felt)
        ensures
            final(self)@ == old(self)@.set_compiled_class_hash(hash, compiled_hash),
    {
        proof {
            use_type_invariant(&*self);
        }
        let ghost before = *self;
        let (storage, mut state, historical_states) = self.take();
        state.set_compiled_class_hash_of_class_hash(hash, compiled_hash);
        proof {
            let ghost after = Store { storage, state, historical_states };
            after.lemma_history_kept(before);
            assert(after@ =~= before@.set_compiled_class_hash(hash, compiled_hash));
        }
        *self = Store { storage, state, historical_states };
    }

    /// Sets slot `storage_key` of contract `address` to `storage_value` in the
    /// latest state. The state as of every committed block stays as it is.
    pub fn set_storage(&mut self, address: Felt, storage_key: Felt, storage_value: Felt)
        ensures
            final(self)@ == old(self)@.set_storage(address, storage_key, storage_value),
    {
        proof {
            use_type_invariant(&*self);
        }
        let ghost before = *self;
        let (storage, mut state, historical_states) = self.take();
        state.set_storage(address, storage_key, storage_value);
        proof {
            let ghost after = Store { storage, state, historical_states };
            after.lemma_history_kept(before);
            assert(after@ =~= before@.set_storage(address, storage_key, storage_value));
        }
        *self = Store { storage, state, historical_states };
    }

    /// Sets the class hash of contract `address` in the latest state. The state as
    /// of every committed block stays as it is.
    pub fn set_class_hash_of_contract(&mut self, address: Felt, class_hash: Felt)
        ensures
            final(self)@ == old(self)@.set_class_hash(address, class_hash),
    {
        proof {
            use_type_invariant(&*self);
        }
        let ghost before = *self;
        let (storage, mut state, historical_states) = self.take();
        state.set_class_hash_of_contract(address, class_hash);
        proof {
            let ghost after = Store { storage, state, historical_states };
            after.lemma_history_kept(before);
            assert(after@ =~= before@.set_class_hash(address, class_hash));
        }
        *self = Store { storage, state, historical_states };
    }

    /// Sets the nonce of contract `address` in the latest state. The state as of
    /// every committed block stays as it is.
    pub fn set_nonce(&mut self, address: Felt, nonce: Felt)
        ensures
            final(self)@ == old(self)@.set_nonce(address, nonce),
    {
        proof {
            use_type_invariant(&*self);
        }
        let ghost before = *self;
        let (storage, mut state, historical_states) = self.take();
        state.set_nonce(address, nonce);
        proof {
            let ghost after = Store { storage, state, historical_states };
            after.lemma_history_kept(before);
            assert(after@ =~= before@.set_nonce(address, nonce));
        }
        *self = Store { storage, state, historical_states };
    }
}

} // verus!
