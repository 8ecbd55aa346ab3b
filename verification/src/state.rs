//! The state store: the latest state of all contracts, the snapshots taken of it,
//! and the class tables.
//!
//! Every storage slot and every contract keeps the chain of its versions. A write
//! touches only the version of the current epoch, and taking a snapshot only closes
//! the epoch, so a snapshot costs nothing and is never changed by a later write.

use crate::felt::Felt;
use crate::felt_map::FeltMap;
use crate::state_model::ClassTables;
use crate::state_model::ContractState;
use crate::state_model::StateModel;
use crate::state_model::WorldState;
use crate::state_model::with_classes;
use crate::state_model::with_declarations;
use crate::state_update::DeclaredClass;
use crate::state_update::StateUpdates;
use crate::versions::ascending;
use crate::versions::latest;
use crate::versions::lemma_recorded;
use crate::versions::lemma_value_at_latest;
use crate::versions::lookup;
use crate::versions::not_after;
use crate::versions::record;
use crate::versions::recorded;
use crate::versions::value_at;
use crate::versions::Version;
use std::collections::HashMap;
use vstd::prelude::*;

verus! {

broadcast use vstd::std_specs::hash::group_hash_axioms;

/// A snapshot of the state: a handle on the state as it was when the snapshot was
/// taken. It is read through the store that issued it.
#[derive(Clone, Copy, Debug)]
pub struct StateSnapshot {
    epoch: u128,
}

impl StateSnapshot {
    /// The number of the snapshot: how many snapshots the store had issued before.
    pub closed spec fn index(self) -> int {
        self.epoch as int
    }
}

/// The state store.
pub struct InMemoryStateDb<C, S> {
    storage: FeltMap<FeltMap<Vec<Version<Felt>>>>,
    contract_state: FeltMap<Vec<Version<ContractState>>>,
    compiled_class_hashes: FeltMap<Felt>,
    compiled_classes: FeltMap<C>,
    sierra_classes: FeltMap<S>,
    epoch: u128,
}

impl<C, S> View for InMemoryStateDb<C, S> {
    type V = StateModel<C, S>;

    closed spec fn view(&self) -> StateModel<C, S> {
        StateModel {
            latest: self.world_at(self.epoch as int),
            snapshots: Seq::new(self.epoch as nat, |e: int| self.world_at(e)),
            classes: ClassTables {
                compiled_class_hashes: self.compiled_class_hashes@,
                compiled_classes: self.compiled_classes@,
                sierra_classes: self.sierra_classes@,
            },
        }
    }
}

impl<C, S> InMemoryStateDb<C, S> {
    /// The versions of slot `key` of contract `address`.
    pub closed spec fn slot_chain(&self, address: Felt, key: Felt) -> Seq<Version<Felt>> {
        if self.storage@.contains_key(address) && self.storage@[address]@.contains_key(key) {
            self.storage@[address]@[key]@
        } else {
            Seq::empty()
        }
    }

    /// The versions of contract `address`.
    pub closed spec fn contract_chain(&self, address: Felt) -> Seq<Version<ContractState>> {
        if self.contract_state@.contains_key(address) {
            self.contract_state@[address]@
        } else {
            Seq::empty()
        }
    }

    /// The state as of `epoch`.
    pub closed spec fn world_at(&self, epoch: int) -> WorldState {
        WorldState {
            storage: Map::new(
                |p: (Felt, Felt)| value_at(self.slot_chain(p.0, p.1), epoch) is Some,
                |p: (Felt, Felt)| value_at(self.slot_chain(p.0, p.1), epoch).unwrap(),
            ),
            contracts: Map::new(
                |a: Felt| value_at(self.contract_chain(a), epoch) is Some,
                |a: Felt| value_at(self.contract_chain(a), epoch).unwrap(),
            ),
        }
    }

    /// The invariant of the store: the epochs of every chain increase, and none lies
    /// after the current epoch.
    pub closed spec fn wf(&self) -> bool {
        &&& forall|a: Felt, k: Felt|
            ascending(#[trigger] self.slot_chain(a, k)) && not_after(
                self.slot_chain(a, k),
                self.epoch as int,
            )
        &&& forall|a: Felt|
            ascending(#[trigger] self.contract_chain(a)) && not_after(
                self.contract_chain(a),
                self.epoch as int,
            )
    }

    /// A write to one slot in the current epoch changes that slot of the latest
    /// state and nothing else.
    proof fn lemma_slot_written(before: Self, after: Self, address: Felt, key: Felt, value: Felt)
        requires
            before.wf(),
            after.epoch == before.epoch,
            after.slot_chain(address, key) == recorded(
                before.slot_chain(address, key),
                before.epoch,
                value,
            ),
            forall|a: Felt, k: Felt|
                !(a == address && k == key) ==> #[trigger] after.slot_chain(a, k)
                    == before.slot_chain(a, k),
            forall|a: Felt| #[trigger] after.contract_chain(a) == before.contract_chain(a),
            after.compiled_class_hashes@ == before.compiled_class_hashes@,
            after.compiled_classes@ == before.compiled_classes@,
            after.sierra_classes@ == before.sierra_classes@,
        ensures
            after.wf(),
            after@ == before@.set_storage(address, key, value),
    {
        lemma_recorded(before.slot_chain(address, key), before.epoch, value);
        assert forall|a: Felt, k: Felt|
            ascending(#[trigger] after.slot_chain(a, k)) && not_after(
                after.slot_chain(a, k),
                after.epoch as int,
            ) by {
            assert(ascending(before.slot_chain(a, k)));
        }
        assert forall|a: Felt|
            ascending(#[trigger] after.contract_chain(a)) && not_after(
                after.contract_chain(a),
                after.epoch as int,
            ) by {
            assert(ascending(before.contract_chain(a)));
        }
        assert forall|e: int| 0 <= e < before.epoch implies after.world_at(e) == before.world_at(
            e,
        ) by {
            assert(after.world_at(e).storage =~= before.world_at(e).storage);
            assert(after.world_at(e).contracts =~= before.world_at(e).contracts);
        }
        let now = before.epoch as int;
        assert(after.world_at(now).storage =~= before.world_at(now).storage.insert(
            (address, key),
            value,
        ));
        assert(after.world_at(now).contracts =~= before.world_at(now).contracts);
        assert(after@.snapshots =~= before@.snapshots);
        assert(after@ =~= before@.set_storage(address, key, value));
    }

    /// A write to one contract in the current epoch changes that contract of the
    /// latest state and nothing else.
    proof fn lemma_contract_written(before: Self, after: Self, address: Felt, value: ContractState)
        requires
            before.wf(),
            after.epoch == before.epoch,
            after.contract_chain(address) == recorded(
                before.contract_chain(address),
                before.epoch,
                value,
            ),
            forall|a: Felt| a != address ==> #[trigger] after.contract_chain(a) == before.contract_chain(a),
            forall|a: Felt, k: Felt| #[trigger] after.slot_chain(a, k) == before.slot_chain(a, k),
            after.compiled_class_hashes@ == before.compiled_class_hashes@,
            after.compiled_classes@ == before.compiled_classes@,
            after.sierra_classes@ == before.sierra_classes@,
        ensures
            after.wf(),
            after@ == (StateModel {
                latest: WorldState {
                    contracts: before@.latest.contracts.insert(address, value),
                    ..before@.latest
                },
                ..before@
            }),
    {
        lemma_recorded(before.contract_chain(address), before.epoch, value);
        assert forall|a: Felt, k: Felt|
            ascending(#[trigger] after.slot_chain(a, k)) && not_after(
                after.slot_chain(a, k),
                after.epoch as int,
            ) by {
            assert(ascending(before.slot_chain(a, k)));
        }
        assert forall|a: Felt|
            ascending(#[trigger] after.contract_chain(a)) && not_after(
                after.contract_chain(a),
                after.epoch as int,
            ) by {
            assert(ascending(before.contract_chain(a)));
        }
        assert forall|e: int| 0 <= e < before.epoch implies after.world_at(e) == before.world_at(
            e,
        ) by {
            assert(after.world_at(e).storage =~= before.world_at(e).storage);
            assert(after.world_at(e).contracts =~= before.world_at(e).contracts);
        }
        let now = before.epoch as int;
        assert(after.world_at(now).contracts =~= before.world_at(now).contracts.insert(
            address,
            value,
        ));
        assert(after.world_at(now).storage =~= before.world_at(now).storage);
        assert(after@.snapshots =~= before@.snapshots);
        assert(after@ =~= (StateModel {
            latest: WorldState {
                contracts: before@.latest.contracts.insert(address, value),
                ..before@.latest
            },
            ..before@
        }));
    }

    /// A store in which nothing was written and of which no snapshot was taken.
    pub fn new() -> (r: Self)
        ensures
            r.wf(),
            r@ == StateModel::<C, S>::empty(),
    {
        let r = InMemoryStateDb {
            storage: FeltMap::new(),
            contract_state: FeltMap::new(),
            compiled_class_hashes: FeltMap::new(),
            compiled_classes: FeltMap::new(),
            sierra_classes: FeltMap::new(),
            epoch: 0,
        };
        proof {
            assert(r@.latest.storage =~= WorldState::empty().storage);
            assert(r@.latest.contracts =~= WorldState::empty().contracts);
            assert(r@ =~= StateModel::<C, S>::empty());
        }
        r
    }

    /// The value that slot `key` of contract `address` shows as of `epoch`.
    fn read_slot(&self, address: Felt, key: Felt, epoch: u128) -> (r: Option<Felt>)
        requires
            self.wf(),
        ensures
            r == value_at(self.slot_chain(address, key), epoch as int),
    {
        proof {
            assert(ascending(self.slot_chain(address, key)));
        }
        match self.storage.get(address) {
            Some(slots) => match slots.get(key) {
                Some(chain) => lookup(chain, epoch),
                None => None,
            },
            None => None,
        }
    }

    /// What contract `address` shows as of `epoch`.
    fn read_contract(&self, address: Felt, epoch: u128) -> (r: Option<ContractState>)
        requires
            self.wf(),
        ensures
            r == value_at(self.contract_chain(address), epoch as int),
    {
        proof {
            assert(ascending(self.contract_chain(address)));
        }
        match self.contract_state.get(address) {
            Some(chain) => lookup(chain, epoch),
            None => None,
        }
    }

    /// What contract `address` shows in the latest state.
    fn latest_contract(&self, address: Felt) -> (r: Option<ContractState>)
        requires
            self.wf(),
        ensures
            r == self@.latest.contracts.get(address),
    {
        proof {
            lemma_value_at_latest(self.contract_chain(address), self.epoch as int);
        }
        match self.contract_state.get(address) {
            Some(chain) => latest(chain),
            None => None,
        }
    }

    /// Reading as of the epoch of a snapshot shows what the snapshot shows.
    proof fn lemma_world_of(&self, snapshot: StateSnapshot)
        requires
            self.wf(),
        ensures
            self.world_at(snapshot.index()) == self@.at(snapshot.index()),
    {
        let e = snapshot.index();
        if e >= self.epoch {
            assert forall|a: Felt, k: Felt|
                value_at(#[trigger] self.slot_chain(a, k), e) == value_at(
                    self.slot_chain(a, k),
                    self.epoch as int,
                ) by {
                lemma_value_at_latest(self.slot_chain(a, k), e);
                lemma_value_at_latest(self.slot_chain(a, k), self.epoch as int);
            }
            assert forall|a: Felt|
                value_at(#[trigger] self.contract_chain(a), e) == value_at(
                    self.contract_chain(a),
                    self.epoch as int,
                ) by {
                lemma_value_at_latest(self.contract_chain(a), e);
                lemma_value_at_latest(self.contract_chain(a), self.epoch as int);
            }
            assert(self.world_at(e).storage =~= self.world_at(self.epoch as int).storage);
            assert(self.world_at(e).contracts =~= self.world_at(self.epoch as int).contracts);
        }
    }

    /// The value of slot `key` of contract `address` in the latest state.
    pub fn storage(&self, address: Felt, key: Felt) -> (r: Option<Felt>)
        requires
            self.wf(),
        ensures
            r == self@.latest.storage_of(address, key),
    {
        proof {
            lemma_value_at_latest(self.slot_chain(address, key), self.epoch as int);
        }
        match self.storage.get(address) {
            Some(slots) => match slots.get(key) {
                Some(chain) => latest(chain),
                None => None,
            },
            None => None,
        }
    }

    /// The nonce of contract `address` in the latest state.
    pub fn nonce(&self, address: Felt) -> (r: Option<Felt>)
        requires
            self.wf(),
        ensures
            r == self@.latest.nonce_of(address),
    {
        match self.latest_contract(address) {
            Some(c) => Some(c.nonce),
            None => None,
        }
    }

    /// The class hash of contract `address` in the latest state.
    pub fn class_hash_of_contract(&self, address: Felt) -> (r: Option<Felt>)
        requires
            self.wf(),
        ensures
            r == self@.latest.class_hash_of(address),
    {
        match self.latest_contract(address) {
            Some(c) => Some(c.class_hash),
            None => None,
        }
    }

    /// The value of slot `key` of contract `address` that `snapshot` shows.
    pub fn storage_at(&self, snapshot: StateSnapshot, address: Felt, key: Felt) -> (r: Option<Felt>)
        requires
            self.wf(),
        ensures
            r == self@.at(snapshot.index()).storage_of(address, key),
    {
        proof {
            self.lemma_world_of(snapshot);
        }
        self.read_slot(address, key, snapshot.epoch)
    }

    /// The nonce of contract `address` that `snapshot` shows.
    pub fn nonce_at(&self, snapshot: StateSnapshot, address: Felt) -> (r: Option<Felt>)
        requires
            self.wf(),
        ensures
            r == self@.at(snapshot.index()).nonce_of(address),
    {
        proof {
            self.lemma_world_of(snapshot);
        }
        match self.read_contract(address, snapshot.epoch) {
            Some(c) => Some(c.nonce),
            None => None,
        }
    }

    /// The class hash of contract `address` that `snapshot` shows.
    pub fn class_hash_at(&self, snapshot: StateSnapshot, address: Felt) -> (r: Option<Felt>)
        requires
            self.wf(),
        ensures
            r == self@.at(snapshot.index()).class_hash_of(address),
    {
        proof {
            self.lemma_world_of(snapshot);
        }
        match self.read_contract(address, snapshot.epoch) {
            Some(c) => Some(c.class_hash),
            None => None,
        }
    }

    /// The compiled class stored under `hash`.
    pub fn class(&self, hash: Felt) -> (r: Option<&C>)
        ensures
            r == (match self@.classes.compiled_classes.get(hash) {
                Some(c) => Some(&c),
                None => None,
            }),
    {
        self.compiled_classes.get(hash)
    }

    /// The source class stored under `hash`.
    pub fn sierra_class(&self, hash: Felt) -> (r: Option<&S>)
        ensures
            r == (match self@.classes.sierra_classes.get(hash) {
                Some(c) => Some(&c),
                None => None,
            }),
    {
        self.sierra_classes.get(hash)
    }

    /// The compiled class hash bound to the class hash `hash`.
    pub fn compiled_class_hash_of_class_hash(&self, hash: Felt) -> (r: Option<Felt>)
        ensures
            r == self@.classes.compiled_class_hashes.get(hash),
    {
        match self.compiled_class_hashes.get(hash) {
            Some(h) => Some(*h),
            None => None,
        }
    }

    /// Sets slot `key` of contract `address` to `value` in the latest state. No
    /// snapshot changes.
    pub fn set_storage(&mut self, address: Felt, key: Felt, value: Felt)
        requires
            old(self).wf(),
        ensures
            final(self).wf(),
            final(self)@ == old(self)@.set_storage(address, key, value),
    {
        let ghost before = *self;
        let mut slots = match self.storage.remove(address) {
            Some(slots) => slots,
            None => FeltMap::new(),
        };
        let mut chain = match slots.remove(key) {
            Some(chain) => chain,
            None => Vec::new(),
        };
        proof {
            assert(chain@ == before.slot_chain(address, key));
            assert(ascending(before.slot_chain(address, key)));
        }
        record(&mut chain, self.epoch, value);
        slots.insert(key, chain);
        self.storage.insert(address, slots);
        proof {
            assert forall|a: Felt, k: Felt| !(a == address && k == key) implies #[trigger] self.slot_chain(
                a,
                k,
            ) == before.slot_chain(a, k) by {
                if a == address {
                    assert(self.storage@[a]@.contains_key(k) == (before.storage@.contains_key(a)
                        && before.storage@[a]@.contains_key(k)));
                }
            }
            Self::lemma_slot_written(before, *self, address, key, value);
        }
    }

    /// Writes what is known of contract `address` in the latest state.
    fn set_contract(&mut self, address: Felt, value: ContractState)
        requires
            old(self).wf(),
        ensures
            final(self).wf(),
            final(self)@ == (StateModel {
                latest: WorldState {
                    contracts: old(self)@.latest.contracts.insert(address, value),
                    ..old(self)@.latest
                },
                ..old(self)@
            }),
    {
        let ghost before = *self;
        let mut chain = match self.contract_state.remove(address) {
            Some(chain) => chain,
            None => Vec::new(),
        };
        proof {
            assert(chain@ == before.contract_chain(address));
            assert(ascending(before.contract_chain(address)));
        }
        record(&mut chain, self.epoch, value);
        self.contract_state.insert(address, chain);
        proof {
            Self::lemma_contract_written(before, *self, address, value);
        }
    }

    /// What is known of contract `address` in the latest state; zero nonce and zero
    /// class hash if it was never written.
    fn contract_or_default(&self, address: Felt) -> (r: ContractState)
        requires
            self.wf(),
        ensures
            r == self@.latest.contract_or_default(address),
    {
        match self.latest_contract(address) {
            Some(c) => c,
            None => ContractState { nonce: Felt::zero(), class_hash: Felt::zero() },
        }
    }

    /// Sets the nonce of contract `address` in the latest state. No snapshot changes.
    pub fn set_nonce(&mut self, address: Felt, nonce: Felt)
        requires
            old(self).wf(),
        ensures
            final(self).wf(),
            final(self)@ == old(self)@.set_nonce(address, nonce),
    {
        let current = self.contract_or_default(address);
        self.set_contract(address, ContractState { nonce, class_hash: current.class_hash });
    }

    /// Sets the class hash of contract `address` in the latest state. No snapshot
    /// changes.
    pub fn set_class_hash_of_contract(&mut self, address: Felt, class_hash: Felt)
        requires
            old(self).wf(),
        ensures
            final(self).wf(),
            final(self)@ == old(self)@.set_class_hash(address, class_hash),
    {
        let current = self.contract_or_default(address);
        self.set_contract(address, ContractState { nonce: current.nonce, class_hash });
    }

    /// Stores the compiled class `class` under `hash`, in place of any earlier one.
    pub fn set_class(&mut self, hash: Felt, class: C)
        requires
            old(self).wf(),
        ensures
            final(self).wf(),
            final(self)@ == old(self)@.set_class(hash, class),
    {
        let ghost before = *self;
        self.compiled_classes.insert(hash, class);
        proof {
            self.lemma_tables_changed(before);
            assert(self@ =~= before@.set_class(hash, class));
        }
    }

    /// Stores the source class `class` under `hash`, in place of any earlier one.
    pub fn set_sierra_class(&mut self, hash: Felt, class: S)
        requires
            old(self).wf(),
        ensures
            final(self).wf(),
            final(self)@ == old(self)@.set_sierra_class(hash, class),
    {
        let ghost before = *self;
        self.sierra_classes.insert(hash, class);
        proof {
            self.lemma_tables_changed(before);
            assert(self@ =~= before@.set_sierra_class(hash, class));
        }
    }

    /// Binds the compiled class hash `compiled_hash` to the class hash `hash`, in
    /// place of any earlier binding.
    pub fn set_compiled_class_hash_of_class_hash(&mut self, hash: Felt, compiled_hash: Felt)
        requires
            old(self).wf(),
        ensures
            final(self).wf(),
            final(self)@ == old(self)@.set_compiled_class_hash(hash, compiled_hash),
    {
        let ghost before = *self;
        self.compiled_class_hashes.insert(hash, compiled_hash);
        proof {
            self.lemma_tables_changed(before);
            assert(self@ =~= before@.set_compiled_class_hash(hash, compiled_hash));
        }
    }

    /// A change to the class tables alone leaves the latest state and every snapshot
    /// as they were.
    proof fn lemma_tables_changed(&self, before: Self)
        requires
            before.wf(),
            self.storage == before.storage,
            self.contract_state == before.contract_state,
            self.epoch == before.epoch,
        ensures
            self.wf(),
            self@.latest == before@.latest,
            self@.snapshots == before@.snapshots,
    {
        assert forall|a: Felt, k: Felt| #[trigger] self.slot_chain(a, k) == before.slot_chain(a, k) by {}
        assert forall|a: Felt| #[trigger] self.contract_chain(a) == before.contract_chain(a) by {}
        assert forall|e: int| self.world_at(e) == before.world_at(e) by {
            assert(self.world_at(e).storage =~= before.world_at(e).storage);
            assert(self.world_at(e).contracts =~= before.world_at(e).contracts);
        }
        assert(self@.snapshots =~= before@.snapshots);
    }

    /// Applies a whole state diff to the latest state and stores the classes it
    /// declares. No snapshot changes.
    pub fn insert_updates(
        &mut self,
        updates: &StateUpdates,
        declared_compiled_classes: Vec<DeclaredClass<C>>,
        declared_sierra_classes: Vec<DeclaredClass<S>>,
    )
        requires
            old(self).wf(),
        ensures
            final(self).wf(),
            final(self)@ == old(self)@.apply(
                *updates,
                declared_compiled_classes@,
                declared_sierra_classes@,
            ),
    {
        let ghost start = self@;
        let mut i: usize = 0;
        while i < updates.nonce_updates.len()
            invariant
                self.wf(),
                i <= updates.nonce_updates@.len(),
                self@ == (StateModel {
                    latest: start.latest.apply_nonces(updates.nonce_updates@.take(i as int)),
                    ..start
                }),
            decreases updates.nonce_updates@.len() - i,
        {
            let e = updates.nonce_updates[i];
            self.set_nonce(e.address, e.nonce);
            proof {
                assert(updates.nonce_updates@.take(i + 1).drop_last() =~= updates.nonce_updates@.take(
                    i as int,
                ));
            }
            i = i + 1;
        }
        proof {
            assert(updates.nonce_updates@.take(i as int) =~= updates.nonce_updates@);
        }
        let ghost nonced = self@;
        i = 0;
        while i < updates.contract_updates.len()
            invariant
                self.wf(),
                i <= updates.contract_updates@.len(),
                self@ == (StateModel {
                    latest: nonced.latest.apply_class_hashes(
                        updates.contract_updates@.take(i as int),
                    ),
                    ..nonced
                }),
            decreases updates.contract_updates@.len() - i,
        {
            let e = updates.contract_updates[i];
            self.set_class_hash_of_contract(e.address, e.class_hash);
            proof {
                assert(updates.contract_updates@.take(i + 1).drop_last()
                    =~= updates.contract_updates@.take(i as int));
            }
            i = i + 1;
        }
        proof {
            assert(updates.contract_updates@.take(i as int) =~= updates.contract_updates@);
        }
        let ghost bound = self@;
        i = 0;
        while i < updates.storage_updates.len()
            invariant
                self.wf(),
                i <= updates.storage_updates@.len(),
                self@ == (StateModel {
                    latest: bound.latest.apply_storage(updates.storage_updates@.take(i as int)),
                    ..bound
                }),
            decreases updates.storage_updates@.len() - i,
        {
            let e = updates.storage_updates[i];
            self.set_storage(e.address, e.key, e.value);
            proof {
                assert(updates.storage_updates@.take(i + 1).drop_last()
                    =~= updates.storage_updates@.take(i as int));
            }
            i = i + 1;
        }
        proof {
            assert(updates.storage_updates@.take(i as int) =~= updates.storage_updates@);
        }
        let ghost written = self@;
        i = 0;
        while i < updates.declared_classes.len()
            invariant
                self.wf(),
                i <= updates.declared_classes@.len(),
                self@ == (StateModel {
                    classes: ClassTables {
                        compiled_class_hashes: with_declarations(
                            written.classes.compiled_class_hashes,
                            updates.declared_classes@.take(i as int),
                        ),
                        ..written.classes
                    },
                    ..written
                }),
            decreases updates.declared_classes@.len() - i,
        {
            let e = updates.declared_classes[i];
            self.set_compiled_class_hash_of_class_hash(e.class_hash, e.compiled_class_hash);
            proof {
                assert(updates.declared_classes@.take(i + 1).drop_last()
                    =~= updates.declared_classes@.take(i as int));
            }
            i = i + 1;
        }
        proof {
            assert(updates.declared_classes@.take(i as int) =~= updates.declared_classes@);
        }
        let ghost declared = self@;
        for class in it: declared_sierra_classes
            invariant
                self.wf(),
                it.seq() == declared_sierra_classes@,
                self@ == (StateModel {
                    classes: ClassTables {
                        sierra_classes: with_classes(
                            declared.classes.sierra_classes,
                            declared_sierra_classes@.take(it.index() as int),
                        ),
                        ..declared.classes
                    },
                    ..declared
                }),
        {
            let ghost k = it.index() as int;
            proof {
                assert(declared_sierra_classes@.take(k + 1).drop_last()
                    =~= declared_sierra_classes@.take(k));
            }
            self.set_sierra_class(class.class_hash, class.class);
        }
        proof {
            assert(declared_sierra_classes@.take(declared_sierra_classes@.len() as int)
                =~= declared_sierra_classes@);
        }
        let ghost sourced = self@;
        for class in it: declared_compiled_classes
            invariant
                self.wf(),
                it.seq() == declared_compiled_classes@,
                self@ == (StateModel {
                    classes: ClassTables {
                        compiled_classes: with_classes(
                            sourced.classes.compiled_classes,
                            declared_compiled_classes@.take(it.index() as int),
                        ),
                        ..sourced.classes
                    },
                    ..sourced
                }),
        {
            let ghost k = it.index() as int;
            proof {
                assert(declared_compiled_classes@.take(k + 1).drop_last()
                    =~= declared_compiled_classes@.take(k));
            }
            self.set_class(class.class_hash, class.class);
        }
        proof {
            assert(declared_compiled_classes@.take(declared_compiled_classes@.len() as int)
                =~= declared_compiled_classes@);
            assert(self@ =~= start.apply(
                *updates,
                declared_compiled_classes@,
                declared_sierra_classes@,
            ));
        }
    }

    /// How many snapshots were taken.
    pub fn snapshot_count(&self) -> (r: u128)
        ensures
            r == self@.snapshots.len(),
    {
        self.epoch
    }

    /// Takes a snapshot of the latest state. The snapshot shows that state from now
    /// on, whatever is written later; the snapshots taken before are unchanged.
    pub fn create_snapshot(&mut self) -> (r: StateSnapshot)
        requires
            old(self).wf(),
            old(self)@.snapshots.len() < u128::MAX,
        ensures
            final(self).wf(),
            final(self)@ == old(self)@.snapshot(),
            r.index() == old(self)@.snapshots.len(),
    {
        let ghost before = *self;
        let snapshot = StateSnapshot { epoch: self.epoch };
        self.epoch = self.epoch + 1;
        proof {
            assert forall|a: Felt, k: Felt| #[trigger] self.slot_chain(a, k) == before.slot_chain(a, k) by {}
            assert forall|a: Felt| #[trigger] self.contract_chain(a) == before.contract_chain(a) by {}
            assert forall|a: Felt, k: Felt|
                ascending(#[trigger] self.slot_chain(a, k)) && not_after(
                    self.slot_chain(a, k),
                    self.epoch as int,
                ) by {
                assert(ascending(before.slot_chain(a, k)));
            }
            assert forall|a: Felt|
                ascending(#[trigger] self.contract_chain(a)) && not_after(
                    self.contract_chain(a),
                    self.epoch as int,
                ) by {
                assert(ascending(before.contract_chain(a)));
            }
            assert forall|e: int| self.world_at(e) == before.world_at(e) by {
                assert(self.world_at(e).storage =~= before.world_at(e).storage);
                assert(self.world_at(e).contracts =~= before.world_at(e).contracts);
            }
            before.lemma_world_of(StateSnapshot { epoch: self.epoch });
            assert(self@.snapshots =~= before@.snapshots.push(before@.latest));
            assert(self@ =~= before@.snapshot());
        }
        snapshot
    }
}

/// The registry of snapshots: for each committed block, the snapshot taken when it was
/// committed.
pub struct HistoricalStates {
    snapshots: HashMap<u64, StateSnapshot>,
}

impl View for HistoricalStates {
    type V = Map<u64, int>;

    /// The number of the snapshot registered for each block number.
    closed spec fn view(&self) -> Map<u64, int> {
        Map::new(
            |n: u64| self.snapshots@.contains_key(n),
            |n: u64| self.snapshots@[n].index(),
        )
    }
}

impl HistoricalStates {
    /// A registry without snapshots.
    pub fn new() -> (r: Self)
        ensures
            r@ == Map::<u64, int>::empty(),
    {
        let r = HistoricalStates { snapshots: HashMap::new() };
        assert(r@ =~= Map::<u64, int>::empty());
        r
    }

    /// Registers `snapshot` for block `block_number`, for which none may be
    /// registered yet.
    pub fn insert(&mut self, block_number: u64, snapshot: StateSnapshot)
        requires
            !old(self)@.contains_key(block_number),
        ensures
            final(self)@ == old(self)@.insert(block_number, snapshot.index()),
    {
        self.snapshots.insert(block_number, snapshot);
        assert(self@ =~= old(self)@.insert(block_number, snapshot.index()));
    }

    /// The snapshot registered for block `block_number`.
    pub fn get(&self, block_number: u64) -> (r: Option<StateSnapshot>)
        ensures
            match r {
                Some(snapshot) => self@.contains_key(block_number) && snapshot.index()
                    == self@[block_number],
                None => !self@.contains_key(block_number),
            },
    {
        match self.snapshots.get(&block_number) {
            Some(snapshot) => Some(*snapshot),
            None => None,
        }
    }
}

/// A read-only view of the state: of the latest state, or of the state that one
/// snapshot shows.
pub struct StateProvider<'a, C, S> {
    db: &'a InMemoryStateDb<C, S>,
    snapshot: Option<StateSnapshot>,
}

impl<'a, C, S> StateProvider<'a, C, S> {
    /// Whether the store behind the view is well formed.
    pub closed spec fn wf(self) -> bool {
        self.db.wf()
    }

    /// The state that the view shows.
    pub closed spec fn world(self) -> WorldState {
        match self.snapshot {
            Some(snapshot) => self.db@.at(snapshot.index()),
            None => self.db@.latest,
        }
    }

    /// The class tables that the view shows. They are the same in every view.
    pub closed spec fn classes(self) -> ClassTables<C, S> {
        self.db@.classes
    }

    /// The view of the latest state of `db`.
    pub fn latest(db: &'a InMemoryStateDb<C, S>) -> (r: Self)
        requires
            db.wf(),
        ensures
            r.wf(),
            r.world() == db@.latest,
            r.classes() == db@.classes,
    {
        StateProvider { db, snapshot: None }
    }

    /// The view of the state that `snapshot` of `db` shows.
    pub fn historical(db: &'a InMemoryStateDb<C, S>, snapshot: StateSnapshot) -> (r: Self)
        requires
            db.wf(),
        ensures
            r.wf(),
            r.world() == db@.at(snapshot.index()),
            r.classes() == db@.classes,
    {
        StateProvider { db, snapshot: Some(snapshot) }
    }

    /// The value of slot `key` of contract `address`, if it was written.
    pub fn storage(&self, address: Felt, key: Felt) -> (r: Option<Felt>)
        requires
            self.wf(),
        ensures
            r == self.world().storage_of(address, key),
    {
        match self.snapshot {
            Some(snapshot) => self.db.storage_at(snapshot, address, key),
            None => self.db.storage(address, key),
        }
    }

    /// The nonce of contract `address`, if the contract was written.
    pub fn nonce(&self, address: Felt) -> (r: Option<Felt>)
        requires
            self.wf(),
        ensures
            r == self.world().nonce_of(address),
    {
        match self.snapshot {
            Some(snapshot) => self.db.nonce_at(snapshot, address),
            None => self.db.nonce(address),
        }
    }

    /// The class hash of contract `address`, if the contract was written.
    pub fn class_hash_of_contract(&self, address: Felt) -> (r: Option<Felt>)
        requires
            self.wf(),
        ensures
            r == self.world().class_hash_of(address),
    {
        match self.snapshot {
            Some(snapshot) => self.db.class_hash_at(snapshot, address),
            None => self.db.class_hash_of_contract(address),
        }
    }

    /// The compiled class stored under `hash`.
    pub fn class(&self, hash: Felt) -> (r: Option<&C>)
        ensures
            r == (match self.classes().compiled_classes.get(hash) {
                Some(c) => Some(&c),
                None => None,
            }),
    {
        self.db.class(hash)
    }

    /// The source class stored under `hash`.
    pub fn sierra_class(&self, hash: Felt) -> (r: Option<&S>)
        ensures
            r == (match self.classes().sierra_classes.get(hash) {
                Some(c) => Some(&c),
                None => None,
            }),
    {
        self.db.sierra_class(hash)
    }

    /// The compiled class hash bound to the class hash `hash`.
    pub fn compiled_class_hash_of_class_hash(&self, hash: Felt) -> (r: Option<Felt>)
        ensures
            r == self.classes().compiled_class_hashes.get(hash),
    {
        self.db.compiled_class_hash_of_class_hash(hash)
    }
}

} // verus!
