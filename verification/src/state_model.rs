//! The mathematical model of contract state: what the world looks like at one moment,
//! what a state diff does to it, and how the latest state and its snapshots relate.

use crate::felt::Felt;
use crate::state_update::ClassDeclaration;
use crate::state_update::ClassHashUpdate;
use crate::state_update::DeclaredClass;
use crate::state_update::NonceUpdate;
use crate::state_update::StateUpdates;
use crate::state_update::StorageEntry;
use vstd::prelude::*;

verus! {

/// What is known of one contract: its nonce and the class it is an instance of.
///
/// A contract comes into being with the first write to either field; the other field
/// is then zero.
#[derive(Clone, Copy, Debug, PartialEq, Eq, Structural)]
pub struct ContractState {
    pub nonce: Felt,
    pub class_hash: Felt,
}

/// The state of all contracts at one moment.
#[verifier::ext_equal]
pub struct WorldState {
    /// The value of each storage slot that was ever written, by contract address
    /// and storage key.
    pub storage: Map<(Felt, Felt), Felt>,
    /// The nonce and class of each contract that was ever written.
    pub contracts: Map<Felt, ContractState>,
}

impl WorldState {
    /// The state in which nothing was written.
    pub open spec fn empty() -> Self {
        WorldState { storage: Map::empty(), contracts: Map::empty() }
    }

    /// The value of slot `key` of contract `address`, if it was ever written.
    pub open spec fn storage_of(self, address: Felt, key: Felt) -> Option<Felt> {
        self.storage.get((address, key))
    }

    /// The nonce of contract `address`, if the contract was ever written.
    pub open spec fn nonce_of(self, address: Felt) -> Option<Felt> {
        match self.contracts.get(address) {
            Some(c) => Some(c.nonce),
            None => None,
        }
    }

    /// The class hash of contract `address`, if the contract was ever written.
    pub open spec fn class_hash_of(self, address: Felt) -> Option<Felt> {
        match self.contracts.get(address) {
            Some(c) => Some(c.class_hash),
            None => None,
        }
    }

    /// What is known of contract `address`; zero nonce and zero class hash if it
    /// was never written.
    pub open spec fn contract_or_default(self, address: Felt) -> ContractState {
        if self.contracts.contains_key(address) {
            self.contracts[address]
        } else {
            ContractState { nonce: Felt::spec_zero(), class_hash: Felt::spec_zero() }
        }
    }

    /// The state after slot `key` of contract `address` was set to `value`.
    pub open spec fn set_storage(self, address: Felt, key: Felt, value: Felt) -> Self {
        WorldState { storage: self.storage.insert((address, key), value), ..self }
    }

    /// The state after the nonce of contract `address` was set to `nonce`.
    pub open spec fn set_nonce(self, address: Felt, nonce: Felt) -> Self {
        WorldState {
            contracts: self.contracts.insert(
                address,
                ContractState { nonce, ..self.contract_or_default(address) },
            ),
            ..self
        }
    }

    /// The state after the class hash of contract `address` was set to `class_hash`.
    pub open spec fn set_class_hash(self, address: Felt, class_hash: Felt) -> Self {
        WorldState {
            contracts: self.contracts.insert(
                address,
                ContractState { class_hash, ..self.contract_or_default(address) },
            ),
            ..self
        }
    }

    /// The state after the storage writes `entries` were made, front to back.
    pub open spec fn apply_storage(self, entries: Seq<StorageEntry>) -> Self
        decreases entries.len(),
    {
        if entries.len() == 0 {
            self
        } else {
            let e = entries.last();
            self.apply_storage(entries.drop_last()).set_storage(e.address, e.key, e.value)
        }
    }

    /// The state after the nonce writes `entries` were made, front to back.
    pub open spec fn apply_nonces(self, entries: Seq<NonceUpdate>) -> Self
        decreases entries.len(),
    {
        if entries.len() == 0 {
            self
        } else {
            let e = entries.last();
            self.apply_nonces(entries.drop_last()).set_nonce(e.address, e.nonce)
        }
    }

    /// The state after the class bindings `entries` were made, front to back.
    pub open spec fn apply_class_hashes(self, entries: Seq<ClassHashUpdate>) -> Self
        decreases entries.len(),
    {
        if entries.len() == 0 {
            self
        } else {
            let e = entries.last();
            self.apply_class_hashes(entries.drop_last()).set_class_hash(e.address, e.class_hash)
        }
    }

    /// The state after a whole diff was applied: its nonce writes, then its class
    /// bindings, then its storage writes.
    pub open spec fn apply(self, updates: StateUpdates) -> Self {
        self.apply_nonces(updates.nonce_updates@).apply_class_hashes(
            updates.contract_updates@,
        ).apply_storage(updates.storage_updates@)
    }
}

/// The class tables. They are shared by the latest state and all snapshots: a class
/// is named by its hash and does not change once declared.
#[verifier::ext_equal]
pub struct ClassTables<C, S> {
    /// The compiled class hash of each declared class.
    pub compiled_class_hashes: Map<Felt, Felt>,
    /// The compiled class of each class hash.
    pub compiled_classes: Map<Felt, C>,
    /// The source class of each class hash.
    pub sierra_classes: Map<Felt, S>,
}

/// The map `base` after the artifacts `classes` were stored, front to back.
pub open spec fn with_classes<A>(base: Map<Felt, A>, classes: Seq<DeclaredClass<A>>) -> Map<Felt, A>
    decreases classes.len(),
{
    if classes.len() == 0 {
        base
    } else {
        with_classes(base, classes.drop_last()).insert(
            classes.last().class_hash,
            classes.last().class,
        )
    }
}

/// The map `base` after the declarations `decls` were stored, front to back.
pub open spec fn with_declarations(base: Map<Felt, Felt>, decls: Seq<ClassDeclaration>) -> Map<
    Felt,
    Felt,
>
    decreases decls.len(),
{
    if decls.len() == 0 {
        base
    } else {
        with_declarations(base, decls.drop_last()).insert(
            decls.last().class_hash,
            decls.last().compiled_class_hash,
        )
    }
}

impl<C, S> ClassTables<C, S> {
    /// The tables with no class in them.
    pub open spec fn empty() -> Self {
        ClassTables {
            compiled_class_hashes: Map::empty(),
            compiled_classes: Map::empty(),
            sierra_classes: Map::empty(),
        }
    }

    /// The tables after the declarations of a diff and the artifacts that came with
    /// it were stored.
    pub open spec fn declare(
        self,
        decls: Seq<ClassDeclaration>,
        compiled: Seq<DeclaredClass<C>>,
        sierra: Seq<DeclaredClass<S>>,
    ) -> Self {
        ClassTables {
            compiled_class_hashes: with_declarations(self.compiled_class_hashes, decls),
            compiled_classes: with_classes(self.compiled_classes, compiled),
            sierra_classes: with_classes(self.sierra_classes, sierra),
        }
    }
}

/// The contents of a state store: the latest state, the snapshots taken of it so
/// far, and the class tables.
#[verifier::ext_equal]
pub struct StateModel<C, S> {
    /// The state that reads of the latest state see and that writes change.
    pub latest: WorldState,
    /// The snapshots, in the order in which they were taken.
    pub snapshots: Seq<WorldState>,
    /// The class tables.
    pub classes: ClassTables<C, S>,
}

impl<C, S> StateModel<C, S> {
    /// The store in which nothing was written and of which no snapshot was taken.
    pub open spec fn empty() -> Self {
        StateModel {
            latest: WorldState::empty(),
            snapshots: Seq::empty(),
            classes: ClassTables::empty(),
        }
    }

    /// The state that snapshot number `i` shows. A number that no snapshot has yet
    /// shows the latest state.
    pub open spec fn at(self, i: int) -> WorldState {
        if 0 <= i < self.snapshots.len() {
            self.snapshots[i]
        } else {
            self.latest
        }
    }

    /// The store after a storage write to the latest state.
    pub open spec fn set_storage(self, address: Felt, key: Felt, value: Felt) -> Self {
        StateModel { latest: self.latest.set_storage(address, key, value), ..self }
    }

    /// The store after a nonce write to the latest state.
    pub open spec fn set_nonce(self, address: Felt, nonce: Felt) -> Self {
        StateModel { latest: self.latest.set_nonce(address, nonce), ..self }
    }

    /// The store after a class binding in the latest state.
    pub open spec fn set_class_hash(self, address: Felt, class_hash: Felt) -> Self {
        StateModel { latest: self.latest.set_class_hash(address, class_hash), ..self }
    }

    /// The store after a compiled class was stored.
    pub open spec fn set_class(self, hash: Felt, class: C) -> Self {
        StateModel {
            classes: ClassTables {
                compiled_classes: self.classes.compiled_classes.insert(hash, class),
                ..self.classes
            },
            ..self
        }
    }

    /// The store after a source class was stored.
    pub open spec fn set_sierra_class(self, hash: Felt, class: S) -> Self {
        StateModel {
            classes: ClassTables {
                sierra_classes: self.classes.sierra_classes.insert(hash, class),
                ..self.classes
            },
            ..self
        }
    }

    /// The store after a compiled class hash was bound to a class hash.
    pub open spec fn set_compiled_class_hash(self, hash: Felt, compiled_hash: Felt) -> Self {
        StateModel {
            classes: ClassTables {
                compiled_class_hashes: self.classes.compiled_class_hashes.insert(
                    hash,
                    compiled_hash,
                ),
                ..self.classes
            },
            ..self
        }
    }

    /// The store after a whole diff was applied to the latest state and the classes
    /// it declares were stored. No snapshot changes.
    pub open spec fn apply(
        self,
        updates: StateUpdates,
        compiled: Seq<DeclaredClass<C>>,
        sierra: Seq<DeclaredClass<S>>,
    ) -> Self {
        StateModel {
            latest: self.latest.apply(updates),
            snapshots: self.snapshots,
            classes: self.classes.declare(updates.declared_classes@, compiled, sierra),
        }
    }

    /// The store after a snapshot of the latest state was taken.
    pub open spec fn snapshot(self) -> Self {
        StateModel { snapshots: self.snapshots.push(self.latest), ..self }
    }
}

} // verus!
