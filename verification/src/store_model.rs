//! The mathematical model of the whole store: the chain index, the latest state, the
//! state as of each committed block, and the class tables.

use crate::block::BlockHashOrNumber;
use crate::block::SealedBlockWithStatus;
use crate::chain::CommitError;
use crate::chain_model::ChainModel;
use crate::felt::Felt;
use crate::state_model::ClassTables;
use crate::state_model::WorldState;
use crate::state_update::StateUpdatesWithDeclaredClasses;
use vstd::prelude::*;

verus! {

/// The contents of a store with transaction payloads `T`, receipts `R`, compiled
/// classes `C` and source classes `S`.
#[verifier::ext_equal]
pub struct StoreModel<T, R, C, S> {
    /// Blocks, transactions, receipts and state diffs.
    pub chain: ChainModel<T, R>,
    /// The latest state of all contracts.
    pub latest: WorldState,
    /// The state of all contracts as of each committed block, by block number.
    pub history: Map<u64, WorldState>,
    /// The class tables.
    pub classes: ClassTables<C, S>,
}

impl<T, R, C, S> StoreModel<T, R, C, S> {
    /// The store that holds nothing.
    pub open spec fn empty() -> Self {
        StoreModel {
            chain: ChainModel::empty(),
            latest: WorldState::empty(),
            history: Map::empty(),
            classes: ClassTables::empty(),
        }
    }

    /// The invariant of the store: the chain index is well formed, and the blocks
    /// that have a historical state are the committed ones.
    pub open spec fn wf(self) -> bool {
        &&& self.chain.wf()
        &&& self.history.dom() =~= self.chain.blocks.dom()
    }

    /// The state as of the block that a selector names, if that block was committed.
    pub open spec fn state_at(self, id: BlockHashOrNumber) -> Option<WorldState> {
        match self.chain.resolve(id) {
            Some(n) => self.history.get(n),
            None => None,
        }
    }

    /// Why `block` with `receipts` would be refused, if it would.
    pub open spec fn refusal(self, block: SealedBlockWithStatus<T>, receipts: Seq<R>) -> Option<
        CommitError,
    > {
        if self.chain.contains_block(block.number()) {
            Some(CommitError::DuplicateBlock)
        } else if receipts.len() != block.block.body@.len() {
            Some(CommitError::ReceiptCountMismatch)
        } else {
            None
        }
    }

    /// The store after `block` was committed with its state diff and its receipts:
    /// the block is indexed, the diff is applied to the latest state, and the
    /// resulting state is kept as the state as of that block.
    pub open spec fn commit(
        self,
        block: SealedBlockWithStatus<T>,
        states: StateUpdatesWithDeclaredClasses<C, S>,
        receipts: Seq<R>,
    ) -> Self {
        let latest = self.latest.apply(states.state_updates);
        StoreModel {
            chain: self.chain.insert_block(block, states.state_updates, receipts),
            latest,
            history: self.history.insert(block.number(), latest),
            classes: self.classes.declare(
                states.state_updates.declared_classes@,
                states.declared_compiled_classes@,
                states.declared_sierra_classes@,
            ),
        }
    }

    /// The store after `block` was handed in: committed, or unchanged if refused.
    pub open spec fn step(
        self,
        block: SealedBlockWithStatus<T>,
        states: StateUpdatesWithDeclaredClasses<C, S>,
        receipts: Seq<R>,
    ) -> Self {
        if self.refusal(block, receipts) is None {
            self.commit(block, states, receipts)
        } else {
            self
        }
    }

    /// The store after a storage write to the latest state.
    pub open spec fn set_storage(self, address: Felt, key: Felt, value: Felt) -> Self {
        StoreModel { latest: self.latest.set_storage(address, key, value), ..self }
    }

    /// The store after a nonce write to the latest state.
    pub open spec fn set_nonce(self, address: Felt, nonce: Felt) -> Self {
        StoreModel { latest: self.latest.set_nonce(address, nonce), ..self }
    }

    /// The store after a class binding in the latest state.
    pub open spec fn set_class_hash(self, address: Felt, class_hash: Felt) -> Self {
        StoreModel { latest: self.latest.set_class_hash(address, class_hash), ..self }
    }

    /// The store after a compiled class was stored.
    pub open spec fn set_class(self, hash: Felt, class: C) -> Self {
        StoreModel {
            classes: ClassTables {
                compiled_classes: self.classes.compiled_classes.insert(hash, class),
                ..self.classes
            },
            ..self
        }
    }

    /// The store after a source class was stored.
    pub open spec fn set_sierra_class(self, hash: Felt, class: S) -> Self {
        StoreModel {
            classes: ClassTables {
                sierra_classes: self.classes.sierra_classes.insert(hash, class),
                ..self.classes
            },
            ..self
        }
    }

    /// The store after a compiled class hash was bound to a class hash.
    pub open spec fn set_compiled_class_hash(self, hash: Felt, compiled_hash: Felt) -> Self {
        StoreModel {
            classes: ClassTables {
                compiled_class_hashes: self.classes.compiled_class_hashes.insert(
                    hash,
                    compiled_hash,
                ),
                ..self.classes
            },
            ..self
        }
    }
}

} // verus!
