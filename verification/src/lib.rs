//! An in-memory provider of finalized chain data: blocks, transactions, receipts,
//! per-block state diffs, the latest contract state and the state as of every
//! committed block.
//!
//! [`InMemoryProvider`] is the entry point for a node: a [`Store`] under a
//! reader-writer lock, read and written through shared references from any thread.
//!
//! [`Store`] is the store itself, for one owner. It holds a [`ChainIndex`], which
//! finds blocks, transactions and receipts by number, hash and position; an
//! [`InMemoryStateDb`], which holds the latest state and its snapshots; and a
//! [`HistoricalStates`] registry, which knows the snapshot of each committed block.
//!
//! Every function of the store states exactly what it answers or changes, over a
//! mathematical model of the store ([`StoreModel`], [`ChainModel`], [`StateModel`]).
//! The module [`laws`] proves what holds of every store: that a block is found under
//! its hash as under its number, that receipts and transactions are aligned, that
//! bodies follow one another without gap, that a snapshot is never changed by what
//! is committed later, and that what was never committed is not found.

pub mod block;
pub mod chain;
pub mod chain_model;
pub mod felt;
pub mod felt_map;
pub mod laws;
pub mod lock;
pub mod provider;
pub mod state;
pub mod state_model;
pub mod state_update;
pub mod store;
pub mod store_model;
pub mod versions;

pub use block::Block;
pub use block::BlockRef;
pub use block::BlockHashOrNumber;
pub use block::BlockWithTxHashes;
pub use block::FinalityStatus;
pub use block::Header;
pub use block::SealedBlock;
pub use block::SealedBlockWithStatus;
pub use block::SealedHeader;
pub use block::StoredBlockBodyIndices;
pub use block::TxRef;
pub use block::TxWithHash;
pub use chain::ChainIndex;
pub use chain::CommitError;
pub use chain_model::ChainModel;
pub use felt::Felt;
pub use felt_map::FeltMap;
pub use provider::InMemoryProvider;
pub use provider::StateReader;
pub use state::HistoricalStates;
pub use state::InMemoryStateDb;
pub use state::StateProvider;
pub use state::StateSnapshot;
pub use state_model::ContractState;
pub use state_model::StateModel;
pub use state_update::ClassDeclaration;
pub use state_update::ClassHashUpdate;
pub use state_update::DeclaredClass;
pub use state_update::NonceUpdate;
pub use state_update::StateUpdates;
pub use state_update::StateUpdatesWithDeclaredClasses;
pub use state_update::StorageEntry;
pub use store::Store;
pub use store_model::StoreModel;
