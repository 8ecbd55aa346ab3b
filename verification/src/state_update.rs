//! The state diff that the execution of one block produces.

use crate::felt::Felt;
use vstd::prelude::*;

verus! {

/// One storage write: slot `key` of contract `address` becomes `value`.
#[derive(Clone, Copy, Debug, PartialEq, Eq, Structural)]
pub struct StorageEntry {
    pub address: Felt,
    pub key: Felt,
    pub value: Felt,
}

/// One nonce write: the nonce of contract `address` becomes `nonce`.
#[derive(Clone, Copy, Debug, PartialEq, Eq, Structural)]
pub struct NonceUpdate {
    pub address: Felt,
    pub nonce: Felt,
}

/// One class binding: contract `address` becomes an instance of class `class_hash`.
#[derive(Clone, Copy, Debug, PartialEq, Eq, Structural)]
pub struct ClassHashUpdate {
    pub address: Felt,
    pub class_hash: Felt,
}

/// One declaration: class `class_hash` compiles to `compiled_class_hash`.
#[derive(Clone, Copy, Debug, PartialEq, Eq, Structural)]
pub struct ClassDeclaration {
    pub class_hash: Felt,
    pub compiled_class_hash: Felt,
}

/// The writes of one block. Each list is applied front to back, so of two writes to
/// the same place the later one wins.
#[derive(Debug)]
pub struct StateUpdates {
    pub storage_updates: Vec<StorageEntry>,
    pub nonce_updates: Vec<NonceUpdate>,
    pub contract_updates: Vec<ClassHashUpdate>,
    pub declared_classes: Vec<ClassDeclaration>,
}

/// A class artifact with the hash of the class it belongs to.
#[derive(Debug)]
pub struct DeclaredClass<A> {
    pub class_hash: Felt,
    pub class: A,
}

/// The writes of one block together with the artifacts of the classes it declares:
/// compiled classes of type `C` and source classes of type `S`.
#[derive(Debug)]
pub struct StateUpdatesWithDeclaredClasses<C, S> {
    pub state_updates: StateUpdates,
    pub declared_compiled_classes: Vec<DeclaredClass<C>>,
    pub declared_sierra_classes: Vec<DeclaredClass<S>>,
}

} // verus!
