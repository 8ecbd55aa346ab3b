use katana_provider::versions::latest;
use katana_provider::versions::lookup;
use katana_provider::versions::record;
use katana_provider::versions::Version;
use katana_provider::BlockHashOrNumber;
use katana_provider::ChainIndex;
use katana_provider::ClassDeclaration;
use katana_provider::ClassHashUpdate;
use katana_provider::CommitError;
use katana_provider::DeclaredClass;
use katana_provider::Felt;
use katana_provider::FeltMap;
use katana_provider::FinalityStatus;
use katana_provider::Header;
use katana_provider::HistoricalStates;
use katana_provider::InMemoryStateDb;
use katana_provider::NonceUpdate;
use katana_provider::SealedBlock;
use katana_provider::SealedBlockWithStatus;
use katana_provider::SealedHeader;
use katana_provider::StateProvider;
use katana_provider::StateUpdates;
use katana_provider::StorageEntry;
use katana_provider::StoredBlockBodyIndices;
use katana_provider::TxWithHash;

fn w(v: u128) -> Felt {
    Felt::from_u128(v)
}

fn no_writes() -> StateUpdates {
    StateUpdates {
        storage_updates: Vec::new(),
        nonce_updates: Vec::new(),
        contract_updates: Vec::new(),
        declared_classes: Vec::new(),
    }
}

fn plain_block(number: u64, hash: u128, tx_hashes: &[u128]) -> SealedBlockWithStatus<String> {
    let mut body = Vec::new();
    for h in tx_hashes {
        body.push(TxWithHash { hash: w(*h), transaction: format!("tx-{h}") });
    }
    SealedBlockWithStatus {
        block: SealedBlock {
            header: SealedHeader {
                hash: w(hash),
                header: Header {
                    parent_hash: w(0),
                    number,
                    gas_price: 0,
                    timestamp: 0,
                    state_root: w(0),
                    sequencer_address: w(0),
                    version: 0,
                },
            },
            body,
        },
        status: FinalityStatus::AcceptedOnL1,
    }
}

#[test]
fn felt_constructors_set_the_limbs() {
    assert_eq!(Felt::new(3, 4), Felt { hi: 3, lo: 4 });
    assert_eq!(Felt::from_u128(9), Felt { hi: 0, lo: 9 });
    assert_eq!(Felt::zero(), Felt { hi: 0, lo: 0 });
    assert_ne!(Felt::new(1, 0), Felt::new(0, 1));
}

#[test]
fn felt_map_keeps_the_last_value_of_each_key() {
    let mut m: FeltMap<u32> = FeltMap::new();
    assert!(!m.contains_key(w(1)));
    assert_eq!(m.get(w(1)), None);
    m.insert(w(1), 10);
    m.insert(Felt::new(1, 1), 20);
    m.insert(Felt::new(1, 2), 30);
    m.insert(w(1), 11);
    assert_eq!(m.get(w(1)), Some(&11));
    assert_eq!(m.get(Felt::new(1, 1)), Some(&20));
    assert_eq!(m.get(Felt::new(1, 2)), Some(&30));
    assert_eq!(m.get(Felt::new(2, 1)), None);
    assert!(m.contains_key(Felt::new(1, 1)));
    assert!(!m.contains_key(Felt::new(1, 3)));
}

#[test]
fn felt_map_remove_hands_back_the_value() {
    let mut m: FeltMap<u32> = FeltMap::new();
    m.insert(Felt::new(0, 7), 1);
    m.insert(Felt::new(5, 7), 2);
    assert_eq!(m.remove(Felt::new(0, 7)), Some(1));
    assert_eq!(m.remove(Felt::new(0, 7)), None);
    assert_eq!(m.remove(Felt::new(9, 9)), None);
    assert_eq!(m.get(Felt::new(5, 7)), Some(&2));
    assert_eq!(m.remove(Felt::new(5, 7)), Some(2));
    assert!(!m.contains_key(Felt::new(5, 7)));
    m.insert(Felt::new(5, 7), 3);
    assert_eq!(m.get(Felt::new(5, 7)), Some(&3));
}

#[test]
fn a_chain_shows_the_last_version_not_after_the_epoch() {
    let mut chain: Vec<Version<u32>> = Vec::new();
    assert_eq!(lookup(&chain, 0), None);
    assert_eq!(latest(&chain), None);
    for (epoch, value) in [(2u128, 20u32), (3, 30), (7, 70), (8, 80), (20, 200)] {
        record(&mut chain, epoch, value);
    }
    assert_eq!(chain.len(), 5);
    let expected = [
        (0u128, None),
        (1, None),
        (2, Some(20)),
        (3, Some(30)),
        (4, Some(30)),
        (6, Some(30)),
        (7, Some(70)),
        (8, Some(80)),
        (19, Some(80)),
        (20, Some(200)),
        (21, Some(200)),
        (u128::MAX, Some(200)),
    ];
    for (epoch, value) in expected {
        assert_eq!(lookup(&chain, epoch), value);
    }
    assert_eq!(latest(&chain), Some(200));
}

#[test]
fn a_write_in_the_same_epoch_replaces_the_version() {
    let mut chain: Vec<Version<u32>> = Vec::new();
    record(&mut chain, 4, 1);
    record(&mut chain, 4, 2);
    record(&mut chain, 5, 3);
    record(&mut chain, 5, 4);
    record(&mut chain, 5, 5);
    assert_eq!(chain.len(), 2);
    assert_eq!(chain[0].epoch, 4);
    assert_eq!(chain[0].value, 2);
    assert_eq!(chain[1].epoch, 5);
    assert_eq!(chain[1].value, 5);
    assert_eq!(lookup(&chain, 3), None);
    assert_eq!(lookup(&chain, 4), Some(2));
    assert_eq!(lookup(&chain, 5), Some(5));
}

#[test]
fn a_snapshot_keeps_what_it_saw() {
    let mut db: InMemoryStateDb<Vec<u8>, String> = InMemoryStateDb::new();
    assert_eq!(db.snapshot_count(), 0);
    db.set_storage(w(1), w(1), w(10));
    db.set_nonce(w(1), w(1));
    let first = db.create_snapshot();
    db.set_storage(w(1), w(1), w(11));
    db.set_storage(w(1), w(2), w(20));
    db.set_class_hash_of_contract(w(1), w(0xc));
    let second = db.create_snapshot();
    let third = db.create_snapshot();
    db.set_storage(w(1), w(1), w(12));
    db.set_nonce(w(1), w(2));
    assert_eq!(db.snapshot_count(), 3);

    assert_eq!(db.storage_at(first, w(1), w(1)), Some(w(10)));
    assert_eq!(db.storage_at(first, w(1), w(2)), None);
    assert_eq!(db.nonce_at(first, w(1)), Some(w(1)));
    assert_eq!(db.class_hash_at(first, w(1)), Some(Felt::zero()));

    for snapshot in [second, third] {
        assert_eq!(db.storage_at(snapshot, w(1), w(1)), Some(w(11)));
        assert_eq!(db.storage_at(snapshot, w(1), w(2)), Some(w(20)));
        assert_eq!(db.nonce_at(snapshot, w(1)), Some(w(1)));
        assert_eq!(db.class_hash_at(snapshot, w(1)), Some(w(0xc)));
        assert_eq!(db.nonce_at(snapshot, w(2)), None);
    }

    assert_eq!(db.storage(w(1), w(1)), Some(w(12)));
    assert_eq!(db.storage(w(1), w(2)), Some(w(20)));
    assert_eq!(db.nonce(w(1)), Some(w(2)));
    assert_eq!(db.class_hash_of_contract(w(1)), Some(w(0xc)));

    let view = StateProvider::historical(&db, first);
    assert_eq!(view.storage(w(1), w(1)), Some(w(10)));
    assert_eq!(view.nonce(w(1)), Some(w(1)));
    assert_eq!(view.class_hash_of_contract(w(1)), Some(Felt::zero()));
    let view = StateProvider::latest(&db);
    assert_eq!(view.storage(w(1), w(1)), Some(w(12)));
    assert_eq!(view.nonce(w(1)), Some(w(2)));
}

#[test]
fn a_diff_is_applied_front_to_back() {
    let mut db: InMemoryStateDb<Vec<u8>, String> = InMemoryStateDb::new();
    let updates = StateUpdates {
        storage_updates: vec![
            StorageEntry { address: w(1), key: w(1), value: w(1) },
            StorageEntry { address: w(2), key: w(1), value: w(2) },
            StorageEntry { address: w(1), key: w(1), value: w(3) },
        ],
        nonce_updates: vec![
            NonceUpdate { address: w(1), nonce: w(5) },
            NonceUpdate { address: w(1), nonce: w(6) },
        ],
        contract_updates: vec![
            ClassHashUpdate { address: w(2), class_hash: w(0xa) },
            ClassHashUpdate { address: w(1), class_hash: w(0xb) },
            ClassHashUpdate { address: w(2), class_hash: w(0xc) },
        ],
        declared_classes: vec![
            ClassDeclaration { class_hash: w(0xa), compiled_class_hash: w(0xaa) },
            ClassDeclaration { class_hash: w(0xa), compiled_class_hash: w(0xab) },
        ],
    };
    db.insert_updates(
        &updates,
        vec![DeclaredClass { class_hash: w(0xa), class: vec![1u8] }],
        vec![
            DeclaredClass { class_hash: w(0xa), class: String::from("one") },
            DeclaredClass { class_hash: w(0xa), class: String::from("two") },
        ],
    );
    assert_eq!(db.storage(w(1), w(1)), Some(w(3)));
    assert_eq!(db.storage(w(2), w(1)), Some(w(2)));
    assert_eq!(db.nonce(w(1)), Some(w(6)));
    assert_eq!(db.class_hash_of_contract(w(1)), Some(w(0xb)));
    assert_eq!(db.nonce(w(2)), Some(Felt::zero()));
    assert_eq!(db.class_hash_of_contract(w(2)), Some(w(0xc)));
    assert_eq!(db.compiled_class_hash_of_class_hash(w(0xa)), Some(w(0xab)));
    assert_eq!(db.class(w(0xa)), Some(&vec![1u8]));
    assert_eq!(db.sierra_class(w(0xa)), Some(&String::from("two")));
    assert_eq!(db.sierra_class(w(0xb)), None);
    assert_eq!(db.snapshot_count(), 0);
}

#[test]
fn the_registry_finds_what_was_registered() {
    let mut db: InMemoryStateDb<Vec<u8>, String> = InMemoryStateDb::new();
    let mut registry = HistoricalStates::new();
    assert!(registry.get(3).is_none());
    db.set_storage(w(1), w(1), w(1));
    registry.insert(3, db.create_snapshot());
    db.set_storage(w(1), w(1), w(2));
    registry.insert(1, db.create_snapshot());
    assert!(registry.get(2).is_none());
    let at3 = registry.get(3).unwrap();
    let at1 = registry.get(1).unwrap();
    assert_eq!(db.storage_at(at3, w(1), w(1)), Some(w(1)));
    assert_eq!(db.storage_at(at1, w(1), w(1)), Some(w(2)));
}

#[test]
fn the_index_alone_commits_and_finds() {
    let mut index: ChainIndex<String, u8> = ChainIndex::new();
    assert_eq!(index.latest_number(), 0);
    assert_eq!(index.latest_hash(), Felt::zero());
    let r = index.insert_block(plain_block(10, 0xa0, &[1, 2]), no_writes(), vec![1, 2]);
    assert_eq!(r, Ok(()));
    let r = index.insert_block(plain_block(11, 0xa1, &[3]), no_writes(), vec![3]);
    assert_eq!(r, Ok(()));
    let r = index.insert_block(plain_block(10, 0xa2, &[]), no_writes(), vec![]);
    assert_eq!(r, Err(CommitError::DuplicateBlock));
    let r = index.insert_block(plain_block(12, 0xa2, &[4]), no_writes(), vec![]);
    assert_eq!(r, Err(CommitError::ReceiptCountMismatch));

    assert_eq!(index.latest_number(), 11);
    assert_eq!(index.latest_hash(), w(0xa1));
    assert_eq!(index.block_number_by_id(BlockHashOrNumber::Hash(w(0xa1))), Some(11));
    assert_eq!(index.block_number_by_id(BlockHashOrNumber::Hash(w(0xa2))), None);
    assert_eq!(
        index.block_body_indices(BlockHashOrNumber::Num(11)),
        Some(StoredBlockBodyIndices { tx_offset: 2, tx_count: 1 })
    );
    assert_eq!(index.block_status(BlockHashOrNumber::Num(11)), Some(FinalityStatus::AcceptedOnL1));
    let t = index.transaction_by_hash(w(3)).unwrap();
    assert_eq!(t.hash, w(3));
    assert_eq!(t.transaction, "tx-3");
    let t = index.transaction_by_block_and_idx(BlockHashOrNumber::Num(10), 1).unwrap();
    assert_eq!(t.transaction, "tx-2");
    assert_eq!(index.receipts_by_block(BlockHashOrNumber::Num(10)), Some(&[1u8, 2][..]));
    assert_eq!(index.transaction_hashes_in_range(1..3), vec![w(2), w(3)]);
    assert_eq!(index.transaction_block_num_and_hash(w(2)), Some((10, w(0xa0))));
    assert_eq!(index.transaction_status(w(2)), Some(FinalityStatus::AcceptedOnL1));
    assert!(index.state_update(BlockHashOrNumber::Num(10)).is_some());
    assert!(index.state_update(BlockHashOrNumber::Num(12)).is_none());
    let blocks = index.blocks_in_range(0, 20);
    assert_eq!(blocks.len(), 2);
    assert_eq!(blocks[0].header.number, 10);
    assert_eq!(blocks[1].body[0].transaction, "tx-3");
    let b = index.block_with_tx_hashes(BlockHashOrNumber::Num(10)).unwrap();
    assert_eq!(b.body, vec![w(1), w(2)]);
    assert_eq!(index.transaction_count_by_block(BlockHashOrNumber::Num(10)), Some(2));
    assert_eq!(index.state_root(BlockHashOrNumber::Num(10)), Some(w(0)));
    assert_eq!(index.header(BlockHashOrNumber::Num(10)).unwrap().number, 10);
    assert_eq!(index.block_hash_by_num(10), Some(w(0xa0)));
    assert_eq!(index.block(BlockHashOrNumber::Hash(w(0xa1))).unwrap().body.len(), 1);
    assert_eq!(index.transactions_by_block(BlockHashOrNumber::Num(10)).unwrap().len(), 2);
    assert_eq!(index.receipt_by_hash(w(3)), Some(&3));
}
