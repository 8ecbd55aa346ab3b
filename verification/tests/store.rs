use katana_provider::BlockHashOrNumber;
use katana_provider::ClassDeclaration;
use katana_provider::ClassHashUpdate;
use katana_provider::CommitError;
use katana_provider::DeclaredClass;
use katana_provider::Felt;
use katana_provider::FinalityStatus;
use katana_provider::Header;
use katana_provider::NonceUpdate;
use katana_provider::SealedBlock;
use katana_provider::SealedBlockWithStatus;
use katana_provider::SealedHeader;
use katana_provider::StateUpdates;
use katana_provider::StateUpdatesWithDeclaredClasses;
use katana_provider::Store;
use katana_provider::StorageEntry;
use katana_provider::StoredBlockBodyIndices;
use katana_provider::TxWithHash;

type Provider = Store<Vec<u8>, u32, Vec<u8>, String>;

fn felt(v: u128) -> Felt {
    Felt::from_u128(v)
}

fn header(number: u64, state_root: u128) -> Header {
    Header {
        parent_hash: felt(0),
        number,
        gas_price: 7,
        timestamp: 1000 + number,
        state_root: felt(state_root),
        sequencer_address: felt(0xabc),
        version: 1,
    }
}

fn block(number: u64, hash: u128, tx_hashes: &[u128]) -> SealedBlockWithStatus<Vec<u8>> {
    let mut body = Vec::new();
    for h in tx_hashes {
        body.push(TxWithHash { hash: felt(*h), transaction: vec![*h as u8, number as u8] });
    }
    SealedBlockWithStatus {
        block: SealedBlock {
            header: SealedHeader { hash: felt(hash), header: header(number, 500 + hash) },
            body,
        },
        status: FinalityStatus::AcceptedOnL2,
    }
}

fn no_updates() -> StateUpdatesWithDeclaredClasses<Vec<u8>, String> {
    storage_updates(&[])
}

fn storage_updates(writes: &[(u128, u128, u128)]) -> StateUpdatesWithDeclaredClasses<Vec<u8>, String> {
    let mut storage = Vec::new();
    for (a, k, v) in writes {
        storage.push(StorageEntry { address: felt(*a), key: felt(*k), value: felt(*v) });
    }
    StateUpdatesWithDeclaredClasses {
        state_updates: StateUpdates {
            storage_updates: storage,
            nonce_updates: Vec::new(),
            contract_updates: Vec::new(),
            declared_classes: Vec::new(),
        },
        declared_compiled_classes: Vec::new(),
        declared_sierra_classes: Vec::new(),
    }
}

const A: u128 = 0xa;
const B: u128 = 0xb;
const C: u128 = 0xc;
const ADDR1: u128 = 0x100;
const KEY1: u128 = 0x200;

fn two_blocks() -> Provider {
    let mut p = Provider::new();
    let r = p.insert_block_with_states_and_receipts(
        block(0, 0x1000, &[A, B]),
        storage_updates(&[(ADDR1, KEY1, 5)]),
        vec![10, 11],
    );
    assert_eq!(r, Ok(()));
    let r = p.insert_block_with_states_and_receipts(
        block(1, 0x1001, &[C]),
        storage_updates(&[(ADDR1, KEY1, 9)]),
        vec![12],
    );
    assert_eq!(r, Ok(()));
    p
}

#[test]
fn two_commits_with_an_overwritten_slot() {
    let p = two_blocks();

    assert_eq!(p.transaction_block_num_and_hash(felt(B)), Some((0, felt(0x1000))));
    let b = p.transaction_by_hash(felt(B)).unwrap();
    assert_eq!(b.hash, felt(B));
    assert_eq!(b.transaction, &vec![B as u8, 0]);

    let at0 = p.historical(BlockHashOrNumber::Num(0)).unwrap();
    assert_eq!(at0.storage(felt(ADDR1), felt(KEY1)), Some(felt(5)));
    let at1 = p.historical(BlockHashOrNumber::Num(1)).unwrap();
    assert_eq!(at1.storage(felt(ADDR1), felt(KEY1)), Some(felt(9)));
    assert_eq!(p.latest().storage(felt(ADDR1), felt(KEY1)), Some(felt(9)));

    let c = p.transaction_by_block_and_idx(BlockHashOrNumber::Num(1), 0).unwrap();
    assert_eq!(c.hash, felt(C));
    assert_eq!(c.transaction, &vec![C as u8, 1]);

    assert_eq!(
        p.block_body_indices(BlockHashOrNumber::Num(1)),
        Some(StoredBlockBodyIndices { tx_offset: 2, tx_count: 1 })
    );
}

#[test]
fn a_new_store_is_empty() {
    let p = Provider::new();
    assert_eq!(p.latest_number(), 0);
    assert_eq!(p.latest_hash(), Felt::zero());
    assert_eq!(p.block_hash_by_num(0), None);
    assert_eq!(p.header(BlockHashOrNumber::Num(0)), None);
    assert!(p.historical(BlockHashOrNumber::Num(0)).is_none());
    assert_eq!(p.latest().storage(felt(ADDR1), felt(KEY1)), None);
    assert!(p.blocks_in_range(0, 10).is_empty());
    assert!(p.transaction_hashes_in_range(0..10).is_empty());
}

#[test]
fn default_is_a_new_store() {
    let p = Provider::default();
    assert_eq!(p.latest_number(), 0);
    assert_eq!(p.block_hash_by_num(0), None);
}

#[test]
fn block_by_number_and_by_hash_agree() {
    let p = two_blocks();
    for (n, h) in [(0u64, 0x1000u128), (1, 0x1001)] {
        let by_num = BlockHashOrNumber::Num(n);
        let by_hash = BlockHashOrNumber::Hash(felt(h));
        assert_eq!(p.block_number_by_hash(felt(h)), Some(n));
        assert_eq!(p.block_hash_by_num(n), Some(felt(h)));
        assert_eq!(p.block_number_by_id(by_hash), Some(n));
        assert_eq!(p.header(by_num), p.header(by_hash));
        assert_eq!(p.header(by_num), Some(header(n, 500 + h)));
        assert_eq!(p.block_status(by_num), p.block_status(by_hash));
        assert_eq!(p.block_body_indices(by_num), p.block_body_indices(by_hash));
        assert_eq!(p.receipts_by_block(by_num), p.receipts_by_block(by_hash));
        assert_eq!(p.transaction_count_by_block(by_num), p.transaction_count_by_block(by_hash));
        assert_eq!(p.state_root(by_num), p.state_root(by_hash));
        let a = p.block(by_num).unwrap();
        let b = p.block(by_hash).unwrap();
        assert_eq!(a.header, b.header);
        assert_eq!(a.body.len(), b.body.len());
        for i in 0..a.body.len() {
            assert_eq!(a.body[i].hash, b.body[i].hash);
            assert_eq!(a.body[i].transaction, b.body[i].transaction);
        }
        let sa = p.historical(by_num).unwrap();
        let sb = p.historical(by_hash).unwrap();
        assert_eq!(
            sa.storage(felt(ADDR1), felt(KEY1)),
            sb.storage(felt(ADDR1), felt(KEY1))
        );
    }
}

#[test]
fn receipts_and_transactions_are_aligned() {
    let p = two_blocks();
    for (n, count) in [(0u64, 2usize), (1, 1)] {
        let id = BlockHashOrNumber::Num(n);
        let txs = p.transactions_by_block(id).unwrap();
        let receipts = p.receipts_by_block(id).unwrap();
        let indices = p.block_body_indices(id).unwrap();
        assert_eq!(txs.len(), count);
        assert_eq!(receipts.len(), count);
        assert_eq!(indices.tx_count, count as u64);
        assert_eq!(p.transaction_count_by_block(id), Some(count as u64));
    }
    assert_eq!(p.receipts_by_block(BlockHashOrNumber::Num(0)).unwrap(), &[10, 11]);
    assert_eq!(p.receipts_by_block(BlockHashOrNumber::Num(1)).unwrap(), &[12]);
    assert_eq!(p.receipt_by_hash(felt(A)), Some(&10));
    assert_eq!(p.receipt_by_hash(felt(B)), Some(&11));
    assert_eq!(p.receipt_by_hash(felt(C)), Some(&12));
    let txs = p.transactions_by_block(BlockHashOrNumber::Num(0)).unwrap();
    assert_eq!(txs[0].hash, felt(A));
    assert_eq!(txs[1].hash, felt(B));
    assert_eq!(txs[1].transaction, &vec![B as u8, 0]);
}

#[test]
fn offsets_follow_one_another() {
    let mut p = Provider::new();
    let bodies: [&[u128]; 4] = [&[1, 2, 3], &[], &[4], &[5, 6]];
    let numbers = [7u64, 3, 9, 4];
    for i in 0..4 {
        let receipts = vec![0u32; bodies[i].len()];
        let r = p.insert_block_with_states_and_receipts(
            block(numbers[i], 0x2000 + i as u128, bodies[i]),
            no_updates(),
            receipts,
        );
        assert_eq!(r, Ok(()));
    }
    let expected = [(0u64, 3u64), (3, 0), (3, 1), (4, 2)];
    for i in 0..4 {
        assert_eq!(
            p.block_body_indices(BlockHashOrNumber::Num(numbers[i])),
            Some(StoredBlockBodyIndices { tx_offset: expected[i].0, tx_count: expected[i].1 })
        );
    }
    for i in 0..3 {
        let a = p.block_body_indices(BlockHashOrNumber::Num(numbers[i])).unwrap();
        let b = p.block_body_indices(BlockHashOrNumber::Num(numbers[i + 1])).unwrap();
        assert_eq!(b.tx_offset, a.tx_offset + a.tx_count);
    }
    assert_eq!(p.latest_number(), 4);
    assert_eq!(p.latest_hash(), felt(0x2003));
}

#[test]
fn snapshots_are_not_changed_by_later_commits() {
    let mut p = Provider::new();
    let diffs: [&[(u128, u128, u128)]; 4] = [
        &[(1, 1, 10), (2, 1, 20)],
        &[(1, 1, 11)],
        &[(1, 2, 30), (2, 1, 21), (2, 1, 22)],
        &[(3, 3, 40), (1, 1, 12)],
    ];
    let expected: [[Option<u128>; 4]; 4] = [
        [Some(10), None, Some(20), None],
        [Some(11), None, Some(20), None],
        [Some(11), Some(30), Some(22), None],
        [Some(12), Some(30), Some(22), Some(40)],
    ];
    let slots = [(1u128, 1u128), (1, 2), (2, 1), (3, 3)];
    for i in 0..4 {
        let r = p.insert_block_with_states_and_receipts(
            block(i as u64, 0x3000 + i as u128, &[]),
            storage_updates(diffs[i]),
            Vec::new(),
        );
        assert_eq!(r, Ok(()));
        for j in 0..=i {
            let view = p.historical(BlockHashOrNumber::Num(j as u64)).unwrap();
            for s in 0..4 {
                assert_eq!(
                    view.storage(felt(slots[s].0), felt(slots[s].1)),
                    expected[j][s].map(felt)
                );
            }
        }
        for s in 0..4 {
            assert_eq!(
                p.latest().storage(felt(slots[s].0), felt(slots[s].1)),
                expected[i][s].map(felt)
            );
        }
    }
}

#[test]
fn snapshots_are_not_changed_by_direct_writes() {
    let mut p = two_blocks();
    p.set_storage(felt(ADDR1), felt(KEY1), felt(77));
    p.set_nonce(felt(ADDR1), felt(3));
    p.set_class_hash_of_contract(felt(ADDR1), felt(0xc1a55));
    assert_eq!(p.latest().storage(felt(ADDR1), felt(KEY1)), Some(felt(77)));
    assert_eq!(p.latest().nonce(felt(ADDR1)), Some(felt(3)));
    assert_eq!(p.latest().class_hash_of_contract(felt(ADDR1)), Some(felt(0xc1a55)));
    for n in 0..2 {
        let view = p.historical(BlockHashOrNumber::Num(n)).unwrap();
        assert_eq!(view.nonce(felt(ADDR1)), None);
        assert_eq!(view.class_hash_of_contract(felt(ADDR1)), None);
    }
    let at0 = p.historical(BlockHashOrNumber::Num(0)).unwrap();
    assert_eq!(at0.storage(felt(ADDR1), felt(KEY1)), Some(felt(5)));
    let at1 = p.historical(BlockHashOrNumber::Num(1)).unwrap();
    assert_eq!(at1.storage(felt(ADDR1), felt(KEY1)), Some(felt(9)));

    let r = p.insert_block_with_states_and_receipts(block(2, 0x1002, &[]), no_updates(), Vec::new());
    assert_eq!(r, Ok(()));
    let at2 = p.historical(BlockHashOrNumber::Num(2)).unwrap();
    assert_eq!(at2.storage(felt(ADDR1), felt(KEY1)), Some(felt(77)));
    assert_eq!(at2.nonce(felt(ADDR1)), Some(felt(3)));
    let at1 = p.historical(BlockHashOrNumber::Num(1)).unwrap();
    assert_eq!(at1.storage(felt(ADDR1), felt(KEY1)), Some(felt(9)));
}

#[test]
fn what_was_never_committed_is_not_found() {
    let p = two_blocks();
    let unknown = [BlockHashOrNumber::Num(2), BlockHashOrNumber::Hash(felt(0x9999))];
    for id in unknown {
        assert_eq!(p.header(id), None);
        assert_eq!(p.block_status(id), None);
        assert_eq!(p.block_body_indices(id), None);
        assert!(p.block(id).is_none());
        assert!(p.block_with_tx_hashes(id).is_none());
        assert!(p.transactions_by_block(id).is_none());
        assert!(p.transaction_by_block_and_idx(id, 0).is_none());
        assert_eq!(p.transaction_count_by_block(id), None);
        assert_eq!(p.receipts_by_block(id), None);
        assert!(p.state_update(id).is_none());
        assert!(p.historical(id).is_none());
        assert_eq!(p.state_root(id), None);
    }
    assert_eq!(p.block_number_by_id(BlockHashOrNumber::Num(2)), Some(2));
    assert_eq!(p.block_number_by_id(BlockHashOrNumber::Hash(felt(0x9999))), None);
    assert_eq!(p.block_hash_by_num(2), None);
    assert_eq!(p.block_number_by_hash(felt(0x9999)), None);
    assert!(p.transaction_by_hash(felt(0xdead)).is_none());
    assert_eq!(p.transaction_block_num_and_hash(felt(0xdead)), None);
    assert_eq!(p.transaction_status(felt(0xdead)), None);
    assert_eq!(p.receipt_by_hash(felt(0xdead)), None);
    assert_eq!(p.latest().storage(felt(ADDR1), felt(0x201)), None);
    assert_eq!(p.latest().storage(felt(0x101), felt(KEY1)), None);
    assert_eq!(p.latest().nonce(felt(ADDR1)), None);
    assert_eq!(p.latest().class_hash_of_contract(felt(ADDR1)), None);
    assert!(p.latest().class(felt(1)).is_none());
    assert!(p.latest().sierra_class(felt(1)).is_none());
    assert_eq!(p.latest().compiled_class_hash_of_class_hash(felt(1)), None);
}

#[test]
fn a_duplicate_block_number_is_refused() {
    let mut p = two_blocks();
    let r = p.insert_block_with_states_and_receipts(
        block(0, 0x7777, &[0xd]),
        storage_updates(&[(ADDR1, KEY1, 1)]),
        vec![99],
    );
    assert_eq!(r, Err(CommitError::DuplicateBlock));
    assert_eq!(p.block_hash_by_num(0), Some(felt(0x1000)));
    assert_eq!(p.block_number_by_hash(felt(0x7777)), None);
    assert!(p.transaction_by_hash(felt(0xd)).is_none());
    assert_eq!(p.latest().storage(felt(ADDR1), felt(KEY1)), Some(felt(9)));
    assert_eq!(p.latest_number(), 1);
    assert_eq!(p.latest_hash(), felt(0x1001));
    assert_eq!(p.transaction_hashes_in_range(0..100), vec![felt(A), felt(B), felt(C)]);
    let at0 = p.historical(BlockHashOrNumber::Num(0)).unwrap();
    assert_eq!(at0.storage(felt(ADDR1), felt(KEY1)), Some(felt(5)));
}

#[test]
fn a_duplicate_is_reported_before_a_receipt_mismatch() {
    let mut p = two_blocks();
    let r = p.insert_block_with_states_and_receipts(block(1, 0x7777, &[0xd]), no_updates(), vec![]);
    assert_eq!(r, Err(CommitError::DuplicateBlock));
}

#[test]
fn a_receipt_count_mismatch_is_refused() {
    let mut p = two_blocks();
    let r = p.insert_block_with_states_and_receipts(
        block(2, 0x1002, &[0xd, 0xe]),
        storage_updates(&[(ADDR1, KEY1, 1)]),
        vec![99],
    );
    assert_eq!(r, Err(CommitError::ReceiptCountMismatch));
    let r = p.insert_block_with_states_and_receipts(block(2, 0x1002, &[]), no_updates(), vec![1]);
    assert_eq!(r, Err(CommitError::ReceiptCountMismatch));
    assert_eq!(p.block_hash_by_num(2), None);
    assert!(p.historical(BlockHashOrNumber::Num(2)).is_none());
    assert!(p.transaction_by_hash(felt(0xd)).is_none());
    assert_eq!(p.latest().storage(felt(ADDR1), felt(KEY1)), Some(felt(9)));
    assert_eq!(p.latest_number(), 1);
    let r = p.insert_block_with_states_and_receipts(
        block(2, 0x1002, &[0xd, 0xe]),
        no_updates(),
        vec![1, 2],
    );
    assert_eq!(r, Ok(()));
    assert_eq!(
        p.block_body_indices(BlockHashOrNumber::Num(2)),
        Some(StoredBlockBodyIndices { tx_offset: 3, tx_count: 2 })
    );
}

#[test]
fn an_empty_block_has_an_empty_body() {
    let mut p = two_blocks();
    let r = p.insert_block_with_states_and_receipts(block(5, 0x1005, &[]), no_updates(), vec![]);
    assert_eq!(r, Ok(()));
    let id = BlockHashOrNumber::Num(5);
    assert_eq!(p.transactions_by_block(id).unwrap().len(), 0);
    assert_eq!(p.receipts_by_block(id), Some(&[][..]));
    assert_eq!(p.transaction_count_by_block(id), Some(0));
    assert!(p.transaction_by_block_and_idx(id, 0).is_none());
    assert_eq!(
        p.block_body_indices(id),
        Some(StoredBlockBodyIndices { tx_offset: 3, tx_count: 0 })
    );
    let b = p.block(id).unwrap();
    assert_eq!(b.header, header(5, 500 + 0x1005));
    assert!(b.body.is_empty());
    let b = p.block_with_tx_hashes(id).unwrap();
    assert!(b.body.is_empty());
}

#[test]
fn a_position_past_the_body_is_not_found() {
    let p = two_blocks();
    let id = BlockHashOrNumber::Num(0);
    assert_eq!(p.transaction_by_block_and_idx(id, 0).unwrap().hash, felt(A));
    assert_eq!(p.transaction_by_block_and_idx(id, 1).unwrap().hash, felt(B));
    assert!(p.transaction_by_block_and_idx(id, 2).is_none());
    assert!(p.transaction_by_block_and_idx(id, u64::MAX).is_none());
    let id = BlockHashOrNumber::Hash(felt(0x1001));
    assert_eq!(p.transaction_by_block_and_idx(id, 0).unwrap().hash, felt(C));
    assert!(p.transaction_by_block_and_idx(id, 1).is_none());
}

#[test]
fn blocks_in_range_passes_over_missing_numbers() {
    let mut p = Provider::new();
    for n in [2u64, 5, 3, 9] {
        let r = p.insert_block_with_states_and_receipts(
            block(n, 0x4000 + n as u128, &[n as u128 * 10]),
            no_updates(),
            vec![n as u32],
        );
        assert_eq!(r, Ok(()));
    }
    let numbers = |first: u64, last: u64| -> Vec<u64> {
        p.blocks_in_range(first, last).iter().map(|b| b.header.number).collect()
    };
    assert_eq!(numbers(0, 10), vec![2, 3, 5, 9]);
    assert_eq!(numbers(3, 5), vec![3, 5]);
    assert_eq!(numbers(2, 2), vec![2]);
    assert_eq!(numbers(4, 4), Vec::<u64>::new());
    assert_eq!(numbers(6, 8), Vec::<u64>::new());
    assert_eq!(numbers(5, 3), Vec::<u64>::new());
    let blocks = p.blocks_in_range(3, 5);
    assert_eq!(blocks[1].body.len(), 1);
    assert_eq!(blocks[1].body[0].hash, felt(50));
    assert_eq!(blocks[1].body[0].transaction, &vec![50u8, 5]);
}

#[test]
fn blocks_in_range_ends_at_the_largest_number() {
    let mut p = Provider::new();
    let r = p.insert_block_with_states_and_receipts(block(u64::MAX, 1, &[]), no_updates(), vec![]);
    assert_eq!(r, Ok(()));
    let blocks = p.blocks_in_range(u64::MAX - 3, u64::MAX);
    assert_eq!(blocks.len(), 1);
    assert_eq!(blocks[0].header.number, u64::MAX);
}

#[test]
fn transaction_hashes_in_range_stops_at_the_end() {
    let p = two_blocks();
    assert_eq!(p.transaction_hashes_in_range(0..3), vec![felt(A), felt(B), felt(C)]);
    assert_eq!(p.transaction_hashes_in_range(1..2), vec![felt(B)]);
    assert_eq!(p.transaction_hashes_in_range(1..u64::MAX), vec![felt(B), felt(C)]);
    assert_eq!(p.transaction_hashes_in_range(2..2), Vec::<Felt>::new());
    assert_eq!(p.transaction_hashes_in_range(3..9), Vec::<Felt>::new());
    assert_eq!(p.transaction_hashes_in_range(7..9), Vec::<Felt>::new());
    assert_eq!(p.transaction_hashes_in_range(2..1), Vec::<Felt>::new());
}

#[test]
fn block_with_tx_hashes_lists_the_hashes_of_the_body() {
    let p = two_blocks();
    let b = p.block_with_tx_hashes(BlockHashOrNumber::Num(0)).unwrap();
    assert_eq!(b.header, header(0, 500 + 0x1000));
    assert_eq!(b.body, vec![felt(A), felt(B)]);
    let b = p.block_with_tx_hashes(BlockHashOrNumber::Hash(felt(0x1001))).unwrap();
    assert_eq!(b.header.number, 1);
    assert_eq!(b.body, vec![felt(C)]);
}

#[test]
fn state_root_is_the_one_in_the_header() {
    let p = two_blocks();
    assert_eq!(p.state_root(BlockHashOrNumber::Num(0)), Some(felt(500 + 0x1000)));
    assert_eq!(p.state_root(BlockHashOrNumber::Hash(felt(0x1001))), Some(felt(500 + 0x1001)));
}

#[test]
fn transaction_status_is_the_status_of_its_block() {
    let mut p = two_blocks();
    let mut b = block(2, 0x1002, &[0xd]);
    b.status = FinalityStatus::AcceptedOnL1;
    assert_eq!(p.insert_block_with_states_and_receipts(b, no_updates(), vec![0]), Ok(()));
    assert_eq!(p.transaction_status(felt(A)), Some(FinalityStatus::AcceptedOnL2));
    assert_eq!(p.transaction_status(felt(0xd)), Some(FinalityStatus::AcceptedOnL1));
    assert_eq!(p.block_status(BlockHashOrNumber::Num(2)), Some(FinalityStatus::AcceptedOnL1));
    assert_eq!(p.block_status(BlockHashOrNumber::Num(1)), Some(FinalityStatus::AcceptedOnL2));
    assert_eq!(p.transaction_block_num_and_hash(felt(0xd)), Some((2, felt(0x1002))));
}

#[test]
fn the_state_diff_of_a_block_is_kept() {
    let p = two_blocks();
    let u = p.state_update(BlockHashOrNumber::Num(0)).unwrap();
    assert_eq!(
        u.storage_updates,
        vec![StorageEntry { address: felt(ADDR1), key: felt(KEY1), value: felt(5) }]
    );
    assert!(u.nonce_updates.is_empty());
    let u = p.state_update(BlockHashOrNumber::Hash(felt(0x1001))).unwrap();
    assert_eq!(u.storage_updates[0].value, felt(9));
}

#[test]
fn of_two_blocks_with_one_hash_the_later_is_found() {
    let mut p = Provider::new();
    for n in [4u64, 8] {
        let r = p.insert_block_with_states_and_receipts(block(n, 0x5555, &[]), no_updates(), vec![]);
        assert_eq!(r, Ok(()));
    }
    assert_eq!(p.block_number_by_hash(felt(0x5555)), Some(8));
    assert_eq!(p.header(BlockHashOrNumber::Hash(felt(0x5555))).unwrap().number, 8);
    assert_eq!(p.block_hash_by_num(4), Some(felt(0x5555)));
    assert_eq!(p.header(BlockHashOrNumber::Num(4)).unwrap().number, 4);
}

#[test]
fn of_two_transactions_with_one_hash_the_later_is_found() {
    let mut p = Provider::new();
    let r = p.insert_block_with_states_and_receipts(
        block(0, 1, &[A, B, A]),
        no_updates(),
        vec![1, 2, 3],
    );
    assert_eq!(r, Ok(()));
    assert_eq!(p.receipt_by_hash(felt(A)), Some(&3));
    let r = p.insert_block_with_states_and_receipts(block(1, 2, &[B]), no_updates(), vec![4]);
    assert_eq!(r, Ok(()));
    assert_eq!(p.receipt_by_hash(felt(B)), Some(&4));
    assert_eq!(p.transaction_block_num_and_hash(felt(B)), Some((1, felt(2))));
    assert_eq!(p.transaction_block_num_and_hash(felt(A)), Some((0, felt(1))));
    assert_eq!(
        p.transaction_hashes_in_range(0..4),
        vec![felt(A), felt(B), felt(A), felt(B)]
    );
}

#[test]
fn a_diff_applies_nonces_classes_and_storage() {
    let mut p = Provider::new();
    let states = StateUpdatesWithDeclaredClasses {
        state_updates: StateUpdates {
            storage_updates: vec![
                StorageEntry { address: felt(1), key: felt(1), value: felt(10) },
                StorageEntry { address: felt(1), key: felt(1), value: felt(11) },
            ],
            nonce_updates: vec![
                NonceUpdate { address: felt(1), nonce: felt(1) },
                NonceUpdate { address: felt(2), nonce: felt(5) },
                NonceUpdate { address: felt(1), nonce: felt(2) },
            ],
            contract_updates: vec![ClassHashUpdate { address: felt(1), class_hash: felt(0xc1) }],
            declared_classes: vec![
                ClassDeclaration { class_hash: felt(0xc1), compiled_class_hash: felt(0xcc1) },
                ClassDeclaration { class_hash: felt(0xc2), compiled_class_hash: felt(0xcc2) },
                ClassDeclaration { class_hash: felt(0xc1), compiled_class_hash: felt(0xcc3) },
            ],
        },
        declared_compiled_classes: vec![
            DeclaredClass { class_hash: felt(0xc1), class: vec![1u8, 2] },
            DeclaredClass { class_hash: felt(0xc1), class: vec![3u8] },
        ],
        declared_sierra_classes: vec![DeclaredClass {
            class_hash: felt(0xc1),
            class: String::from("source"),
        }],
    };
    assert_eq!(p.insert_block_with_states_and_receipts(block(0, 1, &[]), states, vec![]), Ok(()));
    for view in [p.latest(), p.historical(BlockHashOrNumber::Num(0)).unwrap()] {
        assert_eq!(view.storage(felt(1), felt(1)), Some(felt(11)));
        assert_eq!(view.nonce(felt(1)), Some(felt(2)));
        assert_eq!(view.class_hash_of_contract(felt(1)), Some(felt(0xc1)));
        assert_eq!(view.nonce(felt(2)), Some(felt(5)));
        assert_eq!(view.class_hash_of_contract(felt(2)), Some(Felt::zero()));
        assert_eq!(view.nonce(felt(3)), None);
        assert_eq!(view.compiled_class_hash_of_class_hash(felt(0xc1)), Some(felt(0xcc3)));
        assert_eq!(view.compiled_class_hash_of_class_hash(felt(0xc2)), Some(felt(0xcc2)));
        assert_eq!(view.class(felt(0xc1)), Some(&vec![3u8]));
        assert_eq!(view.class(felt(0xc2)), None);
        assert_eq!(view.sierra_class(felt(0xc1)), Some(&String::from("source")));
    }
    let kept = p.state_update(BlockHashOrNumber::Num(0)).unwrap();
    assert_eq!(kept.nonce_updates.len(), 3);
    assert_eq!(kept.declared_classes.len(), 3);
}

#[test]
fn a_first_write_to_a_contract_leaves_the_other_field_zero() {
    let mut p = Provider::new();
    p.set_nonce(felt(1), felt(9));
    assert_eq!(p.latest().nonce(felt(1)), Some(felt(9)));
    assert_eq!(p.latest().class_hash_of_contract(felt(1)), Some(Felt::zero()));
    p.set_class_hash_of_contract(felt(2), felt(0xc));
    assert_eq!(p.latest().nonce(felt(2)), Some(Felt::zero()));
    assert_eq!(p.latest().class_hash_of_contract(felt(2)), Some(felt(0xc)));
    p.set_class_hash_of_contract(felt(1), felt(0xd));
    assert_eq!(p.latest().nonce(felt(1)), Some(felt(9)));
    assert_eq!(p.latest().class_hash_of_contract(felt(1)), Some(felt(0xd)));
    p.set_nonce(felt(1), felt(10));
    assert_eq!(p.latest().nonce(felt(1)), Some(felt(10)));
    assert_eq!(p.latest().class_hash_of_contract(felt(1)), Some(felt(0xd)));
}

#[test]
fn class_tables_are_shared_by_all_views() {
    let mut p = two_blocks();
    p.set_class(felt(1), vec![1u8]);
    p.set_sierra_class(felt(1), String::from("a"));
    p.set_compiled_class_hash_of_class_hash(felt(1), felt(2));
    p.set_class(felt(1), vec![2u8]);
    for view in [p.latest(), p.historical(BlockHashOrNumber::Num(0)).unwrap()] {
        assert_eq!(view.class(felt(1)), Some(&vec![2u8]));
        assert_eq!(view.sierra_class(felt(1)), Some(&String::from("a")));
        assert_eq!(view.compiled_class_hash_of_class_hash(felt(1)), Some(felt(2)));
    }
}

#[test]
fn the_last_write_to_a_slot_wins() {
    let mut p = Provider::new();
    p.set_storage(felt(1), felt(1), felt(1));
    p.set_storage(felt(1), felt(1), felt(2));
    p.set_storage(felt(1), felt(2), felt(3));
    assert_eq!(p.latest().storage(felt(1), felt(1)), Some(felt(2)));
    assert_eq!(p.latest().storage(felt(1), felt(2)), Some(felt(3)));
    assert_eq!(p.latest().storage(felt(2), felt(1)), None);
}

#[test]
fn words_that_differ_in_the_high_limb_are_different_keys() {
    let mut p = Provider::new();
    let low = Felt::new(0, 5);
    let high = Felt::new(1, 5);
    p.set_storage(low, low, felt(1));
    p.set_storage(high, low, felt(2));
    p.set_storage(low, high, felt(3));
    assert_eq!(p.latest().storage(low, low), Some(felt(1)));
    assert_eq!(p.latest().storage(high, low), Some(felt(2)));
    assert_eq!(p.latest().storage(low, high), Some(felt(3)));
    assert_eq!(p.latest().storage(high, high), None);
    let mut b = block(0, 0, &[]);
    b.block.header.hash = high;
    b.block.body.push(TxWithHash { hash: high, transaction: vec![1] });
    assert_eq!(p.insert_block_with_states_and_receipts(b, no_updates(), vec![1]), Ok(()));
    assert_eq!(p.block_number_by_hash(high), Some(0));
    assert_eq!(p.block_number_by_hash(low), None);
    assert!(p.transaction_by_hash(high).is_some());
    assert!(p.transaction_by_hash(low).is_none());
}

#[test]
fn a_slot_written_in_many_blocks_reads_back_as_of_each() {
    let mut p = Provider::new();
    for n in 0..40u64 {
        let writes: &[(u128, u128, u128)] = if n % 3 == 0 { &[(1, 1, 0)] } else { &[] };
        let mut states = storage_updates(writes);
        if n % 3 == 0 {
            states.state_updates.storage_updates[0].value = felt(n as u128);
        }
        let r = p.insert_block_with_states_and_receipts(block(n, n as u128, &[]), states, vec![]);
        assert_eq!(r, Ok(()));
    }
    for n in 0..40u64 {
        let view = p.historical(BlockHashOrNumber::Num(n)).unwrap();
        assert_eq!(view.storage(felt(1), felt(1)), Some(felt((n - n % 3) as u128)));
    }
    assert_eq!(p.latest().storage(felt(1), felt(1)), Some(felt(39)));
}
