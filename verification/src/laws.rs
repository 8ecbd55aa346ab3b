//! What holds of every store, proved from the models that the contracts of the store
//! are stated over.

use crate::block::BlockHashOrNumber;
use crate::block::SealedBlockWithStatus;
use crate::chain::CommitError;
use crate::chain_model::lemma_index_hashes;
use crate::chain_model::ChainModel;
use crate::felt::Felt;
use crate::store_model::StoreModel;
use crate::state_model::WorldState;
use crate::state_update::StateUpdates;
use crate::state_update::StateUpdatesWithDeclaredClasses;
use vstd::prelude::*;

verus! {

/// Round trip. A committed block is found under its hash exactly as under its number:
/// same record, header, status, body indices, transactions, receipts and state diff.
///
/// Of two blocks committed under one hash, the hash names the later one, so
/// this is stated of a block after which no block with the same hash was committed.
/// The block is given by its position `i` in the order of commitment.
pub proof fn lemma_round_trip<T, R>(m: ChainModel<T, R>, i: int)
    requires
        m.wf(),
        0 <= i < m.order.len(),
        forall|j: int|
            i < j < m.order.len() ==> m.blocks[#[trigger] m.order[j]].hash
                != m.blocks[m.order[i]].hash,
    ensures
        ({
            let n = m.order[i];
            let by_hash = BlockHashOrNumber::Hash(m.blocks[n].hash);
            let by_number = BlockHashOrNumber::Num(n);
            &&& m.contains_block(n)
            &&& m.resolve(by_hash) == Some(n)
            &&& m.record(by_number) is Some
            &&& m.record(by_hash) == m.record(by_number)
            &&& m.header(by_hash) == m.header(by_number)
            &&& m.status(by_hash) == m.status(by_number)
            &&& m.body_indices(by_hash) == m.body_indices(by_number)
            &&& m.state_root(by_hash) == m.state_root(by_number)
            &&& m.tx_count(by_hash) == m.tx_count(by_number)
            &&& m.block_txs(by_hash) == m.block_txs(by_number)
            &&& m.block_receipts(by_hash) == m.block_receipts(by_number)
            &&& m.state_update(by_hash) == m.state_update(by_number)
        }),
{
    let n = m.order[i];
    let h = m.blocks[n].hash;
    assert(m.order.contains(n));
    assert(m.resolves_later(i));
    let j = choose|j: int| m.resolves_to(i, j);
    assert(m.order.contains(m.order[j]));
    if i < j {
        assert(m.blocks[m.order[j]].hash != h);
    }
}

/// Round trip for states. The state as of a committed block is found under the hash
/// of the block as under its number, for a block after which no block with the same
/// hash was committed.
pub proof fn lemma_round_trip_state<T, R, C, S>(m: StoreModel<T, R, C, S>, i: int)
    requires
        m.wf(),
        0 <= i < m.chain.order.len(),
        forall|j: int|
            i < j < m.chain.order.len() ==> m.chain.blocks[#[trigger] m.chain.order[j]].hash
                != m.chain.blocks[m.chain.order[i]].hash,
    ensures
        ({
            let n = m.chain.order[i];
            &&& m.state_at(BlockHashOrNumber::Num(n)) is Some
            &&& m.state_at(BlockHashOrNumber::Hash(m.chain.blocks[n].hash)) == m.state_at(
                BlockHashOrNumber::Num(n),
            )
        }),
{
    lemma_round_trip(m.chain, i);
    assert(m.history.dom().contains(m.chain.order[i]));
}

/// Index alignment. A committed block has as many receipts as transactions, and that
/// many is the count in its body indices.
pub proof fn lemma_index_alignment<T, R>(m: ChainModel<T, R>, id: BlockHashOrNumber)
    requires
        m.wf(),
        m.record(id) is Some,
    ensures
        m.block_txs(id).unwrap().len() == m.body_indices(id).unwrap().tx_count,
        m.block_receipts(id).unwrap().len() == m.body_indices(id).unwrap().tx_count,
{
    let n = m.resolve(id).unwrap();
    assert(m.blocks.contains_key(n));
}

/// Monotonic offsets. Of two blocks committed one right after the other, the body of
/// the second starts where the body of the first ends. The body of the block
/// committed first starts at 0, and the body of the block committed last ends where
/// the transaction array ends.
pub proof fn lemma_monotonic_offsets<T, R>(m: ChainModel<T, R>, i: int)
    requires
        m.wf(),
        0 <= i < m.order.len(),
    ensures
        m.body_indices(BlockHashOrNumber::Num(m.order[i])) is Some,
        i == 0 ==> m.body_indices(BlockHashOrNumber::Num(m.order[i])).unwrap().tx_offset == 0,
        i + 1 < m.order.len() ==> m.body_indices(
            BlockHashOrNumber::Num(m.order[i + 1]),
        ).unwrap().tx_offset == m.body_indices(BlockHashOrNumber::Num(m.order[i])).unwrap().tx_offset
            + m.body_indices(BlockHashOrNumber::Num(m.order[i])).unwrap().tx_count,
        i + 1 == m.order.len() ==> m.body_indices(
            BlockHashOrNumber::Num(m.order[i]),
        ).unwrap().end() == m.txs.len(),
{
    assert(m.order.contains(m.order[i]));
    if i + 1 < m.order.len() {
        assert(m.order.contains(m.order[i + 1]));
        assert(m.blocks[m.order[i + 1]].body.tx_offset == m.blocks[m.order[i]].body.end());
    }
}

/// Monotonic offsets, for two commits. When a block is committed and then another,
/// the body of the second starts where the body of the first ends.
pub proof fn lemma_offsets_of_two_commits<T, R>(
    m: ChainModel<T, R>,
    first: SealedBlockWithStatus<T>,
    first_updates: StateUpdates,
    first_receipts: Seq<R>,
    second: SealedBlockWithStatus<T>,
    second_updates: StateUpdates,
    second_receipts: Seq<R>,
)
    requires
        m.wf(),
        !m.contains_block(first.number()),
        !m.contains_block(second.number()),
        first.number() != second.number(),
        m.txs.len() + first.block.body@.len() + second.block.body@.len() <= u64::MAX,
    ensures
        ({
            let end = m.insert_block(first, first_updates, first_receipts).insert_block(
                second,
                second_updates,
                second_receipts,
            );
            let a = end.body_indices(BlockHashOrNumber::Num(first.number()));
            let b = end.body_indices(BlockHashOrNumber::Num(second.number()));
            &&& a is Some
            &&& b is Some
            &&& a.unwrap().tx_count == first.block.body@.len()
            &&& b.unwrap().tx_count == second.block.body@.len()
            &&& b.unwrap().tx_offset == a.unwrap().tx_offset + a.unwrap().tx_count
        }),
{
}

/// One block handed in for commitment, with the state diff and the receipts that came
/// with it.
pub struct Commit<T, R, C, S> {
    pub block: SealedBlockWithStatus<T>,
    pub states: StateUpdatesWithDeclaredClasses<C, S>,
    pub receipts: Seq<R>,
}

/// The store after the blocks of `commits` were handed in, front to back.
pub open spec fn run<T, R, C, S>(
    m: StoreModel<T, R, C, S>,
    commits: Seq<Commit<T, R, C, S>>,
) -> StoreModel<T, R, C, S>
    decreases commits.len(),
{
    if commits.len() == 0 {
        m
    } else {
        let c = commits.last();
        run(m, commits.drop_last()).step(c.block, c.states, c.receipts)
    }
}

/// The state `w` after the state diffs of `commits` were applied to it, front to back.
pub open spec fn apply_all<T, R, C, S>(w: WorldState, commits: Seq<Commit<T, R, C, S>>) -> WorldState
    decreases commits.len(),
{
    if commits.len() == 0 {
        w
    } else {
        apply_all(w, commits.drop_last()).apply(commits.last().states.state_updates)
    }
}

/// Whether every block of `commits` is accepted when its turn comes.
pub open spec fn all_accepted<T, R, C, S>(
    m: StoreModel<T, R, C, S>,
    commits: Seq<Commit<T, R, C, S>>,
) -> bool {
    forall|i: int|
        0 <= i < commits.len() ==> run(m, #[trigger] commits.take(i)).refusal(
            commits[i].block,
            commits[i].receipts,
        ) is None
}

/// Snapshot isolation. After a sequence of commits, the state as of the block of the
/// `i`-th commit is the state that the store started from with the diffs of the
/// commits up to and including the `i`-th applied to it, and none of the later ones.
/// The latest state has the diffs of all of them.
pub proof fn lemma_snapshot_isolation<T, R, C, S>(
    m: StoreModel<T, R, C, S>,
    commits: Seq<Commit<T, R, C, S>>,
    i: int,
)
    requires
        all_accepted(m, commits),
        0 <= i < commits.len(),
    ensures
        run(m, commits).chain.contains_block(commits[i].block.number()),
        run(m, commits).state_at(BlockHashOrNumber::Num(commits[i].block.number())) == Some(
            apply_all(m.latest, commits.take(i + 1)),
        ),
        run(m, commits).latest == apply_all(m.latest, commits),
    decreases commits.len(),
{
    let front = commits.drop_last();
    let last = commits.last();
    assert(commits.take(commits.len() - 1) =~= front);
    assert(all_accepted(m, front)) by {
        assert forall|k: int| 0 <= k < front.len() implies run(m, #[trigger] front.take(k)).refusal(
            front[k].block,
            front[k].receipts,
        ) is None by {
            assert(front.take(k) =~= commits.take(k));
        }
    }
    lemma_latest_after_commits(m, front);
    if i < commits.len() - 1 {
        lemma_snapshot_isolation(m, front, i);
        assert(front.take(i + 1) =~= commits.take(i + 1));
    } else {
        assert(commits.take(i + 1) =~= commits);
    }
}

/// After a sequence of commits the latest state is the state that the store started
/// from with the diffs of all of them applied, front to back.
pub proof fn lemma_latest_after_commits<T, R, C, S>(
    m: StoreModel<T, R, C, S>,
    commits: Seq<Commit<T, R, C, S>>,
)
    requires
        all_accepted(m, commits),
    ensures
        run(m, commits).latest == apply_all(m.latest, commits),
    decreases commits.len(),
{
    if commits.len() > 0 {
        let front = commits.drop_last();
        assert(commits.take(commits.len() - 1) =~= front);
        assert(all_accepted(m, front)) by {
            assert forall|k: int| 0 <= k < front.len() implies run(
                m,
                #[trigger] front.take(k),
            ).refusal(front[k].block, front[k].receipts) is None by {
                assert(front.take(k) =~= commits.take(k));
            }
        }
        lemma_latest_after_commits(m, front);
    }
}

/// Snapshot isolation, for writes. A write to the latest state leaves the state as of
/// every committed block as it was.
pub proof fn lemma_history_survives_writes<T, R, C, S>(
    m: StoreModel<T, R, C, S>,
    id: BlockHashOrNumber,
    address: Felt,
    key: Felt,
    value: Felt,
)
    ensures
        m.set_storage(address, key, value).state_at(id) == m.state_at(id),
        m.set_nonce(address, value).state_at(id) == m.state_at(id),
        m.set_class_hash(address, value).state_at(id) == m.state_at(id),
{
}

/// Absence, for blocks. A selector that names no committed block finds nothing, in
/// every query that takes a selector.
pub proof fn lemma_unknown_block<T, R, C, S>(m: StoreModel<T, R, C, S>, id: BlockHashOrNumber)
    requires
        m.wf(),
        m.chain.record(id) is None,
    ensures
        m.chain.header(id) is None,
        m.chain.status(id) is None,
        m.chain.body_indices(id) is None,
        m.chain.state_root(id) is None,
        m.chain.tx_count(id) is None,
        m.chain.block_txs(id) is None,
        m.chain.block_receipts(id) is None,
        m.chain.state_update(id) is None,
        forall|idx: u64| m.chain.tx_by_block_and_idx(id, idx) is None,
        m.state_at(id) is None,
{
    match m.chain.resolve(id) {
        Some(n) => {
            assert(!m.chain.blocks.dom().contains(n));
            assert(!m.chain.state_updates.dom().contains(n));
            assert(!m.history.dom().contains(n));
        },
        None => {},
    }
}

/// Absence, for transactions. A hash that names no committed transaction finds
/// nothing, in every query that takes a transaction hash.
pub proof fn lemma_unknown_transaction<T, R>(m: ChainModel<T, R>, hash: Felt)
    requires
        !m.tx_numbers.contains_key(hash),
    ensures
        m.tx_by_hash(hash) is None,
        m.tx_block(hash) is None,
        m.tx_status(hash) is None,
        m.receipt_by_hash(hash) is None,
{
}

/// Absence, in the empty store. A store that nothing was committed to knows no
/// block number, no block hash and no transaction hash.
pub proof fn lemma_empty_knows_nothing<T, R, C, S>(id: BlockHashOrNumber, hash: Felt)
    ensures
        StoreModel::<T, R, C, S>::empty().wf(),
        StoreModel::<T, R, C, S>::empty().chain.record(id) is None,
        !StoreModel::<T, R, C, S>::empty().chain.tx_numbers.contains_key(hash),
{
    let m = StoreModel::<T, R, C, S>::empty();
    assert(m.chain.committed_end() == 0);
}

/// Absence, across a commit. A commit makes known the number and the hash of its
/// block and the hashes of its transactions, and nothing else: what was unknown
/// before and is not named by the block stays unknown.
pub proof fn lemma_commit_adds_only_its_own<T, R>(
    m: ChainModel<T, R>,
    block: SealedBlockWithStatus<T>,
    updates: StateUpdates,
    receipts: Seq<R>,
)
    requires
        m.txs.len() + block.block.body@.len() <= u64::MAX,
    ensures
        forall|n: u64| #[trigger]
            m.insert_block(block, updates, receipts).contains_block(n) <==> m.contains_block(n) || n
                == block.number(),
        forall|h: Felt| #[trigger]
            m.insert_block(block, updates, receipts).numbers.contains_key(h)
                <==> m.numbers.contains_key(h) || h == block.hash(),
        forall|h: Felt| #[trigger]
            m.insert_block(block, updates, receipts).tx_numbers.contains_key(h)
                <==> m.tx_numbers.contains_key(h) || block.tx_hashes().contains(h),
{
    lemma_index_hashes(m.tx_numbers, block.tx_hashes(), m.txs.len());
}

/// Append only. A commit changes nothing of what was committed before: every block
/// that was known keeps its record, its transactions, its receipts and its state
/// diff, and every transaction keeps its number.
pub proof fn lemma_commit_is_append_only<T, R>(
    m: ChainModel<T, R>,
    block: SealedBlockWithStatus<T>,
    updates: StateUpdates,
    receipts: Seq<R>,
    n: u64,
)
    requires
        m.wf(),
        !m.contains_block(block.number()),
        m.contains_block(n),
    ensures
        ({
            let next = m.insert_block(block, updates, receipts);
            let id = BlockHashOrNumber::Num(n);
            &&& next.record(id) == m.record(id)
            &&& next.block_txs(id) == m.block_txs(id)
            &&& next.block_receipts(id) == m.block_receipts(id)
            &&& next.state_update(id) == m.state_update(id)
            &&& forall|i: int| 0 <= i < m.txs.len() ==> #[trigger] next.txs[i] == m.txs[i]
            &&& forall|i: int| 0 <= i < m.receipts.len() ==> #[trigger] next.receipts[i] == m.receipts[i]
        }),
{
    let next = m.insert_block(block, updates, receipts);
    let body = m.blocks[n].body;
    assert(next.body_txs(body) =~= m.body_txs(body));
    assert(next.body_receipts(body) =~= m.body_receipts(body));
    assert(m.state_updates.dom().contains(n));
}

/// Duplicate registration. A block whose number is already committed is refused as a
/// duplicate, whatever else it holds, and the store stays exactly as it was.
pub proof fn lemma_duplicate_refused<T, R, C, S>(
    m: StoreModel<T, R, C, S>,
    block: SealedBlockWithStatus<T>,
    states: StateUpdatesWithDeclaredClasses<C, S>,
    receipts: Seq<R>,
)
    requires
        m.chain.contains_block(block.number()),
    ensures
        m.refusal(block, receipts) == Some(CommitError::DuplicateBlock),
        m.step(block, states, receipts) == m,
{
}

/// A commit that is not refused keeps the store well formed, as long as the
/// transaction numbers stay within 64 bits.
pub proof fn lemma_commit_wf<T, R, C, S>(
    m: StoreModel<T, R, C, S>,
    block: SealedBlockWithStatus<T>,
    states: StateUpdatesWithDeclaredClasses<C, S>,
    receipts: Seq<R>,
)
    requires
        m.wf(),
        m.chain.txs.len() + block.block.body@.len() <= u64::MAX,
    ensures
        m.step(block, states, receipts).wf(),
{
    if m.refusal(block, receipts) is None {
        m.chain.lemma_insert_block_wf(block, states.state_updates, receipts);
    }
}

} // verus!
