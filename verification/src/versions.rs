//! Version chains: the values that one place has held, each tagged with the epoch in
//! which it was written, so that the value as of any epoch can be read back.

use vstd::prelude::*;

verus! {

/// One value of a place, and the epoch in which it was written.
#[derive(Debug)]
pub struct Version<V> {
    pub epoch: u128,
    pub value: V,
}

/// Whether the epochs of a chain strictly increase from front to back.
pub open spec fn ascending<V>(chain: Seq<Version<V>>) -> bool {
    forall|i: int, j: int| 0 <= i < j < chain.len() ==> chain[i].epoch < chain[j].epoch
}

/// The value that a chain shows as of `epoch`: that of the last version written in
/// `epoch` or before, if there is one.
pub open spec fn value_at<V>(chain: Seq<Version<V>>, epoch: int) -> Option<V>
    decreases chain.len(),
{
    if chain.len() == 0 {
        None
    } else if chain.last().epoch <= epoch {
        Some(chain.last().value)
    } else {
        value_at(chain.drop_last(), epoch)
    }
}

/// The chain after `value` was written in `epoch`: a write in the epoch of the last
/// version replaces that version, a write in a later epoch adds one.
pub open spec fn recorded<V>(chain: Seq<Version<V>>, epoch: u128, value: V) -> Seq<Version<V>> {
    if chain.len() > 0 && chain.last().epoch == epoch {
        chain.drop_last().push(Version { epoch, value })
    } else {
        chain.push(Version { epoch, value })
    }
}

/// Whether no version of the chain is later than `epoch`.
pub open spec fn not_after<V>(chain: Seq<Version<V>>, epoch: int) -> bool {
    chain.len() > 0 ==> chain.last().epoch <= epoch
}

/// In an ascending chain whose first `p` versions are the ones written in `epoch` or
/// before, the value as of `epoch` is that of version `p - 1`.
pub proof fn lemma_value_at_split<V>(chain: Seq<Version<V>>, epoch: int, p: int)
    requires
        ascending(chain),
        0 <= p <= chain.len(),
        forall|i: int| 0 <= i < p ==> chain[i].epoch <= epoch,
        forall|i: int| p <= i < chain.len() ==> chain[i].epoch > epoch,
    ensures
        value_at(chain, epoch) == (if p == 0 {
            None
        } else {
            Some(chain[p - 1].value)
        }),
    decreases chain.len(),
{
    if chain.len() > 0 && p < chain.len() {
        lemma_value_at_split(chain.drop_last(), epoch, p);
    }
}

/// A write in an epoch that no version is later than shows in that epoch and in all
/// later ones, and in no earlier one.
pub proof fn lemma_recorded<V>(chain: Seq<Version<V>>, epoch: u128, value: V)
    requires
        ascending(chain),
        not_after(chain, epoch as int),
    ensures
        ascending(recorded(chain, epoch, value)),
        not_after(recorded(chain, epoch, value), epoch as int),
        forall|e: int| e >= epoch ==> #[trigger] value_at(recorded(chain, epoch, value), e) == Some(value),
        forall|e: int|
            e < epoch ==> #[trigger] value_at(recorded(chain, epoch, value), e) == value_at(
                chain,
                e,
            ),
{
    let next = recorded(chain, epoch, value);
    assert forall|e: int| e < epoch implies #[trigger] value_at(next, e) == value_at(chain, e) by {
        if chain.len() > 0 && chain.last().epoch == epoch {
            assert(next.drop_last() =~= chain.drop_last());
        } else {
            assert(next.drop_last() =~= chain);
        }
    }
}

/// As of any epoch that no version is later than, a chain shows its last value.
pub proof fn lemma_value_at_latest<V>(chain: Seq<Version<V>>, epoch: int)
    requires
        not_after(chain, epoch),
    ensures
        value_at(chain, epoch) == (if chain.len() == 0 {
            None
        } else {
            Some(chain.last().value)
        }),
{
}

/// Writes `value` in `epoch`, which must not lie before the epoch of the last version.
pub fn record<V>(chain: &mut Vec<Version<V>>, epoch: u128, value: V)
    requires
        ascending(old(chain)@),
        not_after(old(chain)@, epoch as int),
    ensures
        final(chain)@ == recorded(old(chain)@, epoch, value),
{
    let n = chain.len();
    if n > 0 && chain[n - 1].epoch == epoch {
        chain.pop();
        chain.push(Version { epoch, value });
    } else {
        chain.push(Version { epoch, value });
    }
}

/// The value as of `epoch`, found by binary search over the epochs of the chain.
pub fn lookup<V: Copy>(chain: &Vec<Version<V>>, epoch: u128) -> (r: Option<V>)
    requires
        ascending(chain@),
    ensures
        r == value_at(chain@, epoch as int),
{
    let mut lo: usize = 0;
    let mut hi: usize = chain.len();
    while lo < hi
        invariant
            0 <= lo <= hi <= chain@.len(),
            ascending(chain@),
            forall|i: int| 0 <= i < lo ==> chain@[i].epoch <= epoch,
            forall|i: int| hi <= i < chain@.len() ==> chain@[i].epoch > epoch,
        decreases hi - lo,
    {
        let mid = lo + (hi - lo) / 2;
        if chain[mid].epoch <= epoch {
            lo = mid + 1;
        } else {
            hi = mid;
        }
    }
    proof {
        lemma_value_at_split(chain@, epoch as int, lo as int);
    }
    if lo == 0 {
        None
    } else {
        Some(chain[lo - 1].value)
    }
}

/// The value written last.
pub fn latest<V: Copy>(chain: &Vec<Version<V>>) -> (r: Option<V>)
    ensures
        r == (if chain@.len() == 0 {
            None
        } else {
            Some(chain@.last().value)
        }),
{
    let n = chain.len();
    if n == 0 {
        None
    } else {
        Some(chain[n - 1].value)
    }
}

} // verus!
