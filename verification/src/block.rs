//! The order in which a block's operations are indexed, and the checks made
//! on the withdrawals the swap service records for it.

use vstd::prelude::*;
use crate::address::{InscriptionId, bytes_eq};

verus! {

/// Transactions are indexed from the second on, the coinbase (the first) last.
pub fn block_tx_order(n: usize) -> (r: Vec<usize>)
    ensures
        r@.len() == n,
        forall|i: int| 0 <= i < n - 1 ==> #[trigger] r@[i] == i + 1,
        n > 0 ==> r@[n - 1] == 0,
{
    let mut r: Vec<usize> = Vec::new();
    let mut i: usize = 1;
    while i < n
        invariant
            1 <= i,
            n > 0 ==> i <= n,
            n == 0 ==> i == 1,
            r@.len() == i - 1,
            forall|j: int| 0 <= j < i - 1 ==> #[trigger] r@[j] == j + 1,
        decreases n - i,
    {
        r.push(i);
        i = i + 1;
    }
    if n > 0 {
        r.push(0);
    }
    r
}

/// Same inscription.
pub fn same_inscription(a: &InscriptionId, b: &InscriptionId) -> (r: bool)
    ensures
        r == (*a == *b),
{
    let same_txid = bytes_eq(a.txid.as_slice(), b.txid.as_slice());
    assert(same_txid ==> a.txid == b.txid) by {
        if same_txid {
            assert(a.txid@ == b.txid@);
            vstd::array::lemma_array_index::<u8, 32>(a.txid, 0);
        }
    }
    same_txid && a.index == b.index
}

/// Whether an inscription is in a list.
pub fn listed(ids: &Vec<InscriptionId>, id: &InscriptionId) -> (r: bool)
    ensures
        r == ids@.contains(*id),
{
    let mut i: usize = 0;
    while i < ids.len()
        invariant
            i <= ids@.len(),
            forall|j: int| 0 <= j < i ==> ids@[j] != *id,
        decreases ids.len() - i,
    {
        if same_inscription(&ids[i], id) {
            assert(ids@[i as int] == *id);
            return true;
        }
        i = i + 1;
    }
    false
}

/// The first recorded withdrawal whose inscription is not among the block's
/// operations (the block cannot be indexed then), or none.
pub fn unlisted_withdraw(operations: &Vec<InscriptionId>, withdrawals: &Vec<InscriptionId>) -> (r: Option<InscriptionId>)
    ensures
        match r {
            None => forall|i: int| 0 <= i < withdrawals@.len() ==> operations@.contains(#[trigger] withdrawals@[i]),
            Some(x) => exists|i: int| 0 <= i < withdrawals@.len() && #[trigger] withdrawals@[i] == x
                && !operations@.contains(x)
                && forall|j: int| 0 <= j < i ==> operations@.contains(#[trigger] withdrawals@[j]),
        },
{
    let mut i: usize = 0;
    while i < withdrawals.len()
        invariant
            i <= withdrawals@.len(),
            forall|j: int| 0 <= j < i ==> operations@.contains(#[trigger] withdrawals@[j]),
        decreases withdrawals.len() - i,
    {
        if !listed(operations, &withdrawals[i]) {
            return Some(withdrawals[i]);
        }
        i = i + 1;
    }
    None
}

/// The sequence number of the first operation carried by a transaction, or
/// zero when it carries none; `operations` pairs each operation's transaction
/// with its sequence number.
pub fn sequence_number_of(operations: &Vec<([u8; 32], u32)>, txid: &[u8; 32]) -> (r: u32)
    ensures
        (exists|i: int| 0 <= i < operations@.len() && #[trigger] operations@[i].0 == *txid) ==> exists|i: int|
            0 <= i < operations@.len() && #[trigger] operations@[i].0 == *txid && r == operations@[i].1
                && forall|j: int| 0 <= j < i ==> #[trigger] operations@[j].0 != *txid,
        (forall|i: int| 0 <= i < operations@.len() ==> #[trigger] operations@[i].0 != *txid) ==> r == 0,
{
    let mut i: usize = 0;
    while i < operations.len()
        invariant
            i <= operations@.len(),
            forall|j: int| 0 <= j < i ==> #[trigger] operations@[j].0 != *txid,
        decreases operations.len() - i,
    {
        let same = bytes_eq(operations[i].0.as_slice(), txid.as_slice());
        if same {
            proof {
                assert(operations@[i as int].0@ == txid@);
                let a = operations@[i as int].0;
                assert forall|k: int| 0 <= k < 32 implies a[k] == txid[k] by {
                    assert(a@[k] == txid@[k]);
                }
                assert(a =~= *txid);
            }
            return operations[i].1;
        }
        proof {
            if operations@[i as int].0 == *txid {
                assert(operations@[i as int].0@ =~= txid@);
            }
        }
        i = i + 1;
    }
    0
}

} // verus!
