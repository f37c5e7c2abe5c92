//! Savepoints kept for rolling the index back after a chain reorganisation:
//! which savepoint was taken at which block height.

use vstd::prelude::*;
use std::collections::BTreeMap;
use std::cmp::Ordering;
use itertools::Itertools;
use vstd::std_specs::btree::increasing_seq;
use vstd::std_specs::iter::IteratorSpec;
use vstd::std_specs::cmp::OrdSpec;
use crate::bigint::{big_from_u128, big_to_decimal, nat_digits};

verus! {

broadcast use {vstd::std_specs::btree::group_btree_axioms, vstd::laws_cmp::group_laws_cmp};

/// Most savepoints kept at once.
pub const MAX_SAVEPOINTS: u32 = 6;

/// Blocks between two savepoints.
pub const SAVEPOINT_INTERVAL: u32 = 5;

/// Savepoints are taken only this close to the chain tip.
pub const CHAIN_TIP_DISTANCE: u32 = 21;

/// A reorganisation found when a block does not extend the indexed chain.
#[derive(Debug, Clone, Copy, PartialEq, Eq)]
pub enum ReorgError {
    /// The chains agree again `depth` blocks below `height`: a savepoint can undo it.
    Recoverable { height: u32, depth: u32 },
    /// No common block within the reach of the savepoints.
    Unrecoverable,
}

/// The message of a reorganisation error.
pub open spec fn reorg_error_text(e: ReorgError) -> Seq<char> {
    match e {
        ReorgError::Recoverable { height, depth } => nat_digits(depth as nat)
            + " block deep reorg detected at height "@ + nat_digits(height as nat),
        ReorgError::Unrecoverable => "unrecoverable reorg detected"@,
    }
}

impl ReorgError {
    /// The message.
    pub fn to_string(&self) -> (r: String)
        ensures
            r@ == reorg_error_text(*self),
    {
        match self {
            ReorgError::Recoverable { height, depth } => {
                let mut s = big_to_decimal(&big_from_u128(*depth as u128));
                proof { reveal_strlit(" block deep reorg detected at height "); }
                s.append(" block deep reorg detected at height ");
                let h = big_to_decimal(&big_from_u128(*height as u128));
                s.append(h.as_str());
                s
            },
            ReorgError::Unrecoverable => "unrecoverable reorg detected".to_owned(),
        }
    }
}

/// How deep a reorganisation at `height` can be and still be undone: the
/// blocks covered by all but the newest savepoint, plus those since the last
/// savepoint boundary.
pub fn max_recoverable_reorg_depth(height: u32) -> (r: u32)
    ensures
        r == (MAX_SAVEPOINTS - 1) * SAVEPOINT_INTERVAL + height % SAVEPOINT_INTERVAL,
{
    (MAX_SAVEPOINTS - 1) * SAVEPOINT_INTERVAL + height % SAVEPOINT_INTERVAL
}

/// `a - b`, or zero below zero.
pub open spec fn saturating_sub(a: u64, b: u64) -> int {
    if a >= b { a - b } else { 0 }
}

/// A savepoint is taken at `height` when the chain is still short or enough
/// blocks have passed since the last one, and only near the chain tip.
pub fn savepoint_due(height: u64, last_savepoint_height: u64, headers: u64) -> (r: bool)
    ensures
        r == ((height < SAVEPOINT_INTERVAL || saturating_sub(height, last_savepoint_height) >= SAVEPOINT_INTERVAL)
            && saturating_sub(headers, height) <= CHAIN_TIP_DISTANCE),
{
    (height < SAVEPOINT_INTERVAL as u64
        || height.saturating_sub(last_savepoint_height) >= SAVEPOINT_INTERVAL as u64)
        && headers.saturating_sub(height) <= CHAIN_TIP_DISTANCE as u64
}

/// The savepoint to drop before a new one is taken: the oldest (smallest id)
/// once `MAX_SAVEPOINTS` are kept, else none.
pub fn savepoint_to_drop(savepoints: &Vec<u64>) -> (r: Option<u64>)
    ensures
        savepoints@.len() < MAX_SAVEPOINTS ==> r is None,
        savepoints@.len() >= MAX_SAVEPOINTS ==> (r matches Some(p) && savepoints@.contains(p)
            && forall|i: int| 0 <= i < savepoints@.len() ==> p <= #[trigger] savepoints@[i]),
{
    if savepoints.len() < MAX_SAVEPOINTS as usize {
        return None;
    }
    let mut m = savepoints[0];
    let mut k: usize = 1;
    while k < savepoints.len()
        invariant
            1 <= k <= savepoints@.len(),
            savepoints@.contains(m),
            forall|i: int| 0 <= i < k ==> m <= #[trigger] savepoints@[i],
        decreases savepoints.len() - k,
    {
        if savepoints[k] < m {
            m = savepoints[k];
        }
        k = k + 1;
    }
    Some(m)
}

/// `v` lists the entries of `m` by increasing height.
pub open spec fn lists_by_height(v: Seq<(u64, u64)>, m: Map<u64, u64>) -> bool {
    &&& forall|i: int| 0 <= i < v.len() ==> m.contains_key(#[trigger] v[i].0) && m[v[i].0] == v[i].1
    &&& forall|h: u64| m.contains_key(h) ==> exists|i: int| 0 <= i < v.len() && #[trigger] v[i].0 == h
    &&& forall|i: int, j: int| 0 <= i < j < v.len() ==> v[i].0 < v[j].0
}

/// `r` lists the savepoints of `m` above `end` by increasing height, `hs` being those heights.
pub open spec fn lists_removed(hs: Seq<u64>, m: Map<u64, u64>, end: u64, r: Seq<u64>) -> bool {
    &&& hs.len() == r.len()
    &&& forall|i: int, j: int| 0 <= i < j < hs.len() ==> hs[i] < hs[j]
    &&& forall|i: int| 0 <= i < hs.len() ==> m.contains_key(#[trigger] hs[i]) && m[hs[i]] > end
        && r[i] == m[hs[i]]
    &&& forall|h: u64| m.contains_key(h) && m[h] > end ==> hs.contains(h)
}

/// `r` lists, by increasing height, the savepoints of `m` above `end`.
pub open spec fn removed_list(m: Map<u64, u64>, end: u64, r: Seq<u64>) -> bool {
    exists|hs: Seq<u64>| #[trigger] lists_removed(hs, m, end, r)
}

/// The entries of `m` whose savepoint is above `end`, kept.
pub open spec fn entries_above(m: Map<u64, u64>, end: u64) -> Map<u64, u64> {
    Map::new(|h: u64| m.contains_key(h) && m[h] > end, |h: u64| m[h])
}

/// The entries of `m` whose savepoint is not `p`.
pub open spec fn entries_without(m: Map<u64, u64>, p: u64) -> Map<u64, u64> {
    Map::new(|h: u64| m.contains_key(h) && m[h] != p, |h: u64| m[h])
}

/// `k` is the largest height of `m` below `h`.
pub open spec fn highest_below(m: Map<u64, u64>, h: u64, k: u64) -> bool {
    &&& m.contains_key(k)
    &&& k < h
    &&& forall|k2: u64| m.contains_key(k2) && k2 < h ==> k2 <= k
}

/// Orders entries by decreasing height.
pub fn by_height_desc(a: &(u64, u64), b: &(u64, u64)) -> (r: Ordering)
    ensures
        (r == Ordering::Less) == (a.0 > b.0),
        (r == Ordering::Greater) == (a.0 < b.0),
        (r == Ordering::Equal) == (a.0 == b.0),
{
    if a.0 > b.0 {
        Ordering::Less
    } else if a.0 < b.0 {
        Ordering::Greater
    } else {
        Ordering::Equal
    }
}

/// `Itertools::sorted_by` with `by_height_desc`: the same entries, by decreasing height.
#[verifier::external_body]
fn sort_by_height_desc(v: Vec<(u64, u64)>) -> (r: Vec<(u64, u64)>)
    ensures
        r@.to_multiset() == v@.to_multiset(),
        forall|i: int, j: int| 0 <= i < j < r@.len() ==> r@[i].0 >= r@[j].0,
{
    v.into_iter().sorted_by(by_height_desc).collect()
}

/// The savepoints, keyed by the block height at which each was taken.
pub struct Reorg {
    points: BTreeMap<u64, u64>,
}

impl View for Reorg {
    type V = Map<u64, u64>;

    closed spec fn view(&self) -> Map<u64, u64> {
        self.points@
    }
}

impl Reorg {
    /// No savepoints.
    pub fn new() -> (r: Reorg)
        ensures
            r@ == Map::<u64, u64>::empty(),
    {
        Reorg { points: BTreeMap::new() }
    }

    /// The entries by increasing height.
    fn entries(&self) -> (r: Vec<(u64, u64)>)
        ensures
            lists_by_height(r@, self@),
    {
        let iter = self.points.iter();
        let ghost s = iter.remaining();
        let ghost keys = s.map_values(|kv: (&u64, &u64)| *kv.0);
        assert(increasing_seq(keys));
        let mut out: Vec<(u64, u64)> = Vec::new();
        for (h, p) in it: iter
            invariant
                it.seq() == s,
                out@.len() == it.index(),
                forall|i: int| 0 <= i < out@.len() ==> out@[i] == (*s[i].0, *s[i].1),
        {
            out.push((*h, *p));
        }
        proof {
            assert(out@.len() == s.len());
            assert(vstd::laws_cmp::obeys_cmp::<u64>());
            vstd::std_specs::btree::axiom_increasing_seq_meaning(keys);
            assert forall|i: int, j: int| 0 <= i < j < out@.len() implies out@[i].0 < out@[j].0 by {
                assert(keys[i].cmp_spec(&keys[j]) is Less);
                assert(keys[i] == out@[i].0);
                assert(keys[j] == out@[j].0);
            }
            assert forall|h: u64| self@.contains_key(h) implies exists|i: int| 0 <= i < out@.len() && #[trigger] out@[i].0 == h by {
                assert(s.contains((&h, &self@[h])));
                let i = choose|i: int| 0 <= i < s.len() && s[i] == (&h, &self@[h]);
                assert(out@[i].0 == h);
            }
        }
        out
    }

    /// Records the savepoint taken at a height (replacing one recorded there).
    pub fn insert_point(&mut self, block_height: u64, point: u64)
        ensures
            final(self)@ == old(self)@.insert(block_height, point),
    {
        self.points.insert(block_height, point);
    }

    /// Forgets every height recorded with the given savepoint.
    pub fn remove_point(&mut self, point: u64)
        ensures
            final(self)@ == entries_without(old(self)@, point),
    {
        let e = self.entries();
        let ghost m0 = self@;
        let mut i: usize = 0;
        while i < e.len()
            invariant
                lists_by_height(e@, m0),
                i <= e@.len(),
                forall|h: u64| #[trigger] self@.contains_key(h) ==> m0.contains_key(h) && self@[h] == m0[h],
                forall|h: u64| m0.contains_key(h) && m0[h] != point ==> #[trigger] self@.contains_key(h),
                forall|j: int| 0 <= j < i ==> !self@.contains_key(#[trigger] e@[j].0) || e@[j].1 != point,
                forall|j: int| i <= j < e@.len() ==> self@.contains_key(#[trigger] e@[j].0),
            decreases e.len() - i,
        {
            if e[i].1 == point {
                self.points.remove(&e[i].0);
            }
            proof {
                assert forall|j: int| i < j < e@.len() implies self@.contains_key(#[trigger] e@[j].0) by {
                    assert(e@[i as int].0 < e@[j].0);
                }
            }
            i = i + 1;
        }
        proof {
            assert forall|h: u64| #[trigger] self@.contains_key(h) == entries_without(m0, point).contains_key(h) by {
                if m0.contains_key(h) && m0[h] == point {
                    let j = choose|j: int| 0 <= j < e@.len() && #[trigger] e@[j].0 == h;
                    assert(e@[j].1 == point);
                }
            }
            assert(self@ =~= entries_without(m0, point));
        }
    }

    /// Forgets every savepoint above `end_point` and returns them, by increasing height.
    pub fn retain_point(&mut self, end_point: u64) -> (r: Vec<u64>)
        ensures
            final(self)@ == Map::new(|h: u64| old(self)@.contains_key(h) && old(self)@[h] <= end_point, |h: u64| old(self)@[h]),
            removed_list(old(self)@, end_point, r@),
    {
        let e = self.entries();
        let ghost m0 = self@;
        let mut removed: Vec<u64> = Vec::new();
        let ghost mut hs: Seq<u64> = Seq::empty();
        let mut i: usize = 0;
        while i < e.len()
            invariant
                lists_by_height(e@, m0),
                i <= e@.len(),
                hs.len() == removed@.len(),
                forall|a: int, b: int| 0 <= a < b < hs.len() ==> hs[a] < hs[b],
                forall|a: int| 0 <= a < hs.len() ==> m0.contains_key(#[trigger] hs[a])
                    && m0[hs[a]] > end_point && removed@[a] == m0[hs[a]],
                forall|a: int| 0 <= a < hs.len() ==> exists|j: int| 0 <= j < i && e@[j].0 == #[trigger] hs[a],
                forall|j: int| 0 <= j < i && #[trigger] e@[j].1 > end_point ==> hs.contains(e@[j].0),
                forall|h: u64| #[trigger] self@.contains_key(h) ==> m0.contains_key(h) && self@[h] == m0[h],
                forall|h: u64| m0.contains_key(h) && m0[h] <= end_point ==> #[trigger] self@.contains_key(h),
                forall|j: int| 0 <= j < i ==> !self@.contains_key(#[trigger] e@[j].0) || e@[j].1 <= end_point,
                forall|j: int| i <= j < e@.len() ==> self@.contains_key(#[trigger] e@[j].0),
            decreases e.len() - i,
        {
            let (h, p) = e[i];
            let ghost hs_before = hs;
            if p > end_point {
                proof {
                    assert forall|a: int| 0 <= a < hs.len() implies hs[a] < h by {
                        let j = choose|j: int| 0 <= j < i && e@[j].0 == #[trigger] hs[a];
                        assert(e@[j].0 < e@[i as int].0);
                    }
                    hs = hs.push(h);
                    assert forall|a: int| 0 <= a < hs.len() implies exists|j: int| 0 <= j < i + 1 && e@[j].0 == #[trigger] hs[a] by {
                        if a < hs.len() - 1 {
                            let j = choose|j: int| 0 <= j < i && e@[j].0 == #[trigger] hs.drop_last()[a];
                            assert(e@[j].0 == hs[a]);
                        } else {
                            assert(e@[i as int].0 == hs[a]);
                        }
                    }
                }
                removed.push(p);
                self.points.remove(&h);
            }
            proof {
                assert forall|j: int| i < j < e@.len() implies self@.contains_key(#[trigger] e@[j].0) by {
                    assert(e@[i as int].0 < e@[j].0);
                }
                assert forall|j: int| 0 <= j < i + 1 && #[trigger] e@[j].1 > end_point implies hs.contains(e@[j].0) by {
                    if j == i {
                        assert(hs[hs.len() - 1] == e@[j].0);
                    } else {
                        assert(hs_before.contains(e@[j].0));
                        let a = choose|a: int| 0 <= a < hs_before.len() && hs_before[a] == e@[j].0;
                        assert(hs[a] == e@[j].0);
                    }
                }
            }
            i = i + 1;
        }
        proof {
            assert forall|h: u64| #[trigger] self@.contains_key(h) == (m0.contains_key(h) && m0[h] <= end_point) by {
                if m0.contains_key(h) && m0[h] > end_point {
                    let j = choose|j: int| 0 <= j < e@.len() && #[trigger] e@[j].0 == h;
                }
            }
            assert(self@ =~= Map::new(|h: u64| m0.contains_key(h) && m0[h] <= end_point, |h: u64| m0[h]));
            assert forall|h: u64| m0.contains_key(h) && m0[h] > end_point implies hs.contains(h) by {
                let j = choose|j: int| 0 <= j < e@.len() && #[trigger] e@[j].0 == h;
            }
            assert(lists_removed(hs, m0, end_point, removed@));
        }
        removed
    }

    /// The savepoint recorded at the largest height below `reg_block_height`, if any.
    pub fn query_point(&self, reg_block_height: u64) -> (r: Option<u64>)
        ensures
            match r {
                Some(p) => exists|k: u64| highest_below(self@, reg_block_height, k) && self@[k] == p,
                None => forall|k: u64| self@.contains_key(k) ==> k >= reg_block_height,
            },
    {
        let e = self.entries();
        let sorted = sort_by_height_desc(e);
        let ghost m = self@;
        let mut i: usize = 0;
        while i < sorted.len()
            invariant
                m == self@,
                lists_by_height(e@, m),
                sorted@.to_multiset() == e@.to_multiset(),
                forall|a: int, b: int| 0 <= a < b < sorted@.len() ==> sorted@[a].0 >= sorted@[b].0,
                i <= sorted@.len(),
                forall|j: int| 0 <= j < i ==> #[trigger] sorted@[j].0 >= reg_block_height,
            decreases sorted.len() - i,
        {
            if sorted[i].0 < reg_block_height {
                proof {
                    let x = sorted@[i as int];
                    assert(sorted@.contains(x));
                    vstd::seq_lib::to_multiset_contains(sorted@, x);
                    vstd::seq_lib::to_multiset_contains(e@, x);
                    let idx = choose|idx: int| 0 <= idx < e@.len() && e@[idx] == x;
                    assert(m.contains_key(x.0) && m[x.0] == x.1);
                    assert forall|k2: u64| m.contains_key(k2) && k2 < reg_block_height implies k2 <= x.0 by {
                        let j2 = choose|j2: int| 0 <= j2 < e@.len() && #[trigger] e@[j2].0 == k2;
                        let y = e@[j2];
                        assert(e@.contains(y));
                        vstd::seq_lib::to_multiset_contains(e@, y);
                        vstd::seq_lib::to_multiset_contains(sorted@, y);
                        let js = choose|js: int| 0 <= js < sorted@.len() && sorted@[js] == y;
                        if js < i {
                            assert(sorted@[js].0 >= reg_block_height);
                        } else if js > i {
                            assert(sorted@[i as int].0 >= sorted@[js].0);
                        }
                    }
                    assert(highest_below(m, reg_block_height, x.0));
                }
                return Some(sorted[i].1);
            }
            i = i + 1;
        }
        proof {
            assert forall|k: u64| m.contains_key(k) implies k >= reg_block_height by {
                let j2 = choose|j2: int| 0 <= j2 < e@.len() && #[trigger] e@[j2].0 == k;
                let y = e@[j2];
                assert(e@.contains(y));
                vstd::seq_lib::to_multiset_contains(e@, y);
                vstd::seq_lib::to_multiset_contains(sorted@, y);
                let js = choose|js: int| 0 <= js < sorted@.len() && sorted@[js] == y;
                assert(sorted@[js].0 >= reg_block_height);
            }
        }
        None
    }

    /// Rolls back for a reorganisation reaching down to `reorg_height`: the
    /// savepoint to restore is the one recorded below that height, else
    /// `oldest_point`; every savepoint newer than it is forgotten and returned.
    pub fn rollback(&mut self, reorg_height: u64, oldest_point: u64) -> (r: (u64, Vec<u64>))
        ensures
            (exists|k: u64| highest_below(old(self)@, reorg_height, k) && old(self)@[k] == r.0)
                || (r.0 == oldest_point && forall|k: u64| old(self)@.contains_key(k) ==> k >= reorg_height),
            final(self)@ == Map::new(|h: u64| old(self)@.contains_key(h) && old(self)@[h] <= r.0, |h: u64| old(self)@[h]),
            removed_list(old(self)@, r.0, r.1@),
    {
        let latest = match self.query_point(reorg_height) {
            Some(p) => p,
            None => oldest_point,
        };
        let removed = self.retain_point(latest);
        (latest, removed)
    }
}

/// After a rollback, no savepoint newer than the restored one is left.
pub proof fn lemma_rollback_keeps_older(before: Map<u64, u64>, after: Map<u64, u64>, restored: u64)
    requires
        after == Map::new(|h: u64| before.contains_key(h) && before[h] <= restored, |h: u64| before[h]),
    ensures
        forall|h: u64| after.contains_key(h) ==> after[h] <= restored && before.contains_key(h) && after[h] == before[h],
        forall|h: u64| before.contains_key(h) && before[h] <= restored ==> after.contains_key(h),
{
}

/// A savepoint recorded at a height below the one asked for, with none recorded
/// in between, is the one a query finds.
pub proof fn lemma_query_after_insert(m: Map<u64, u64>, h: u64, p: u64, q: u64)
    requires
        h < q,
        forall|k: u64| m.contains_key(k) && h < k < q ==> false,
    ensures
        highest_below(m.insert(h, p), q, h),
        m.insert(h, p)[h] == p,
{
}

} // verus!
