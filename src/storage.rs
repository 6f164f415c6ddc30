//! The height-indexed store of one light client.
//!
//! Consensus states live in a single vector of entries sorted strictly by
//! height, each entry carrying the path key under which the framework asks for
//! it. Keyed lookup and ordered traversal read the same entries, so the two
//! views cannot drift apart.

use vstd::prelude::*;

use crate::context::ClientType;
use crate::height::{height_le, height_lt, Height};

verus! {

/// Which neighbour of a height an ordered query looks for.
#[derive(Clone, Copy, Debug, PartialEq, Eq, Structural)]
pub enum Direction {
    /// The smallest stored height at or above the given one.
    Next,
    /// The largest stored height at or below the given one.
    Prev,
}

/// Height `a` lies below `h`, or at it too when `inclusive` holds.
pub open spec fn below(a: Height, h: Height, inclusive: bool) -> bool {
    if inclusive {
        height_le(a, h)
    } else {
        height_lt(a, h)
    }
}

/// A consensus state together with its height and its path key.
struct ConsensusEntry<S> {
    height: Height,
    key: String,
    state: S,
}

/// The metadata of one client update: the height it installed, the host time
/// in nanoseconds and the host height at which it was processed.
struct MetaEntry {
    height: Height,
    host_timestamp: u64,
    host_height: Height,
}

/// Everything that is kept for one light client.
pub struct Storage<C: ClientType> {
    client_state: Option<C::ClientState>,
    consensus: Vec<ConsensusEntry<C::ConsensusState>>,
    update_meta: Vec<MetaEntry>,
}

impl<C: ClientType> Storage<C> {
    /// The current client state, if one was ever stored.
    pub closed spec fn client_view(&self) -> Option<C::ClientState> {
        self.client_state
    }

    /// The consensus entries in height order, with keys as character sequences.
    pub closed spec fn entries(&self) -> Seq<(Height, Seq<char>, C::ConsensusState)> {
        self.consensus@.map_values(
            |e: ConsensusEntry<C::ConsensusState>| (e.height, e.key@, e.state),
        )
    }

    /// The update metadata records, one per height.
    pub closed spec fn metas(&self) -> Seq<(Height, u64, Height)> {
        self.update_meta@.map_values(|m: MetaEntry| (m.height, m.host_timestamp, m.host_height))
    }

    /// The store holds state `s` under height `h` and key `k`.
    pub open spec fn has_entry(&self, h: Height, k: Seq<char>, s: C::ConsensusState) -> bool {
        exists|i: int| 0 <= i < self.entries().len() && #[trigger] self.entries()[i] == (h, k, s)
    }

    /// The store holds state `s` under path key `k`.
    pub open spec fn has_key_state(&self, k: Seq<char>, s: C::ConsensusState) -> bool {
        exists|i: int|
            0 <= i < self.entries().len() && #[trigger] self.entries()[i].1 == k
                && self.entries()[i].2 == s
    }

    /// Some consensus state is stored at height `h`.
    pub open spec fn has_height(&self, h: Height) -> bool {
        exists|i: int| 0 <= i < self.entries().len() && #[trigger] self.entries()[i].0 == h
    }

    /// The stored heights, in the order of the entries.
    pub open spec fn heights_view(&self) -> Seq<Height> {
        self.entries().map_values(|e: (Height, Seq<char>, C::ConsensusState)| e.0)
    }

    /// The store records timestamp `t` and host height `hh` for height `h`.
    pub open spec fn has_meta(&self, h: Height, t: u64, hh: Height) -> bool {
        exists|i: int| 0 <= i < self.metas().len() && #[trigger] self.metas()[i] == (h, t, hh)
    }

    /// State `s` sits at the smallest stored height at or above `h`.
    pub open spec fn is_next(&self, h: Height, s: C::ConsensusState) -> bool {
        exists|i: int|
            0 <= i < self.entries().len() && height_le(h, #[trigger] self.entries()[i].0)
                && self.entries()[i].2 == s && forall|j: int|
                0 <= j < self.entries().len() && height_le(h, #[trigger] self.entries()[j].0)
                    ==> height_le(self.entries()[i].0, self.entries()[j].0)
    }

    /// State `s` sits at the largest stored height at or below `h`.
    pub open spec fn is_prev(&self, h: Height, s: C::ConsensusState) -> bool {
        exists|i: int|
            0 <= i < self.entries().len() && height_le(#[trigger] self.entries()[i].0, h)
                && self.entries()[i].2 == s && forall|j: int|
                0 <= j < self.entries().len() && height_le(#[trigger] self.entries()[j].0, h)
                    ==> height_le(self.entries()[j].0, self.entries()[i].0)
    }

    /// No stored height lies at or above `h`.
    pub open spec fn none_above(&self, h: Height) -> bool {
        forall|i: int| 0 <= i < self.entries().len() ==> !height_le(h, #[trigger] self.entries()[i].0)
    }

    /// No stored height lies at or below `h`.
    pub open spec fn none_below(&self, h: Height) -> bool {
        forall|i: int| 0 <= i < self.entries().len() ==> !height_le(#[trigger] self.entries()[i].0, h)
    }

    /// The store holds some consensus state under path key `k`.
    pub open spec fn has_key(&self, k: Seq<char>) -> bool {
        exists|i: int| 0 <= i < self.entries().len() && #[trigger] self.entries()[i].1 == k
    }

    /// `after` holds `s` at height `h` under key `k`, and otherwise what
    /// `before` held at other heights and under other keys.
    pub open spec fn consensus_put(
        before: Self,
        after: Self,
        h: Height,
        k: Seq<char>,
        s: C::ConsensusState,
    ) -> bool {
        forall|h2: Height, k2: Seq<char>, s2: C::ConsensusState|
            #[trigger] after.has_entry(h2, k2, s2) <==> ((h2, k2, s2) == (h, k, s) || (
            before.has_entry(h2, k2, s2) && h2 != h && k2 != k))
    }

    /// `after` holds what `before` held, but for the entry at height `h` and
    /// the one under key `k`.
    pub open spec fn consensus_removed(before: Self, after: Self, h: Height, k: Seq<char>) -> bool {
        forall|h2: Height, k2: Seq<char>, s2: C::ConsensusState|
            #[trigger] after.has_entry(h2, k2, s2) <==> (before.has_entry(h2, k2, s2) && h2 != h
                && k2 != k)
    }

    /// `after` records `(t, hh)` for height `h` and otherwise what `before`
    /// recorded for other heights.
    pub open spec fn meta_put(before: Self, after: Self, h: Height, t: u64, hh: Height) -> bool {
        forall|h2: Height, t2: u64, hh2: Height|
            #[trigger] after.has_meta(h2, t2, hh2) <==> ((h2, t2, hh2) == (h, t, hh) || (
            before.has_meta(h2, t2, hh2) && h2 != h))
    }

    /// `after` records what `before` recorded, but for height `h`.
    pub open spec fn meta_removed(before: Self, after: Self, h: Height) -> bool {
        forall|h2: Height, t2: u64, hh2: Height|
            #[trigger] after.has_meta(h2, t2, hh2) <==> (before.has_meta(h2, t2, hh2) && h2 != h)
    }

    /// Heights strictly increase along the entries, path keys are distinct,
    /// and each height has at most one metadata record.
    pub open spec fn wf(&self) -> bool {
        &&& forall|i: int, j: int|
            0 <= i < j < self.entries().len() ==> height_lt(
                #[trigger] self.entries()[i].0,
                #[trigger] self.entries()[j].0,
            )
        &&& forall|i: int, j: int|
            0 <= i < j < self.entries().len() ==> #[trigger] self.entries()[i].1
                != #[trigger] self.entries()[j].1
        &&& forall|i: int, j: int|
            0 <= i < j < self.metas().len() ==> #[trigger] self.metas()[i].0
                != #[trigger] self.metas()[j].0
    }

    /// An empty store.
    pub fn new() -> (r: Self)
        ensures
            r.wf(),
            r.client_view() is None,
            r.entries().len() == 0,
            r.metas().len() == 0,
    {
        let r = Storage { client_state: None, consensus: Vec::new(), update_meta: Vec::new() };
        assert(r.entries().len() == 0);
        assert(r.metas().len() == 0);
        r
    }

    /// Position of the entry under path key `key`, if there is one.
    fn find_key(&self, key: &String) -> (r: Option<usize>)
        ensures
            match r {
                Some(i) => i < self.entries().len() && self.entries()[i as int].1 == key@,
                None => forall|j: int|
                    0 <= j < self.entries().len() ==> #[trigger] self.entries()[j].1 != key@,
            },
    {
        let mut i: usize = 0;
        while i < self.consensus.len()
            invariant
                i <= self.consensus.len(),
                self.entries().len() == self.consensus.len(),
                forall|j: int| 0 <= j < i ==> #[trigger] self.entries()[j].1 != key@,
            decreases self.consensus.len() - i,
        {
            if self.consensus[i].key == *key {
                return Some(i);
            }
            i += 1;
        }
        None
    }

    /// Position of the entry at height `h`, if there is one.
    fn find_height(&self, h: &Height) -> (r: Option<usize>)
        requires
            self.wf(),
        ensures
            match r {
                Some(i) => i < self.entries().len() && self.entries()[i as int].0 == *h,
                None => !self.has_height(*h),
            },
    {
        let i = self.count_below(h, false);
        if i < self.consensus.len() {
            let e = &self.consensus[i].height;
            if e.revision_number == h.revision_number && e.revision_height == h.revision_height {
                return Some(i);
            }
        }
        assert forall|j: int| 0 <= j < self.entries().len() implies #[trigger] self.entries()[j].0
            != *h by {
            if j > i {
                assert(height_lt(self.entries()[i as int].0, self.entries()[j].0));
                assert(!below(self.entries()[i as int].0, *h, false));
            } else if j < i {
                assert(below(self.entries()[j].0, *h, false));
            }
        }
        None
    }

    /// The consensus state stored under path key `key`.
    pub fn get_consensus_state(&self, key: &String) -> (r: Option<&C::ConsensusState>)
        requires
            self.wf(),
        ensures
            match r {
                Some(s) => self.has_key_state(key@, *s),
                None => forall|h: Height, s: C::ConsensusState| !self.has_entry(h, key@, s),
            },
    {
        match self.find_key(key) {
            Some(i) => {
                assert(self.entries()[i as int].2 == self.consensus@[i as int].state);
                Some(&self.consensus[i].state)
            },
            None => {
                assert forall|h: Height, s: C::ConsensusState| !self.has_entry(h, key@, s) by {
                    if self.has_entry(h, key@, s) {
                        let j = choose|j: int|
                            0 <= j < self.entries().len() && self.entries()[j] == (h, key@, s);
                        assert(self.entries()[j].1 == key@);
                    }
                }
                None
            },
        }
    }

    /// The stored heights in ascending order.
    pub fn get_heights(&self) -> (r: Vec<Height>)
        requires
            self.wf(),
        ensures
            r@ == self.heights_view(),
            forall|i: int, j: int| 0 <= i < j < r@.len() ==> height_lt(r@[i], r@[j]),
            forall|h: Height| r@.contains(h) <==> self.has_height(h),
    {
        let mut r: Vec<Height> = Vec::new();
        let mut i: usize = 0;
        while i < self.consensus.len()
            invariant
                i <= self.consensus.len(),
                self.entries().len() == self.consensus.len(),
                r@ == self.heights_view().take(i as int),
            decreases self.consensus.len() - i,
        {
            r.push(self.consensus[i].height);
            i += 1;
            assert(r@ =~= self.heights_view().take(i as int));
        }
        assert(r@ =~= self.heights_view());
        assert forall|h: Height| r@.contains(h) <==> self.has_height(h) by {
            if r@.contains(h) {
                let k = choose|k: int| 0 <= k < r@.len() && r@[k] == h;
                assert(self.entries()[k].0 == h);
            }
            if self.has_height(h) {
                let k = choose|k: int| 0 <= k < self.entries().len() && self.entries()[k].0 == h;
                assert(r@[k] == h);
            }
        }
        r
    }

    /// The number of leading entries whose height is below `h`, counting a
    /// height equal to `h` as below when `inclusive` holds. Found by binary
    /// search over the sorted entries.
    fn count_below(&self, h: &Height, inclusive: bool) -> (r: usize)
        requires
            self.wf(),
        ensures
            r <= self.entries().len(),
            forall|j: int| 0 <= j < r ==> below(#[trigger] self.entries()[j].0, *h, inclusive),
            forall|j: int|
                r <= j < self.entries().len() ==> !below(#[trigger] self.entries()[j].0, *h, inclusive),
    {
        let n = self.consensus.len();
        let mut lo: usize = 0;
        let mut hi: usize = n;
        while lo < hi
            invariant
                lo <= hi <= n,
                n == self.consensus.len(),
                self.entries().len() == n,
                self.wf(),
                forall|j: int| 0 <= j < lo ==> below(#[trigger] self.entries()[j].0, *h, inclusive),
                forall|j: int| hi <= j < n ==> !below(#[trigger] self.entries()[j].0, *h, inclusive),
            decreases hi - lo,
        {
            let mid = lo + (hi - lo) / 2;
            let m = &self.consensus[mid].height;
            let is_below = if inclusive {
                m.is_at_or_before(h)
            } else {
                m.is_before(h)
            };
            let ghost em = self.entries()[mid as int].0;
            assert(em == *m);
            if is_below {
                assert forall|j: int| 0 <= j <= mid implies below(
                    #[trigger] self.entries()[j].0,
                    *h,
                    inclusive,
                ) by {
                    if j < mid {
                        assert(height_lt(self.entries()[j].0, em));
                    }
                }
                lo = mid + 1;
            } else {
                assert forall|j: int| mid <= j < n implies !below(
                    #[trigger] self.entries()[j].0,
                    *h,
                    inclusive,
                ) by {
                    if j > mid {
                        assert(height_lt(em, self.entries()[j].0));
                    }
                }
                hi = mid;
            }
        }
        lo
    }

    /// The consensus state at the nearest stored height in `direction`,
    /// counting a stored height equal to `current`.
    pub fn get_adjacent_height(&self, current: &Height, direction: Direction) -> (r: Option<
        &C::ConsensusState,
    >)
        requires
            self.wf(),
        ensures
            direction == Direction::Next ==> match r {
                Some(s) => self.is_next(*current, *s),
                None => self.none_above(*current),
            },
            direction == Direction::Prev ==> match r {
                Some(s) => self.is_prev(*current, *s),
                None => self.none_below(*current),
            },
    {
        let n = self.consensus.len();
        match direction {
            Direction::Next => {
                let i = self.count_below(current, false);
                if i < n {
                    assert(self.entries()[i as int].2 == self.consensus@[i as int].state);
                    assert(!below(self.entries()[i as int].0, *current, false));
                    assert forall|j: int|
                        0 <= j < self.entries().len() && height_le(*current, #[trigger] self.entries()[j].0)
                        implies height_le(self.entries()[i as int].0, self.entries()[j].0) by {
                        if j < i {
                            assert(below(self.entries()[j].0, *current, false));
                        } else if j > i {
                            assert(height_lt(self.entries()[i as int].0, self.entries()[j].0));
                        }
                    }
                    Some(&self.consensus[i].state)
                } else {
                    assert forall|j: int| 0 <= j < self.entries().len() implies !height_le(
                        *current,
                        #[trigger] self.entries()[j].0,
                    ) by {
                        assert(below(self.entries()[j].0, *current, false));
                    }
                    None
                }
            },
            Direction::Prev => {
                let i = self.count_below(current, true);
                if i > 0 {
                    let k: usize = i - 1;
                    assert(self.entries()[k as int].2 == self.consensus@[k as int].state);
                    assert(below(self.entries()[k as int].0, *current, true));
                    assert forall|j: int|
                        0 <= j < self.entries().len() && height_le(#[trigger] self.entries()[j].0, *current)
                        implies height_le(self.entries()[j].0, self.entries()[k as int].0) by {
                        if j < k {
                            assert(height_lt(self.entries()[j].0, self.entries()[k as int].0));
                        } else if j > k {
                            assert(!below(self.entries()[j].0, *current, true));
                        }
                    }
                    Some(&self.consensus[k].state)
                } else {
                    assert forall|j: int| 0 <= j < self.entries().len() implies !height_le(
                        #[trigger] self.entries()[j].0,
                        *current,
                    ) by {
                        assert(!below(self.entries()[j].0, *current, true));
                    }
                    None
                }
            },
        }
    }

    /// Drops the entry at position `i`; every other entry stays.
    fn remove_entry(&mut self, i: usize)
        requires
            old(self).wf(),
            i < old(self).entries().len(),
        ensures
            final(self).wf(),
            final(self).client_view() == old(self).client_view(),
            final(self).metas() == old(self).metas(),
            forall|h: Height, k: Seq<char>, s: C::ConsensusState|
                #[trigger] final(self).has_entry(h, k, s) <==> (old(self).has_entry(h, k, s) && (
                h,
                k,
                s,
            ) != old(self).entries()[i as int]),
    {
        let ghost before = self.entries();
        let ghost before_metas = self.metas();
        self.consensus.remove(i);
        assert(self.entries() =~= before.remove(i as int));
        assert forall|a: int, b: int|
            #![trigger self.entries()[a].0, self.entries()[b].0]
            #![trigger self.entries()[a].1, self.entries()[b].1]
            0 <= a < b < self.entries().len() implies height_lt(
            self.entries()[a].0,
            self.entries()[b].0,
        ) && self.entries()[a].1 != self.entries()[b].1 by {
            let a2 = if a < i { a } else { a + 1 };
            let b2 = if b < i { b } else { b + 1 };
            assert(self.entries()[a] == before[a2]);
            assert(self.entries()[b] == before[b2]);
            assert(height_lt(before[a2].0, before[b2].0));
            assert(before[a2].1 != before[b2].1);
        }
        assert(self.metas() == before_metas);
        assert forall|h: Height, k: Seq<char>, s: C::ConsensusState|
            #[trigger] self.has_entry(h, k, s) <==> (old(self).has_entry(h, k, s) && (h, k, s)
                != before[i as int]) by {
            if self.has_entry(h, k, s) {
                let j = choose|j: int| 0 <= j < self.entries().len() && self.entries()[j] == (h, k, s);
                if j < i {
                    assert(before[j] == (h, k, s));
                    assert(height_lt(before[j].0, before[i as int].0));
                } else {
                    assert(before[j + 1] == (h, k, s));
                    assert(height_lt(before[i as int].0, before[j + 1].0));
                }
            }
            if old(self).has_entry(h, k, s) && (h, k, s) != before[i as int] {
                let j = choose|j: int| 0 <= j < before.len() && before[j] == (h, k, s);
                if j < i {
                    assert(self.entries()[j] == (h, k, s));
                } else {
                    assert(self.entries()[j - 1] == (h, k, s));
                }
            }
        }
    }

    /// Removes the consensus state at `height` and the one under `key`, from
    /// both views at once. Absent entries are no error.
    pub fn delete_consensus_state(&mut self, height: &Height, key: &String)
        requires
            old(self).wf(),
        ensures
            final(self).wf(),
            final(self).client_view() == old(self).client_view(),
            final(self).metas() == old(self).metas(),
            Self::consensus_removed(*old(self), *final(self), *height, key@),
            !old(self).has_height(*height) && !old(self).has_key(key@) ==> *final(self)
                == *old(self),
    {
        if let Some(i) = self.find_height(height) {
            let ghost mid = self.entries();
            self.remove_entry(i);
            assert forall|h: Height, k: Seq<char>, s: C::ConsensusState|
                #[trigger] old(self).has_entry(h, k, s) && h == *height implies (h, k, s)
                    == mid[i as int] by {
                let j = choose|j: int| 0 <= j < mid.len() && mid[j] == (h, k, s);
                if j < i {
                    assert(height_lt(mid[j].0, mid[i as int].0));
                } else if j > i {
                    assert(height_lt(mid[i as int].0, mid[j].0));
                }
            }
        } else {
            assert forall|h: Height, k: Seq<char>, s: C::ConsensusState|
                #[trigger] self.has_entry(h, k, s) implies h != *height by {
                let j = choose|j: int| 0 <= j < self.entries().len() && self.entries()[j] == (h, k, s);
                assert(self.entries()[j].0 == h);
            }
        }
        let ghost after_height = *self;
        if let Some(i) = self.find_key(key) {
            let ghost mid = self.entries();
            self.remove_entry(i);
            assert forall|h: Height, k: Seq<char>, s: C::ConsensusState|
                #[trigger] after_height.has_entry(h, k, s) && k == key@ implies (h, k, s)
                    == mid[i as int] by {
                let j = choose|j: int| 0 <= j < mid.len() && mid[j] == (h, k, s);
                if j < i {
                    assert(mid[j].1 != mid[i as int].1);
                } else if j > i {
                    assert(mid[i as int].1 != mid[j].1);
                }
            }
        } else {
            assert forall|h: Height, k: Seq<char>, s: C::ConsensusState|
                #[trigger] self.has_entry(h, k, s) implies k != key@ by {
                let j = choose|j: int| 0 <= j < self.entries().len() && self.entries()[j] == (h, k, s);
                assert(self.entries()[j].1 != key@);
            }
        }
    }

    /// Stores `state` at `height` under path key `key`. Whatever was stored at
    /// that height or under that key before is replaced, in both views at once.
    pub fn put_consensus_state(&mut self, height: Height, key: String, state: C::ConsensusState)
        requires
            old(self).wf(),
        ensures
            final(self).wf(),
            final(self).client_view() == old(self).client_view(),
            final(self).metas() == old(self).metas(),
            Self::consensus_put(*old(self), *final(self), height, key@, state),
    {
        self.delete_consensus_state(&height, &key);
        let ghost mid = self.entries();
        let ghost mid_metas = self.metas();
        let ghost mid_state = *self;
        assert forall|a: int, b: int|
            #![trigger mid[a].0, mid[b].0]
            #![trigger mid[a].1, mid[b].1]
            0 <= a < b < mid.len() implies height_lt(mid[a].0, mid[b].0) && mid[a].1 != mid[b].1 by {
            assert(height_lt(self.entries()[a].0, self.entries()[b].0));
            assert(self.entries()[a].1 != self.entries()[b].1);
        }
        assert forall|h: Height, k: Seq<char>, s: C::ConsensusState|
            #[trigger] mid.contains((h, k, s)) <==> mid_state.has_entry(h, k, s) by {
            if mid.contains((h, k, s)) {
                let j = choose|j: int| 0 <= j < mid.len() && mid[j] == (h, k, s);
                assert(mid_state.entries()[j] == (h, k, s));
            }
        }
        assert forall|j: int| 0 <= j < mid.len() implies #[trigger] mid[j].0 != height && mid[j].1
            != key@ by {
            assert(self.has_entry(mid[j].0, mid[j].1, mid[j].2));
        }
        let n = self.consensus.len();
        let p = self.count_below(&height, false);
        assert forall|j: int| 0 <= j < p implies height_lt(#[trigger] mid[j].0, height) by {
            assert(below(self.entries()[j].0, height, false));
        }
        assert forall|j: int| p <= j < n implies height_lt(height, #[trigger] mid[j].0) by {
            assert(!below(self.entries()[j].0, height, false));
        }
        self.consensus.insert(p, ConsensusEntry { height, key, state });
        let ghost e = (height, key@, state);
        assert(self.entries() =~= mid.insert(p as int, e));
        assert(self.metas() == mid_metas);
        assert forall|a: int, b: int|
            #![trigger self.entries()[a].0, self.entries()[b].0]
            #![trigger self.entries()[a].1, self.entries()[b].1]
            0 <= a < b < self.entries().len() implies height_lt(
            self.entries()[a].0,
            self.entries()[b].0,
        ) && self.entries()[a].1 != self.entries()[b].1 by {
            if b < p {
                assert(self.entries()[a] == mid[a] && self.entries()[b] == mid[b]);
            } else if b == p {
                assert(self.entries()[a] == mid[a]);
                assert(height_lt(mid[a].0, height));
                assert(mid[a].1 != key@);
            } else if a < p {
                assert(self.entries()[a] == mid[a] && self.entries()[b] == mid[b - 1]);
                assert(height_lt(mid[a].0, height));
                assert(height_lt(height, mid[b - 1].0));
                assert(mid[a].1 != mid[b - 1].1);
            } else if a == p {
                assert(self.entries()[b] == mid[b - 1]);
                assert(height_lt(height, mid[b - 1].0));
                assert(mid[b - 1].1 != key@);
            } else {
                assert(self.entries()[a] == mid[a - 1] && self.entries()[b] == mid[b - 1]);
            }
        }
        assert forall|h: Height, k: Seq<char>, s: C::ConsensusState|
            #[trigger] self.has_entry(h, k, s) <==> ((h, k, s) == e || (mid.contains((h, k, s)))) by {
            if self.has_entry(h, k, s) && (h, k, s) != e {
                let j = choose|j: int| 0 <= j < self.entries().len() && self.entries()[j] == (h, k, s);
                if j < p {
                    assert(mid[j] == (h, k, s));
                } else {
                    assert(mid[j - 1] == (h, k, s));
                }
            }
            if (h, k, s) == e {
                assert(self.entries()[p as int] == e);
            }
            if mid.contains((h, k, s)) {
                let j = choose|j: int| 0 <= j < mid.len() && mid[j] == (h, k, s);
                if j < p {
                    assert(self.entries()[j] == (h, k, s));
                } else {
                    assert(self.entries()[j + 1] == (h, k, s));
                }
            }
        }
    }

    /// The current client state, if one was ever stored.
    pub fn get_client_state(&self) -> (r: Option<&C::ClientState>)
        ensures
            match r {
                Some(c) => self.client_view() == Some(*c),
                None => self.client_view() is None,
            },
    {
        self.client_state.as_ref()
    }

    /// Replaces the client state; no earlier value is kept.
    pub fn set_client_state(&mut self, state: C::ClientState)
        requires
            old(self).wf(),
        ensures
            final(self).wf(),
            final(self).client_view() == Some(state),
            final(self).entries() == old(self).entries(),
            final(self).metas() == old(self).metas(),
    {
        let ghost entries = self.entries();
        let ghost metas = self.metas();
        self.client_state = Some(state);
        assert(self.entries() == entries);
        assert(self.metas() == metas);
    }

    /// Position of the metadata record for `height`, if there is one.
    fn find_meta(&self, height: &Height) -> (r: Option<usize>)
        ensures
            match r {
                Some(i) => i < self.metas().len() && self.metas()[i as int].0 == *height,
                None => forall|j: int|
                    0 <= j < self.metas().len() ==> #[trigger] self.metas()[j].0 != *height,
            },
    {
        let mut i: usize = 0;
        while i < self.update_meta.len()
            invariant
                i <= self.update_meta.len(),
                self.metas().len() == self.update_meta.len(),
                forall|j: int| 0 <= j < i ==> #[trigger] self.metas()[j].0 != *height,
            decreases self.update_meta.len() - i,
        {
            let m = &self.update_meta[i];
            if m.height.revision_number == height.revision_number && m.height.revision_height
                == height.revision_height {
                return Some(i);
            }
            i += 1;
        }
        None
    }

    /// The host timestamp and host height recorded for `height`.
    pub fn get_update_meta(&self, height: &Height) -> (r: Option<(u64, Height)>)
        requires
            self.wf(),
        ensures
            match r {
                Some(m) => self.has_meta(*height, m.0, m.1),
                None => forall|t: u64, hh: Height| !self.has_meta(*height, t, hh),
            },
    {
        match self.find_meta(height) {
            Some(i) => {
                let m = &self.update_meta[i];
                assert(self.metas()[i as int] == (*height, m.host_timestamp, m.host_height));
                Some((m.host_timestamp, m.host_height))
            },
            None => {
                assert forall|t: u64, hh: Height| !self.has_meta(*height, t, hh) by {
                    if self.has_meta(*height, t, hh) {
                        let j = choose|j: int|
                            0 <= j < self.metas().len() && self.metas()[j] == (*height, t, hh);
                        assert(self.metas()[j].0 == *height);
                    }
                }
                None
            },
        }
    }

    /// Records `host_timestamp` and `host_height` for `height`, replacing an
    /// earlier record of that height.
    pub fn put_update_meta(&mut self, height: Height, host_timestamp: u64, host_height: Height)
        requires
            old(self).wf(),
        ensures
            final(self).wf(),
            final(self).client_view() == old(self).client_view(),
            final(self).entries() == old(self).entries(),
            Self::meta_put(*old(self), *final(self), height, host_timestamp, host_height),
    {
        let ghost before = self.metas();
        let ghost entries = self.entries();
        let m = MetaEntry { height, host_timestamp, host_height };
        let ghost e = (height, host_timestamp, host_height);
        match self.find_meta(&height) {
            Some(i) => {
                self.update_meta.set(i, m);
                assert(self.metas() =~= before.update(i as int, e));
                assert forall|h: Height, t: u64, hh: Height|
                    #[trigger] self.has_meta(h, t, hh) <==> ((h, t, hh) == e || (old(self).has_meta(
                        h,
                        t,
                        hh,
                    ) && h != height)) by {
                    if self.has_meta(h, t, hh) && (h, t, hh) != e {
                        let j = choose|j: int|
                            0 <= j < self.metas().len() && self.metas()[j] == (h, t, hh);
                        assert(j != i);
                        assert(before[j] == (h, t, hh));
                        if j < i {
                            assert(before[j].0 != before[i as int].0);
                        } else {
                            assert(before[i as int].0 != before[j].0);
                        }
                    }
                    if (h, t, hh) == e {
                        assert(self.metas()[i as int] == e);
                    }
                    if old(self).has_meta(h, t, hh) && h != height {
                        let j = choose|j: int| 0 <= j < before.len() && before[j] == (h, t, hh);
                        assert(self.metas()[j] == (h, t, hh));
                    }
                }
            },
            None => {
                assert forall|j: int| 0 <= j < before.len() implies #[trigger] before[j].0
                    != height by {
                    assert(self.metas()[j].0 != height);
                }
                self.update_meta.push(m);
                assert(self.metas() =~= before.push(e));
                assert forall|h: Height, t: u64, hh: Height|
                    #[trigger] self.has_meta(h, t, hh) <==> ((h, t, hh) == e || (old(self).has_meta(
                        h,
                        t,
                        hh,
                    ) && h != height)) by {
                    if self.has_meta(h, t, hh) && (h, t, hh) != e {
                        let j = choose|j: int|
                            0 <= j < self.metas().len() && self.metas()[j] == (h, t, hh);
                        assert(before[j] == (h, t, hh));
                        assert(before[j].0 != height);
                    }
                    if (h, t, hh) == e {
                        assert(self.metas()[before.len() as int] == e);
                    }
                    if old(self).has_meta(h, t, hh) && h != height {
                        let j = choose|j: int| 0 <= j < before.len() && before[j] == (h, t, hh);
                        assert(self.metas()[j] == (h, t, hh));
                    }
                }
            },
        }
        assert(self.entries() == entries);
    }

    /// Removes the metadata record of `height`; an absent record is no error.
    pub fn delete_update_meta(&mut self, height: &Height)
        requires
            old(self).wf(),
        ensures
            final(self).wf(),
            final(self).client_view() == old(self).client_view(),
            final(self).entries() == old(self).entries(),
            Self::meta_removed(*old(self), *final(self), *height),
            (forall|t: u64, hh: Height| !old(self).has_meta(*height, t, hh)) ==> *final(self)
                == *old(self),
    {
        let ghost before = self.metas();
        let ghost entries = self.entries();
        match self.find_meta(height) {
            Some(i) => {
                assert(old(self).has_meta(*height, before[i as int].1, before[i as int].2));
                self.update_meta.remove(i);
                assert(self.metas() =~= before.remove(i as int));
                assert forall|a: int, b: int|
                    0 <= a < b < self.metas().len() implies #[trigger] self.metas()[a].0
                        != #[trigger] self.metas()[b].0 by {
                    let a2 = if a < i { a } else { a + 1 };
                    let b2 = if b < i { b } else { b + 1 };
                    assert(self.metas()[a] == before[a2]);
                    assert(self.metas()[b] == before[b2]);
                    assert(before[a2].0 != before[b2].0);
                }
                assert forall|h: Height, t: u64, hh: Height|
                    #[trigger] self.has_meta(h, t, hh) <==> (old(self).has_meta(h, t, hh) && h
                        != *height) by {
                    if self.has_meta(h, t, hh) {
                        let j = choose|j: int|
                            0 <= j < self.metas().len() && self.metas()[j] == (h, t, hh);
                        if j < i {
                            assert(before[j] == (h, t, hh));
                            assert(before[j].0 != before[i as int].0);
                        } else {
                            assert(before[j + 1] == (h, t, hh));
                            assert(before[i as int].0 != before[j + 1].0);
                        }
                    }
                    if old(self).has_meta(h, t, hh) && h != *height {
                        let j = choose|j: int| 0 <= j < before.len() && before[j] == (h, t, hh);
                        if j < i {
                            assert(self.metas()[j] == (h, t, hh));
                        } else {
                            assert(j != i);
                            assert(self.metas()[j - 1] == (h, t, hh));
                        }
                    }
                }
            },
            None => {
                assert forall|h: Height, t: u64, hh: Height|
                    #[trigger] self.has_meta(h, t, hh) implies h != *height by {
                    let j = choose|j: int| 0 <= j < self.metas().len() && self.metas()[j] == (h, t, hh);
                    assert(self.metas()[j].0 == h);
                }
            },
        }
        assert(self.entries() == entries);
    }
}

impl<C: ClientType> Default for Storage<C> {
    fn default() -> (r: Self)
        ensures
            r.wf(),
            r.client_view() is None,
            r.entries().len() == 0,
            r.metas().len() == 0,
    {
        Self::new()
    }
}

} // verus!

verus! {

/// A stored height is its own neighbour in both directions: the next and the
/// previous state of a stored height `h` are exactly the state stored at `h`.
pub proof fn lemma_adjacent_includes_exact<C: ClientType>(
    store: Storage<C>,
    h: Height,
    k: Seq<char>,
    s: C::ConsensusState,
)
    requires
        store.wf(),
        store.has_entry(h, k, s),
    ensures
        store.is_next(h, s),
        store.is_prev(h, s),
        !store.none_above(h),
        !store.none_below(h),
        forall|x: C::ConsensusState| store.is_next(h, x) ==> x == s,
        forall|x: C::ConsensusState| store.is_prev(h, x) ==> x == s,
{
    let e = store.entries();
    let i = choose|i: int| 0 <= i < e.len() && e[i] == (h, k, s);
    assert(height_le(h, e[i].0));
    assert forall|j: int| 0 <= j < e.len() && height_le(h, #[trigger] e[j].0) implies height_le(
        e[i].0,
        e[j].0,
    ) by {
        if j < i {
            assert(height_lt(e[j].0, e[i].0));
        }
    }
    assert forall|j: int| 0 <= j < e.len() && height_le(#[trigger] e[j].0, h) implies height_le(
        e[j].0,
        e[i].0,
    ) by {
        if j > i {
            assert(height_lt(e[i].0, e[j].0));
        }
    }
    assert(store.is_next(h, s));
    assert(store.is_prev(h, s));
    assert forall|x: C::ConsensusState| store.is_next(h, x) implies x == s by {
        let j = choose|j: int|
            0 <= j < e.len() && height_le(h, #[trigger] e[j].0) && e[j].2 == x && forall|m: int|
                0 <= m < e.len() && height_le(h, #[trigger] e[m].0) ==> height_le(e[j].0, e[m].0);
        assert(height_le(e[j].0, e[i].0));
        if j < i {
            assert(height_lt(e[j].0, e[i].0));
        } else if j > i {
            assert(height_lt(e[i].0, e[j].0));
        }
    }
    assert forall|x: C::ConsensusState| store.is_prev(h, x) implies x == s by {
        let j = choose|j: int|
            0 <= j < e.len() && height_le(#[trigger] e[j].0, h) && e[j].2 == x && forall|m: int|
                0 <= m < e.len() && height_le(#[trigger] e[m].0, h) ==> height_le(e[m].0, e[j].0);
        assert(height_le(e[i].0, e[j].0));
        if j < i {
            assert(height_lt(e[j].0, e[i].0));
        } else if j > i {
            assert(height_lt(e[i].0, e[j].0));
        }
    }
}

/// An empty store has no neighbour of any height, in either direction.
pub proof fn lemma_empty_store_has_no_neighbours<C: ClientType>(store: Storage<C>, h: Height)
    requires
        store.entries().len() == 0,
    ensures
        store.none_above(h),
        store.none_below(h),
        forall|x: C::ConsensusState| !store.is_next(h, x) && !store.is_prev(h, x),
{
}

/// After a consensus state is put at height `h` under key `k`, a lookup of
/// `k` finds exactly that state and `h` is among the stored heights.
pub proof fn lemma_put_then_get<C: ClientType>(
    before: Storage<C>,
    after: Storage<C>,
    h: Height,
    k: Seq<char>,
    s: C::ConsensusState,
)
    requires
        after.wf(),
        Storage::consensus_put(before, after, h, k, s),
    ensures
        after.has_entry(h, k, s),
        after.has_key_state(k, s),
        forall|x: C::ConsensusState| after.has_key_state(k, x) ==> x == s,
        after.has_height(h),
        after.heights_view().contains(h),
{
    assert(after.has_entry(h, k, s));
    let e = after.entries();
    let i = choose|i: int| 0 <= i < e.len() && e[i] == (h, k, s);
    assert(after.heights_view()[i] == h);
    assert(e[i].1 == k && e[i].2 == s);
    assert forall|x: C::ConsensusState| after.has_key_state(k, x) implies x == s by {
        let j = choose|j: int| 0 <= j < e.len() && #[trigger] e[j].1 == k && e[j].2 == x;
        assert(after.has_entry(e[j].0, k, x));
    }
}

/// After the consensus state at height `h` and key `k` is deleted, a lookup
/// of `k` finds nothing and `h` is no longer among the stored heights.
pub proof fn lemma_delete_then_get<C: ClientType>(
    before: Storage<C>,
    after: Storage<C>,
    h: Height,
    k: Seq<char>,
)
    requires
        Storage::consensus_removed(before, after, h, k),
    ensures
        forall|h2: Height, x: C::ConsensusState| !after.has_entry(h2, k, x),
        !after.has_key(k),
        !after.has_height(h),
        !after.heights_view().contains(h),
{
    let e = after.entries();
    assert forall|j: int|
        #![trigger e[j].0]
        #![trigger e[j].1]
        0 <= j < e.len() implies e[j].1 != k && e[j].0 != h by {
        assert(after.has_entry(e[j].0, e[j].1, e[j].2));
    }
    if after.heights_view().contains(h) {
        let j = choose|j: int| 0 <= j < after.heights_view().len() && after.heights_view()[j] == h;
        assert(after.heights_view()[j] == e[j].0);
    }
}

/// Deleting the same height and key a second time changes nothing, neither
/// among the consensus states nor in the update metadata.
pub proof fn lemma_delete_twice<C: ClientType>(
    a: Storage<C>,
    b: Storage<C>,
    c: Storage<C>,
    h: Height,
    k: Seq<char>,
)
    requires
        Storage::consensus_removed(a, b, h, k),
        Storage::consensus_removed(b, c, h, k),
    ensures
        forall|h2: Height, k2: Seq<char>, s2: C::ConsensusState|
            c.has_entry(h2, k2, s2) == b.has_entry(h2, k2, s2),
{
}

/// Deleting the update metadata of a height a second time changes nothing.
pub proof fn lemma_delete_meta_twice<C: ClientType>(
    a: Storage<C>,
    b: Storage<C>,
    c: Storage<C>,
    h: Height,
)
    requires
        Storage::meta_removed(a, b, h),
        Storage::meta_removed(b, c, h),
    ensures
        forall|h2: Height, t2: u64, hh2: Height| c.has_meta(h2, t2, hh2) == b.has_meta(h2, t2, hh2),
{
}

/// After update metadata `(t, hh)` is recorded for height `h`, the record of
/// `h` is exactly `(t, hh)`.
pub proof fn lemma_update_meta_round_trip<C: ClientType>(
    before: Storage<C>,
    after: Storage<C>,
    h: Height,
    t: u64,
    hh: Height,
)
    requires
        Storage::meta_put(before, after, h, t, hh),
    ensures
        after.has_meta(h, t, hh),
        forall|t2: u64, hh2: Height| after.has_meta(h, t2, hh2) ==> t2 == t && hh2 == hh,
{
    assert(after.has_meta(h, t, hh));
}

} // verus!
