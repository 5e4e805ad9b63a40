//! What has been decided for flows, with a bound on how much is remembered.

use vstd::prelude::*;
use crate::clock::time_since;
use crate::code_table::CodeTable;
use crate::ip_prefix::IpPrefix;
use crate::service_route::ServiceRouteSelection;

verus! {

/// A flow towards a prefix.
#[derive(Clone, Copy, Debug, PartialEq, Eq, Structural)]
pub struct FlowKey {
    pub prefix: IpPrefix,
    pub flow: u64,
}

/// A decision, and the routes and the time that it was made with.
#[derive(Clone, Copy, Debug, PartialEq, Eq, Structural)]
pub struct FlowPin {
    pub generation: u64,
    pub selection: ServiceRouteSelection,
    pub created_at: u64,
}

pub struct FlowEntry {
    pub key: FlowKey,
    pub pin: FlowPin,
}

/// Decisions under distinct keys. They stand in a vector, and the positions of
/// one flow are found by its number.
pub struct FlowTable {
    index: CodeTable<Vec<usize>>,
    entries: Vec<FlowEntry>,
}

impl View for FlowTable {
    type V = Map<FlowKey, FlowPin>;

    closed spec fn view(&self) -> Map<FlowKey, FlowPin> {
        Map::new(
            |key: FlowKey| self.at(key) is Some,
            |key: FlowKey| self.entries@[(self.at(key))->0].pin,
        )
    }
}

/// The positions without one of them.
fn without(positions: &Vec<usize>, gone: usize) -> (kept: Vec<usize>)
    ensures
        forall|p: usize| #[trigger] kept@.contains(p) <==> (positions@.contains(p) && p != gone),
{
    let mut kept: Vec<usize> = Vec::new();
    let mut i: usize = 0;
    while i < positions.len()
        invariant
            i <= positions@.len(),
            forall|p: usize| #[trigger]
                kept@.contains(p) <==> (positions@.take(i as int).contains(p) && p != gone),
        decreases positions@.len() - i,
    {
        let ghost before = kept@;
        let ghost seen = positions@.take(i as int);
        if positions[i] != gone {
            kept.push(positions[i]);
        }
        proof {
            assert(positions@.take(i + 1) =~= seen.push(positions@[i as int]));
            lemma_contains_push(seen, positions@[i as int]);
            lemma_contains_push(before, positions@[i as int]);
        }
        i = i + 1;
    }
    assert(positions@.take(i as int) =~= positions@);
    kept
}

/// The positions with one of them renamed.
fn renamed(positions: &Vec<usize>, from: usize, to: usize) -> (changed: Vec<usize>)
    requires
        from != to,
        positions@.contains(from),
    ensures
        forall|p: usize| #[trigger]
            changed@.contains(p) <==> ((positions@.contains(p) && p != from) || p == to),
{
    let mut changed = without(positions, from);
    proof {
        lemma_contains_push(changed@, to);
    }
    changed.push(to);
    changed
}

proof fn lemma_contains_push(positions: Seq<usize>, x: usize)
    ensures
        forall|p: usize| #[trigger]
            positions.push(x).contains(p) <==> (positions.contains(p) || p == x),
{
    assert forall|p: usize| positions.push(x).contains(p) == (positions.contains(p) || p == x) by {
        if positions.contains(p) {
            let k = choose|k: int| 0 <= k < positions.len() && positions[k] == p;
            assert(positions.push(x)[k] == p);
        }
        assert(positions.push(x)[positions.len() as int] == x);
    }
}

impl FlowTable {
    /// The position of a key.
    spec fn at(self, key: FlowKey) -> Option<int> {
        if exists|i: int| 0 <= i < self.entries@.len() && (#[trigger] self.entries@[i]).key == key {
            Some(
                choose|i: int|
                    0 <= i < self.entries@.len() && (#[trigger] self.entries@[i]).key == key,
            )
        } else {
            None
        }
    }

    /// Every key stands once, and the index knows exactly the positions of each
    /// flow.
    pub closed spec fn wf(self) -> bool {
        &&& self.index.wf()
        &&& forall|i: int, j: int|
            0 <= i < self.entries@.len() && 0 <= j < self.entries@.len() && i != j
                ==> (#[trigger] self.entries@[i]).key != (#[trigger] self.entries@[j]).key
        &&& forall|i: int|
            0 <= i < self.entries@.len() ==> self.index@.contains_key(
                (#[trigger] self.entries@[i]).key.flow,
            ) && self.index@[self.entries@[i].key.flow]@.contains(i as usize)
        &&& forall|flow: u64, p: usize|
            self.index@.contains_key(flow) && #[trigger] self.index@[flow]@.contains(p) ==> p
                < self.entries@.len() && self.entries@[p as int].key.flow == flow
    }

    proof fn lemma_at(self, i: int)
        requires
            self.wf(),
            0 <= i < self.entries@.len(),
        ensures
            self.at(self.entries@[i].key) == Some(i),
            self@.contains_key(self.entries@[i].key),
            self@[self.entries@[i].key] == self.entries@[i].pin,
    {
    }

    /// The number of decisions is the number of entries.
    proof fn lemma_len(self)
        requires
            self.wf(),
        ensures
            self@.dom().finite(),
            self@.dom().len() == self.entries@.len(),
    {
        let keys = Seq::new(self.entries@.len(), |i: int| self.entries@[i].key);
        assert(keys.no_duplicates());
        keys.unique_seq_to_set();
        assert(self@.dom() =~= keys.to_set()) by {
            assert forall|key: FlowKey| self@.dom().contains(key) == keys.to_set().contains(key) by {
                if self@.dom().contains(key) {
                    let i = (self.at(key))->0;
                    assert(keys[i] == key);
                }
                if keys.contains(key) {
                    let i = choose|i: int| 0 <= i < keys.len() && keys[i] == key;
                    self.lemma_at(i);
                }
            }
        }
    }

    pub fn new() -> (table: Self)
        ensures
            table.wf(),
            table@ == Map::<FlowKey, FlowPin>::empty(),
    {
        let table = FlowTable { index: CodeTable::new(), entries: Vec::new() };
        assert(table@ =~= Map::<FlowKey, FlowPin>::empty());
        table
    }

    pub fn len(&self) -> (n: usize)
        requires
            self.wf(),
        ensures
            self@.dom().finite(),
            n == self@.dom().len(),
    {
        proof {
            self.lemma_len();
        }
        self.entries.len()
    }

    fn find(&self, key: FlowKey) -> (position: Option<usize>)
        requires
            self.wf(),
        ensures
            position is Some <==> self@.contains_key(key),
            position matches Some(p) ==> p < self.entries@.len() && self.entries@[p as int].key
                == key && self@[key] == self.entries@[p as int].pin,
    {
        let total: usize = self.entries.len();
        match self.index.get(key.flow) {
            None => {
                proof {
                    if self@.contains_key(key) {
                        assert(self.entries@[(self.at(key))->0].key == key);
                    }
                }
                None
            },
            Some(positions) => {
                let mut k: usize = 0;
                while k < positions.len()
                    invariant
                        self.wf(),
                        total == self.entries@.len(),
                        self.index@.contains_key(key.flow),
                        *positions == self.index@[key.flow],
                        k <= positions@.len(),
                        forall|j: int|
                            0 <= j < k ==> self.entries@[(#[trigger] positions@[j]) as int].key
                                != key,
                    decreases positions@.len() - k,
                {
                    let p: usize = positions[k];
                    assert(positions@.contains(p));
                    if self.entries[p].key == key {
                        proof {
                            self.lemma_at(p as int);
                        }
                        return Some(p);
                    }
                    k = k + 1;
                }
                proof {
                    if self@.contains_key(key) {
                        let i = (self.at(key))->0;
                        assert(self.entries@[i].key == key);
                        assert(positions@.contains(i as usize));
                        let j = choose|j: int|
                            0 <= j < positions@.len() && positions@[j] == i as usize;
                        assert(self.entries@[positions@[j] as int].key != key);
                    }
                }
                None
            },
        }
    }

    pub fn get(&self, key: FlowKey) -> (found: Option<FlowPin>)
        requires
            self.wf(),
        ensures
            found == if self@.contains_key(key) {
                Some(self@[key])
            } else {
                None
            },
    {
        match self.find(key) {
            Some(p) => Some(self.entries[p].pin),
            None => None,
        }
    }

    /// Puts a decision under a key, in place of the one that was there.
    pub fn insert(&mut self, key: FlowKey, pin: FlowPin)
        requires
            old(self).wf(),
        ensures
            final(self).wf(),
            final(self)@ == old(self)@.insert(key, pin),
    {
        match self.find(key) {
            Some(p) => {
                self.entries.set(p, FlowEntry { key, pin });
                proof {
                    assert forall|i: int| 0 <= i < self.entries@.len() implies (
                    #[trigger] self.entries@[i]).key == old(self).entries@[i].key by {}
                    assert(self.wf());
                    self.lemma_same_but_one(*old(self), key, p as int);
                    assert(self@ =~= old(self)@.insert(key, pin));
                }
            },
            None => {
                let position: usize = self.entries.len();
                let mut positions = match self.index.remove(key.flow) {
                    Some(positions) => positions,
                    None => Vec::new(),
                };
                proof {
                    lemma_contains_push(positions@, position);
                }
                positions.push(position);
                self.index.insert(key.flow, positions);
                self.entries.push(FlowEntry { key, pin });
                proof {
                    let was = *old(self);
                    assert forall|i: int| 0 <= i < was.entries@.len() implies (
                    #[trigger] was.entries@[i]).key != key by {
                        was.lemma_at(i);
                    }
                    assert forall|i: int| 0 <= i < self.entries@.len() implies self.index@.contains_key(
                        (#[trigger] self.entries@[i]).key.flow,
                    ) && self.index@[self.entries@[i].key.flow]@.contains(i as usize) by {
                        if i < position {
                            assert(self.entries@[i] == was.entries@[i]);
                        }
                    }
                    assert(self.wf());
                    assert forall|k: FlowKey| #[trigger]
                        self@.contains_key(k) == (was@.contains_key(k) || k == key) by {
                        if was@.contains_key(k) {
                            let i = (was.at(k))->0;
                            assert(self.entries@[i].key == k);
                        }
                        if self@.contains_key(k) {
                            let i = (self.at(k))->0;
                            if i < position {
                                assert(was.entries@[i].key == k);
                            }
                        }
                        assert(self.entries@[position as int].key == key);
                    }
                    assert forall|k: FlowKey| self@.contains_key(k) implies #[trigger] self@[k]
                        == old(self)@.insert(key, pin)[k] by {
                        let i = (self.at(k))->0;
                        if i < position {
                            was.lemma_at(i);
                        }
                    }
                    assert(self@ =~= old(self)@.insert(key, pin));
                }
            },
        }
    }

    proof fn lemma_same_but_one(self, was: FlowTable, key: FlowKey, p: int)
        requires
            self.wf(),
            was.wf(),
            0 <= p < was.entries@.len(),
            was.entries@[p].key == key,
            self.entries@ == was.entries@.update(p, self.entries@[p]),
            self.entries@[p].key == key,
        ensures
            self@ == was@.insert(key, self.entries@[p].pin),
    {
        assert forall|k: FlowKey| #[trigger]
            self@.contains_key(k) == was@.insert(key, self.entries@[p].pin).contains_key(k) by {
            if was@.contains_key(k) {
                let i = (was.at(k))->0;
                assert(self.entries@[i].key == k);
            }
            if self@.contains_key(k) {
                let i = (self.at(k))->0;
                assert(was.entries@[i].key == k);
            }
            self.lemma_at(p);
        }
        assert forall|k: FlowKey| self@.contains_key(k) implies #[trigger] self@[k] == was@.insert(
            key,
            self.entries@[p].pin,
        )[k] by {
            let i = (self.at(k))->0;
            self.lemma_at(i);
            was.lemma_at(i);
        }
        assert(self@ =~= was@.insert(key, self.entries@[p].pin));
    }

    /// Takes the entry at a position out; the last one takes its place.
    fn remove_at(&mut self, at: usize)
        requires
            old(self).wf(),
            at < old(self).entries@.len(),
        ensures
            final(self).wf(),
            final(self)@ == old(self)@.remove(old(self).entries@[at as int].key),
            final(self).entries@.len() == old(self).entries@.len() - 1,
            forall|i: int|
                0 <= i < final(self).entries@.len() && i != at ==> (
                #[trigger] final(self).entries@[i]) == old(self).entries@[i],
            at < final(self).entries@.len() ==> final(self).entries@[at as int]
                == old(self).entries@[old(self).entries@.len() - 1],
    {
        let last: usize = self.entries.len() - 1;
        let flow: u64 = self.entries[at].key.flow;
        let moved: u64 = self.entries[last].key.flow;
        let ghost was = *self;
        let ghost gone = self.entries@[at as int].key;
        proof {
            assert(was.index@[was.entries@[at as int].key.flow]@.contains(at));
            assert(was.index@[was.entries@[last as int].key.flow]@.contains(last));
        }
        if let Some(positions) = self.index.remove(flow) {
            let kept = without(&positions, at);
            self.index.insert(flow, kept);
        }
        let ghost middle = self.index@;
        if at != last {
            if let Some(positions) = self.index.remove(moved) {
                assert(positions@.contains(last));
                let changed = renamed(&positions, last, at);
                self.index.insert(moved, changed);
            }
        }
        let _ = self.entries.swap_remove(at);
        proof {
            assert forall|f: u64, p: usize|
                self.index@.contains_key(f) && #[trigger] self.index@[f]@.contains(p) implies p
                < self.entries@.len() && self.entries@[p as int].key.flow == f by {
                assert(was.index@.contains_key(f));
                if at != last && f == moved && p == at {
                } else {
                    assert(middle[f]@.contains(p));
                    assert(was.index@[f]@.contains(p));
                    if p == at {
                        assert(was.entries@[at as int].key.flow == f);
                    }
                    if p == last {
                        assert(was.entries@[last as int].key.flow == f);
                    }
                }
            }
            assert forall|i: int| 0 <= i < self.entries@.len() implies self.index@.contains_key(
                (#[trigger] self.entries@[i]).key.flow,
            ) && self.index@[self.entries@[i].key.flow]@.contains(i as usize) by {
                if i != at {
                    assert(was.entries@[i] == self.entries@[i]);
                    assert(was.index@[was.entries@[i].key.flow]@.contains(i as usize));
                    assert(middle[was.entries@[i].key.flow]@.contains(i as usize));
                }
            }
            assert(self.wf());
            assert forall|k: FlowKey| #[trigger]
                self@.contains_key(k) == (was@.contains_key(k) && k != gone) by {
                if was@.contains_key(k) && k != gone {
                    let i = (was.at(k))->0;
                    if i == last {
                        assert(self.entries@[at as int].key == k);
                    } else {
                        assert(self.entries@[i].key == k);
                    }
                }
                if self@.contains_key(k) {
                    let i = (self.at(k))->0;
                    if i == at {
                        was.lemma_at(last as int);
                    } else {
                        was.lemma_at(i);
                    }
                    was.lemma_at(at as int);
                }
            }
            assert forall|k: FlowKey| self@.contains_key(k) implies #[trigger] self@[k] == was@[k] by {
                let i = (self.at(k))->0;
                self.lemma_at(i);
                if i == at {
                    was.lemma_at(last as int);
                } else {
                    was.lemma_at(i);
                }
            }
            assert(self@ =~= was@.remove(gone));
        }
    }

    pub fn remove(&mut self, key: FlowKey)
        requires
            old(self).wf(),
        ensures
            final(self).wf(),
            final(self)@ == old(self)@.remove(key),
    {
        match self.find(key) {
            Some(p) => {
                self.remove_at(p);
            },
            None => {
                assert(self@ =~= old(self)@.remove(key));
            },
        }
    }

    /// Forgets every decision that is too old, or was made with other routes
    /// than those of a generation, where one is given.
    fn retain(&mut self, now_ns: u64, ttl_ns: u64, generation: Option<u64>)
        requires
            old(self).wf(),
        ensures
            final(self).wf(),
            final(self)@ == current_pins(old(self)@, now_ns, ttl_ns, generation),
    {
        let mut i: usize = self.entries.len();
        let ghost start = self@;
        while i > 0
            invariant
                self.wf(),
                i <= self.entries@.len(),
                start == old(self)@,
                among(self@, start),
                forall|k: FlowKey| #[trigger]
                    start.contains_key(k) && pin_is_current(start[k], now_ns, ttl_ns, generation)
                        ==> self@.contains_key(k),
                forall|j: int|
                    i <= j < self.entries@.len() ==> pin_is_current(
                        (#[trigger] self.entries@[j]).pin,
                        now_ns,
                        ttl_ns,
                        generation,
                    ),
            decreases i,
        {
            i = i - 1;
            let pin = self.entries[i].pin;
            let fresh = time_since(pin.created_at, now_ns) <= ttl_ns;
            let known = match generation {
                None => true,
                Some(generation) => pin.generation == generation,
            };
            if !(fresh && known) {
                let ghost before = *self;
                proof {
                    before.lemma_at(i as int);
                }
                self.remove_at(i);
                proof {
                    assert forall|j: int| i <= j < self.entries@.len() implies pin_is_current(
                        (#[trigger] self.entries@[j]).pin,
                        now_ns,
                        ttl_ns,
                        generation,
                    ) by {
                        if j == i {
                            assert(self.entries@[j] == before.entries@[before.entries@.len() - 1]);
                        } else {
                            assert(self.entries@[j] == before.entries@[j]);
                        }
                    }
                }
            }
        }
        proof {
            assert forall|k: FlowKey| #[trigger]
                self@.contains_key(k) == current_pins(start, now_ns, ttl_ns, generation).contains_key(
                    k,
                ) by {
                if self@.contains_key(k) {
                    let j = (self.at(k))->0;
                    self.lemma_at(j);
                    assert(pin_is_current(self.entries@[j].pin, now_ns, ttl_ns, generation));
                    assert(start.contains_key(k));
                }
            }
            assert(self@ =~= current_pins(start, now_ns, ttl_ns, generation));
        }
    }

    /// Makes room for one more decision: first the ones that no longer count
    /// are forgotten, then any until three quarters of the room are left.
    pub fn make_room(
        &mut self,
        capacity: usize,
        now_ns: u64,
        ttl_ns: u64,
        generation: Option<u64>,
    )
        requires
            old(self).wf(),
            capacity > 0,
        ensures
            final(self).wf(),
            room_made(old(self)@, final(self)@, capacity, now_ns, ttl_ns, generation),
    {
        proof {
            old(self).lemma_len();
        }
        if self.entries.len() < capacity {
            return ;
        }
        self.retain(now_ns, ttl_ns, generation);
        let ghost kept = self@;
        proof {
            self.lemma_len();
        }
        if self.entries.len() < capacity {
            return ;
        }
        let left: usize = if capacity > usize::MAX / 3 {
            usize::MAX / 4
        } else {
            capacity * 3 / 4
        };
        while self.entries.len() > left
            invariant
                self.wf(),
                among(self@, kept),
                left <= self.entries@.len(),
            decreases self.entries@.len(),
        {
            self.remove_at(0);
        }
        proof {
            self.lemma_len();
        }
    }
}

/// Whether a decision still counts.
pub open spec fn pin_is_current(pin: FlowPin, now_ns: u64, ttl_ns: u64, generation: Option<u64>) -> bool {
    &&& crate::clock::elapsed(pin.created_at, now_ns) <= ttl_ns
    &&& generation matches Some(g) ==> pin.generation == g
}

/// The decisions that still count.
pub open spec fn current_pins(
    pins: Map<FlowKey, FlowPin>,
    now_ns: u64,
    ttl_ns: u64,
    generation: Option<u64>,
) -> Map<FlowKey, FlowPin> {
    pins.restrict(
        Set::new(
            |key: FlowKey|
                pins.contains_key(key) && pin_is_current(pins[key], now_ns, ttl_ns, generation),
        ),
    )
}

/// Whether some decisions are among others.
pub open spec fn among(pins: Map<FlowKey, FlowPin>, others: Map<FlowKey, FlowPin>) -> bool {
    forall|key: FlowKey| #[trigger]
        pins.contains_key(key) ==> others.contains_key(key) && pins[key] == others[key]
}

/// Three quarters of a capacity.
pub open spec fn three_quarters(capacity: usize) -> int {
    if capacity * 3 > usize::MAX {
        usize::MAX as int / 4
    } else {
        capacity * 3 / 4
    }
}

/// Whether room was made: nothing changes below the capacity, only what no
/// longer counts is forgotten where that is enough, and else three quarters of
/// the capacity stay.
pub open spec fn room_made(
    before: Map<FlowKey, FlowPin>,
    after: Map<FlowKey, FlowPin>,
    capacity: usize,
    now_ns: u64,
    ttl_ns: u64,
    generation: Option<u64>,
) -> bool {
    let kept = current_pins(before, now_ns, ttl_ns, generation);
    &&& after.dom().finite()
    &&& after.dom().len() < capacity
    &&& if before.dom().len() < capacity {
        after == before
    } else if kept.dom().len() < capacity {
        after == kept
    } else {
        among(after, kept) && after.dom().len() == three_quarters(capacity)
    }
}

} // verus!
