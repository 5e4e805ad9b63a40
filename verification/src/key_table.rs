//! A table of values under session keys.

use vstd::prelude::*;
use crate::code_table::CodeTable;
use crate::session_types::{SessionKey, SessionKeyModel};

verus! {

/// The values of one network, under the identifiers of its peers.
pub struct NetworkTable<V> {
    pub name: String,
    pub table: CodeTable<V>,
}

/// A table of values under session keys.
pub struct KeyTable<V> {
    networks: Vec<NetworkTable<V>>,
}

impl<V> View for KeyTable<V> {
    type V = Map<SessionKeyModel, V>;

    closed spec fn view(&self) -> Map<SessionKeyModel, V> {
        Map::new(|key: SessionKeyModel| self.holds(key), |key: SessionKeyModel| self.value(key))
    }
}

impl<V> KeyTable<V> {
    spec fn holds(self, key: SessionKeyModel) -> bool {
        exists|i: int|
            0 <= i < self.networks@.len() && (#[trigger] self.networks@[i]).name@
                == key.network_name && self.networks@[i].table@.contains_key(key.peer_id as u64)
    }

    spec fn before_network(self, key: SessionKeyModel, i: int) -> bool {
        exists|j: int|
            0 <= j < i && j < self.networks@.len() && (#[trigger] self.networks@[j]).name@
                == key.network_name
    }

    spec fn network_of(self, key: SessionKeyModel) -> int {
        choose|i: int|
            0 <= i < self.networks@.len() && (#[trigger] self.networks@[i]).name@
                == key.network_name
    }

    spec fn value(self, key: SessionKeyModel) -> V {
        self.networks@[self.network_of(key)].table@[key.peer_id as u64]
    }

    /// Every network stands once, and its codes are peer identifiers.
    pub closed spec fn wf(self) -> bool {
        &&& forall|i: int, j: int|
            0 <= i < self.networks@.len() && 0 <= j < self.networks@.len() && i != j
                ==> (#[trigger] self.networks@[i]).name@ != (#[trigger] self.networks@[j]).name@
        &&& forall|i: int|
            0 <= i < self.networks@.len() ==> (#[trigger] self.networks@[i]).table.wf()
        &&& forall|i: int, code: u64|
            0 <= i < self.networks@.len() && #[trigger] self.networks@[i].table@.contains_key(code)
                ==> code <= u32::MAX
    }

    proof fn lemma_network_of(self, key: SessionKeyModel, i: int)
        requires
            self.wf(),
            0 <= i < self.networks@.len(),
            self.networks@[i].name@ == key.network_name,
        ensures
            self.network_of(key) == i,
    {
    }

    pub fn new() -> (table: Self)
        ensures
            table.wf(),
            table@ == Map::<SessionKeyModel, V>::empty(),
    {
        let table = KeyTable { networks: Vec::new() };
        assert(table@ =~= Map::<SessionKeyModel, V>::empty());
        table
    }

    fn find(&self, key: &SessionKey) -> (at: Option<usize>)
        requires
            self.wf(),
        ensures
            at matches Some(i) ==> i < self.networks@.len() && self.networks@[i as int].name@
                == key@.network_name && self.network_of(key@) == i,
            at is None ==> forall|i: int|
                0 <= i < self.networks@.len() ==> (#[trigger] self.networks@[i]).name@
                    != key@.network_name,
    {
        let mut i: usize = 0;
        while i < self.networks.len()
            invariant
                self.wf(),
                i <= self.networks@.len(),
                forall|k: int|
                    0 <= k < i ==> (#[trigger] self.networks@[k]).name@ != key@.network_name,
            decreases self.networks@.len() - i,
        {
            if self.networks[i].name == key.network_name {
                proof {
                    self.lemma_network_of(key@, i as int);
                }
                return Some(i);
            }
            i = i + 1;
        }
        None
    }

    /// The value under a key.
    pub fn get(&self, key: &SessionKey) -> (found: Option<&V>)
        requires
            self.wf(),
        ensures
            found is Some <==> self@.contains_key(key@),
            found matches Some(value) ==> *value == self@[key@],
    {
        match self.find(key) {
            Some(i) => {
                let found = self.networks[i].table.get(key.peer_id as u64);
                assert(self.holds(key@) == found is Some);
                found
            },
            None => None,
        }
    }

    pub fn contains_key(&self, key: &SessionKey) -> (present: bool)
        requires
            self.wf(),
        ensures
            present == self@.contains_key(key@),
    {
        self.get(key).is_some()
    }

    /// Puts a value under a key and hands out the one that was there.
    pub fn insert(&mut self, key: &SessionKey, value: V) -> (replaced: Option<V>)
        requires
            old(self).wf(),
        ensures
            final(self).wf(),
            final(self)@ == old(self)@.insert(key@, value),
            replaced is Some <==> old(self)@.contains_key(key@),
            replaced matches Some(v) ==> v == old(self)@[key@],
    {
        match self.find(key) {
            Some(i) => {
                let replaced = self.networks[i].table.insert(key.peer_id as u64, value);
                proof {
                    self.lemma_other_networks(*old(self), key@, i as int);
                    assert(self@ =~= old(self)@.insert(key@, value));
                }
                replaced
            },
            None => {
                let mut table: CodeTable<V> = CodeTable::new();
                let _ = table.insert(key.peer_id as u64, value);
                self.networks.push(NetworkTable { name: key.network_name.clone(), table });
                proof {
                    let last = old(self).networks@.len() as int;
                    assert forall|k: SessionKeyModel| self@.contains_key(k)
                        == old(self)@.insert(key@, value).contains_key(k) by {
                        if old(self).holds(k) {
                            let i = choose|i: int|
                                0 <= i < old(self).networks@.len() && (
                                #[trigger] old(self).networks@[i]).name@ == k.network_name
                                    && old(self).networks@[i].table@.contains_key(k.peer_id as u64);
                            assert(self.networks@[i] == old(self).networks@[i]);
                        }
                        if k == key@ {
                            assert(self.networks@[last].name@ == k.network_name);
                        }
                        if self.holds(k) && k != key@ {
                            let i = choose|i: int|
                                0 <= i < self.networks@.len() && (
                                #[trigger] self.networks@[i]).name@ == k.network_name
                                    && self.networks@[i].table@.contains_key(k.peer_id as u64);
                            assert(i < last);
                            assert(self.networks@[i] == old(self).networks@[i]);
                        }
                    }
                    assert forall|k: SessionKeyModel| #[trigger] self@.contains_key(k) implies self@[k]
                        == old(self)@.insert(key@, value)[k] by {
                        if k == key@ {
                            self.lemma_network_of(k, last);
                        } else {
                            let i = choose|i: int|
                                0 <= i < self.networks@.len() && (
                                #[trigger] self.networks@[i]).name@ == k.network_name
                                    && self.networks@[i].table@.contains_key(k.peer_id as u64);
                            assert(i < last);
                            self.lemma_network_of(k, i);
                            assert(self.networks@[i] == old(self).networks@[i]);
                            old(self).lemma_network_of(k, i);
                        }
                    }
                    assert(self@ =~= old(self)@.insert(key@, value));
                }
                None
            },
        }
    }

    /// Where only one network changed, and there only the value of one peer,
    /// every other key has its value.
    proof fn lemma_other_networks(self, before: Self, key: SessionKeyModel, i: int)
        requires
            self.wf(),
            before.wf(),
            0 <= i < self.networks@.len(),
            self.networks@.len() == before.networks@.len(),
            self.networks@[i].name@ == key.network_name,
            forall|j: int|
                0 <= j < self.networks@.len() && j != i ==> #[trigger] self.networks@[j]
                    == before.networks@[j],
            before.networks@[i].name@ == key.network_name,
            forall|code: u64|
                code != key.peer_id as u64 ==> (#[trigger] self.networks@[i].table@.contains_key(code)
                    == before.networks@[i].table@.contains_key(code)) && (
                self.networks@[i].table@.contains_key(code) ==> self.networks@[i].table@[code]
                    == before.networks@[i].table@[code]),
        ensures
            forall|k: SessionKeyModel|
                k != key ==> #[trigger] self@.contains_key(k) == before@.contains_key(k),
            forall|k: SessionKeyModel|
                k != key && self@.contains_key(k) ==> #[trigger] self@[k] == before@[k],
            self@.contains_key(key) == self.networks@[i].table@.contains_key(key.peer_id as u64),
            self@.contains_key(key) ==> self@[key] == self.networks@[i].table@[key.peer_id as u64],
            before@.contains_key(key) == before.networks@[i].table@.contains_key(
                key.peer_id as u64,
            ),
            before@.contains_key(key) ==> before@[key] == before.networks@[i].table@[key.peer_id as u64],
    {
        self.lemma_network_of(key, i);
        before.lemma_network_of(key, i);
        assert forall|k: SessionKeyModel| k != key implies #[trigger] self@.contains_key(k)
            == before@.contains_key(k) by {
            if self.holds(k) {
                let j = choose|j: int|
                    0 <= j < self.networks@.len() && (#[trigger] self.networks@[j]).name@
                        == k.network_name && self.networks@[j].table@.contains_key(k.peer_id as u64);
                if j == i {
                    assert(k.peer_id != key.peer_id);
                }
                assert(before.networks@[j].name@ == k.network_name
                    && before.networks@[j].table@.contains_key(k.peer_id as u64));
            }
            if before.holds(k) {
                let j = choose|j: int|
                    0 <= j < before.networks@.len() && (#[trigger] before.networks@[j]).name@
                        == k.network_name && before.networks@[j].table@.contains_key(
                        k.peer_id as u64,
                    );
                if j == i {
                    assert(k.peer_id != key.peer_id);
                }
                assert(self.networks@[j].name@ == k.network_name
                    && self.networks@[j].table@.contains_key(k.peer_id as u64));
            }
        }
        assert forall|k: SessionKeyModel| k != key && self@.contains_key(k) implies #[trigger] self@[k]
            == before@[k] by {
            let j = choose|j: int|
                0 <= j < self.networks@.len() && (#[trigger] self.networks@[j]).name@
                    == k.network_name && self.networks@[j].table@.contains_key(k.peer_id as u64);
            self.lemma_network_of(k, j);
            assert(before.networks@[j].name@ == k.network_name);
            before.lemma_network_of(k, j);
            if j == i {
                assert(k.peer_id != key.peer_id);
            }
        }
    }

    /// Takes the value of a key out.
    pub fn remove(&mut self, key: &SessionKey) -> (removed: Option<V>)
        requires
            old(self).wf(),
        ensures
            final(self).wf(),
            final(self)@ == old(self)@.remove(key@),
            removed is Some <==> old(self)@.contains_key(key@),
            removed matches Some(v) ==> v == old(self)@[key@],
    {
        match self.find(key) {
            Some(i) => {
                let removed = self.networks[i].table.remove(key.peer_id as u64);
                proof {
                    self.lemma_other_networks(*old(self), key@, i as int);
                    assert(self@ =~= old(self)@.remove(key@));
                }
                removed
            },
            None => {
                assert(self@ =~= old(self)@.remove(key@));
                None
            },
        }
    }

    /// All keys of the table.
    pub fn keys(&self) -> (keys: Vec<SessionKey>)
        requires
            self.wf(),
        ensures
            forall|k: int| 0 <= k < keys@.len() ==> self@.contains_key((#[trigger] keys@[k])@),
            forall|key: SessionKeyModel| #[trigger]
                self@.contains_key(key) ==> exists|k: int|
                    0 <= k < keys@.len() && (#[trigger] keys@[k])@ == key,
            forall|a: int, b: int|
                0 <= a < b < keys@.len() ==> (#[trigger] keys@[a])@ != (#[trigger] keys@[b])@,
    {
        let mut keys: Vec<SessionKey> = Vec::new();
        let mut i: usize = 0;
        while i < self.networks.len()
            invariant
                self.wf(),
                i <= self.networks@.len(),
                forall|k: int| 0 <= k < keys@.len() ==> self.holds((#[trigger] keys@[k])@),
                forall|k: int| 0 <= k < keys@.len() ==> self.before_network((#[trigger] keys@[k])@, i as int),
                forall|a: int, b: int|
                    0 <= a < b < keys@.len() ==> (#[trigger] keys@[a])@ != (#[trigger] keys@[b])@,
                forall|j: int, code: u64|
                    0 <= j < i && #[trigger] self.networks@[j].table@.contains_key(code)
                        ==> exists|k: int|
                        0 <= k < keys@.len() && (#[trigger] keys@[k])@.network_name
                            == self.networks@[j].name@ && keys@[k]@.peer_id == code,
            decreases self.networks@.len() - i,
        {
            proof {
                self.networks@[i as int].table.lemma_codes();
            }
            let mut n: usize = 0;
            while n < self.networks[i].table.len()
                invariant
                    self.wf(),
                    i < self.networks@.len(),
                    n <= self.networks@[i as int].table.codes().len(),
                    forall|code: u64| #[trigger]
                        self.networks@[i as int].table@.contains_key(code)
                            <==> self.networks@[i as int].table.codes().contains(code),
                    forall|k: int| 0 <= k < keys@.len() ==> self.holds((#[trigger] keys@[k])@),
                    self.networks@[i as int].table.codes().no_duplicates(),
                    forall|k: int|
                        0 <= k < keys@.len() ==> self.before_network((#[trigger] keys@[k])@, i as int)
                            || (keys@[k]@.network_name == self.networks@[i as int].name@
                            && self.networks@[i as int].table.codes().take(n as int).contains(
                            keys@[k]@.peer_id as u64,
                        )),
                    forall|a: int, b: int|
                        0 <= a < b < keys@.len() ==> (#[trigger] keys@[a])@ != (#[trigger] keys@[b])@,
                    forall|j: int, code: u64|
                        0 <= j < i && #[trigger] self.networks@[j].table@.contains_key(code)
                            ==> exists|k: int|
                            0 <= k < keys@.len() && (#[trigger] keys@[k])@.network_name
                                == self.networks@[j].name@ && keys@[k]@.peer_id == code,
                    forall|m: int|
                        0 <= m < n ==> exists|k: int|
                            0 <= k < keys@.len() && (#[trigger] keys@[k])@.network_name
                                == self.networks@[i as int].name@ && keys@[k]@.peer_id
                                == #[trigger] self.networks@[i as int].table.codes()[m],
                decreases self.networks@[i as int].table.codes().len() - n,
            {
                let code: u64 = self.networks[i].table.code_at(n);
                let ghost before = keys@;
                proof {
                    assert(self.networks@[i as int].table.codes().contains(code));
                    assert(self.networks@[i as int].table@.contains_key(code));
                }
                keys.push(SessionKey::new(self.networks[i].name.clone(), code as u32));
                proof {
                    let added = keys@.last();
                    assert(self.holds(added@));
                    let codes = self.networks@[i as int].table.codes();
                    assert forall|k: int| 0 <= k < before.len() implies (#[trigger] before[k])@
                        != added@ by {
                        if codes.take(n as int).contains(before[k]@.peer_id as u64) {
                            let m = codes.take(n as int).index_of(before[k]@.peer_id as u64);
                            assert(codes[m] == before[k]@.peer_id);
                        }
                    }
                    assert forall|k: int| 0 <= k < keys@.len() implies self.before_network(
                        (#[trigger] keys@[k])@,
                        i as int,
                    ) || (keys@[k]@.network_name == self.networks@[i as int].name@ && codes.take(
                        n + 1,
                    ).contains(keys@[k]@.peer_id as u64)) by {
                        if k < before.len() {
                            assert(keys@[k] == before[k]);
                            if codes.take(n as int).contains(before[k]@.peer_id as u64) {
                                let m = codes.take(n as int).index_of(before[k]@.peer_id as u64);
                                assert(codes.take(n + 1)[m] == before[k]@.peer_id);
                            }
                        } else {
                            assert(codes.take(n + 1)[n as int] == code);
                        }
                    }
                    assert forall|k: int| 0 <= k < keys@.len() implies self.holds(
                        (#[trigger] keys@[k])@,
                    ) by {
                        if k < before.len() {
                            assert(keys@[k] == before[k]);
                        }
                    }
                    assert forall|j: int, c: u64|
                        0 <= j < i && #[trigger] self.networks@[j].table@.contains_key(c) implies exists|
                        k: int,
                    |
                        0 <= k < keys@.len() && (#[trigger] keys@[k])@.network_name
                            == self.networks@[j].name@ && keys@[k]@.peer_id == c by {
                        let k = choose|k: int|
                            0 <= k < before.len() && (#[trigger] before[k])@.network_name
                                == self.networks@[j].name@ && before[k]@.peer_id == c;
                        assert(keys@[k] == before[k]);
                    }
                    assert forall|m: int| 0 <= m < n + 1 implies exists|k: int|
                        0 <= k < keys@.len() && (#[trigger] keys@[k])@.network_name
                            == self.networks@[i as int].name@ && keys@[k]@.peer_id
                            == #[trigger] self.networks@[i as int].table.codes()[m] by {
                        if m < n {
                            let k = choose|k: int|
                                0 <= k < before.len() && (#[trigger] before[k])@.network_name
                                    == self.networks@[i as int].name@ && before[k]@.peer_id
                                    == self.networks@[i as int].table.codes()[m];
                            assert(keys@[k] == before[k]);
                        } else {
                            assert(keys@[keys@.len() - 1] == added);
                        }
                    }
                }
                n = n + 1;
            }
            proof {
                assert forall|k: int| 0 <= k < keys@.len() implies self.before_network(
                    (#[trigger] keys@[k])@,
                    i + 1,
                ) by {
                    if keys@[k]@.network_name == self.networks@[i as int].name@ {
                        assert(self.networks@[i as int].name@ == keys@[k]@.network_name);
                    }
                }
            }
            i = i + 1;
        }
        proof {
            assert forall|key: SessionKeyModel| #[trigger] self@.contains_key(key) implies exists|k: int|
                0 <= k < keys@.len() && (#[trigger] keys@[k])@ == key by {
                let j = choose|j: int|
                    0 <= j < self.networks@.len() && (#[trigger] self.networks@[j]).name@
                        == key.network_name && self.networks@[j].table@.contains_key(
                        key.peer_id as u64,
                    );
                assert(self.networks@[j].table@.contains_key(key.peer_id as u64));
                let k = choose|k: int|
                    0 <= k < keys@.len() && (#[trigger] keys@[k])@.network_name
                        == self.networks@[j].name@ && keys@[k]@.peer_id == key.peer_id as u64;
                assert(keys@[k]@ == key);
            }
        }
        keys
    }
}

} // verus!
