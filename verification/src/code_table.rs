//! A table of values under integer codes.
//!
//! The values stand in a vector. A concurrent hash map of the `dashmap` crate
//! finds the position of a code.

use vstd::prelude::*;
use dashmap::DashMap;

verus! {

/// The map of the `dashmap` crate. Verus sees nothing inside a value of it.
#[verifier::external_type_specification]
#[verifier::external_body]
#[verifier::reject_recursive_types(K)]
#[verifier::reject_recursive_types(V)]
#[verifier::reject_recursive_types(S)]
pub struct ExDashMap<K, V, S>(DashMap<K, V, S>);

/// What an index holds.
pub uninterp spec fn index_contents(index: DashMap<u64, usize>) -> Map<u64, usize>;

/// Calls `dashmap::DashMap::new`, which makes a map without entries.
#[verifier::external_body]
fn index_new() -> (index: DashMap<u64, usize>)
    ensures
        index_contents(index).dom() == Set::<u64>::empty(),
{
    DashMap::new()
}

/// Calls `dashmap::DashMap::get` and copies the value out of the guard that it
/// returns: the value under the code, if there is one.
#[verifier::external_body]
fn index_get(index: &DashMap<u64, usize>, code: u64) -> (found: Option<usize>)
    ensures
        found == (if index_contents(*index).contains_key(code) {
            Some(index_contents(*index)[code])
        } else {
            None
        }),
{
    index.get(&code).map(|entry| *entry.value())
}

/// Calls `dashmap::DashMap::insert`, which puts the value under the code in
/// place of whatever was there.
#[verifier::external_body]
fn index_insert(index: &mut DashMap<u64, usize>, code: u64, at: usize)
    ensures
        index_contents(*final(index)) == index_contents(*old(index)).insert(code, at),
{
    index.insert(code, at);
}

/// Calls `dashmap::DashMap::remove`, which takes the entry of the code out.
#[verifier::external_body]
fn index_remove(index: &mut DashMap<u64, usize>, code: u64)
    ensures
        index_contents(*final(index)) == index_contents(*old(index)).remove(code),
{
    index.remove(&code);
}

/// A value and its code.
pub struct CodeEntry<V> {
    pub code: u64,
    pub value: V,
}

/// A table of values under distinct codes.
pub struct CodeTable<V> {
    index: DashMap<u64, usize>,
    entries: Vec<CodeEntry<V>>,
}

impl<V> View for CodeTable<V> {
    type V = Map<u64, V>;

    closed spec fn view(&self) -> Map<u64, V> {
        Map::new(
            |code: u64| index_contents(self.index).contains_key(code),
            |code: u64| self.entries@[index_contents(self.index)[code] as int].value,
        )
    }
}

impl<V> CodeTable<V> {
    /// The index knows exactly the position of every entry.
    pub closed spec fn wf(self) -> bool {
        let index = index_contents(self.index);
        &&& forall|code: u64| #[trigger]
            index.contains_key(code) ==> index[code] < self.entries@.len()
                && self.entries@[index[code] as int].code == code
        &&& forall|i: int|
            0 <= i < self.entries@.len() ==> index.contains_key(
                (#[trigger] self.entries@[i]).code,
            ) && index[self.entries@[i].code] == i
    }

    /// The codes of the table, in the order in which it can be walked.
    pub closed spec fn codes(self) -> Seq<u64> {
        Seq::new(self.entries@.len(), |i: int| self.entries@[i].code)
    }

    /// The codes are the domain of the table, each one once.
    pub proof fn lemma_codes(self)
        requires
            self.wf(),
        ensures
            forall|code: u64| #[trigger] self@.contains_key(code) <==> self.codes().contains(code),
            self.codes().no_duplicates(),
    {
        assert forall|code: u64| #[trigger] self@.contains_key(code) implies self.codes().contains(
            code,
        ) by {
            assert(self.codes()[index_contents(self.index)[code] as int] == code);
        }
        assert forall|code: u64| self.codes().contains(code) implies #[trigger] self@.contains_key(
            code,
        ) by {
            let i = self.codes().index_of(code);
            assert(self.entries@[i].code == code);
        }
        assert forall|i: int, j: int|
            0 <= i < self.codes().len() && 0 <= j < self.codes().len() && i != j implies self.codes()[i]
            != self.codes()[j] by {
            assert(index_contents(self.index)[self.entries@[i].code] == i);
            assert(index_contents(self.index)[self.entries@[j].code] == j);
        }
    }

    pub fn new() -> (table: Self)
        ensures
            table.wf(),
            table@.dom() == Set::<u64>::empty(),
            table@ == Map::<u64, V>::empty(),
            table.codes() == Seq::<u64>::empty(),
    {
        let table = CodeTable { index: index_new(), entries: Vec::new() };
        assert(table@.dom() =~= Set::<u64>::empty());
        assert(table@ =~= Map::<u64, V>::empty());
        assert(table.codes() =~= Seq::<u64>::empty());
        table
    }

    /// The value under a code.
    pub fn get(&self, code: u64) -> (found: Option<&V>)
        requires
            self.wf(),
        ensures
            found is Some <==> self@.contains_key(code),
            found matches Some(value) ==> *value == self@[code],
    {
        match index_get(&self.index, code) {
            Some(at) => Some(&self.entries[at].value),
            None => None,
        }
    }

    pub fn contains_key(&self, code: u64) -> (present: bool)
        requires
            self.wf(),
        ensures
            present == self@.contains_key(code),
    {
        index_get(&self.index, code).is_some()
    }

    /// Puts a value under a code and hands out the one that was there.
    pub fn insert(&mut self, code: u64, value: V) -> (replaced: Option<V>)
        requires
            old(self).wf(),
        ensures
            final(self).wf(),
            final(self)@ == old(self)@.insert(code, value),
            replaced is Some <==> old(self)@.contains_key(code),
            replaced matches Some(v) ==> v == old(self)@[code],
    {
        match index_get(&self.index, code) {
            Some(at) => {
                let mut entry = CodeEntry { code, value };
                std::mem::swap(&mut self.entries[at], &mut entry);
                assert(self@ =~= old(self)@.insert(code, value));
                Some(entry.value)
            },
            None => {
                let at: usize = self.entries.len();
                self.entries.push(CodeEntry { code, value });
                index_insert(&mut self.index, code, at);
                assert(self@ =~= old(self)@.insert(code, value));
                None
            },
        }
    }

    /// Takes the value of a code out.
    pub fn remove(&mut self, code: u64) -> (removed: Option<V>)
        requires
            old(self).wf(),
        ensures
            final(self).wf(),
            final(self)@ == old(self)@.remove(code),
            removed is Some <==> old(self)@.contains_key(code),
            removed matches Some(v) ==> v == old(self)@[code],
    {
        match index_get(&self.index, code) {
            Some(at) => {
                let last: usize = self.entries.len() - 1;
                let moved: u64 = self.entries[last].code;
                let entry = self.entries.swap_remove(at);
                index_remove(&mut self.index, code);
                if at != last {
                    index_insert(&mut self.index, moved, at);
                }
                proof {
                    let was = index_contents(old(self).index);
                    assert(was[moved] == last);
                    assert forall|c: u64| #[trigger]
                        index_contents(self.index).contains_key(c) implies index_contents(
                        self.index,
                    )[c] < self.entries@.len() && self.entries@[index_contents(
                        self.index,
                    )[c] as int].code == c by {
                        assert(was.contains_key(c));
                        if c != moved {
                            assert(old(self).entries@[was[c] as int].code == c);
                        }
                    }
                    assert forall|i: int| 0 <= i < self.entries@.len() implies index_contents(
                        self.index,
                    ).contains_key((#[trigger] self.entries@[i]).code) && index_contents(
                        self.index,
                    )[self.entries@[i].code] == i by {
                        if i == at {
                            assert(self.entries@[i] == old(self).entries@[last as int]);
                        } else {
                            assert(self.entries@[i] == old(self).entries@[i]);
                        }
                    }
                    assert(self@ =~= old(self)@.remove(code));
                }
                Some(entry.value)
            },
            None => {
                assert(self@ =~= old(self)@.remove(code));
                None
            },
        }
    }

    pub fn len(&self) -> (n: usize)
        ensures
            n == self.codes().len(),
    {
        self.entries.len()
    }

    /// The code at a position of the walk.
    pub fn code_at(&self, i: usize) -> (code: u64)
        requires
            i < self.codes().len(),
        ensures
            code == self.codes()[i as int],
    {
        self.entries[i].code
    }

    /// The value at a position of the walk.
    pub fn value_at(&self, i: usize) -> (value: &V)
        requires
            self.wf(),
            i < self.codes().len(),
        ensures
            self@.contains_key(self.codes()[i as int]),
            *value == self@[self.codes()[i as int]],
    {
        let ghost code = self.entries@[i as int].code;
        assert(index_contents(self.index)[code] == i);
        &self.entries[i].value
    }
}

} // verus!
