//! A small map with text or pairs as keys.
use vstd::prelude::*;

use crate::text;

verus! {

/// What can be a key of a table: two keys are the same when their identities are.
pub trait TableKey: Sized {
    type Id;

    spec fn id(&self) -> Self::Id;

    fn same(&self, other: &Self) -> (r: bool)
        ensures
            r == (self.id() == other.id()),
    ;
}

impl TableKey for String {
    type Id = Seq<char>;

    open spec fn id(&self) -> Seq<char> {
        self@
    }

    fn same(&self, other: &Self) -> (r: bool) {
        text::same_text(self.as_str(), other.as_str())
    }
}

impl TableKey for (String, usize) {
    type Id = (Seq<char>, usize);

    open spec fn id(&self) -> (Seq<char>, usize) {
        (self.0@, self.1)
    }

    fn same(&self, other: &Self) -> (r: bool) {
        self.1 == other.1 && text::same_text(self.0.as_str(), other.0.as_str())
    }
}

impl TableKey for (String, String) {
    type Id = (Seq<char>, Seq<char>);

    open spec fn id(&self) -> (Seq<char>, Seq<char>) {
        (self.0@, self.1@)
    }

    fn same(&self, other: &Self) -> (r: bool) {
        text::same_text(self.0.as_str(), other.0.as_str()) && text::same_text(
            self.1.as_str(),
            other.1.as_str(),
        )
    }
}

impl TableKey for (String, usize, String) {
    type Id = (Seq<char>, usize, Seq<char>);

    open spec fn id(&self) -> (Seq<char>, usize, Seq<char>) {
        (self.0@, self.1, self.2@)
    }

    fn same(&self, other: &Self) -> (r: bool) {
        self.1 == other.1 && text::same_text(self.0.as_str(), other.0.as_str()) && text::same_text(
            self.2.as_str(),
            other.2.as_str(),
        )
    }
}

/// A map from keys to values; each key occurs in one row.
pub struct Table<K: TableKey, V> {
    rows: Vec<(K, V)>,
}

/// Whether a row of the given rows has this key.
pub open spec fn has_row<K: TableKey, V>(rows: Seq<(K, V)>, key: K::Id) -> bool {
    exists|i: int| 0 <= i < rows.len() && (#[trigger] rows[i]).0.id() == key
}

/// The row of the given rows with this key.
pub open spec fn row_of<K: TableKey, V>(rows: Seq<(K, V)>, key: K::Id) -> int {
    choose|i: int| 0 <= i < rows.len() && (#[trigger] rows[i]).0.id() == key
}

/// No two rows have the same key.
pub open spec fn distinct<K: TableKey, V>(rows: Seq<(K, V)>) -> bool {
    forall|i: int, j: int|
        0 <= i < rows.len() && 0 <= j < rows.len() && i != j ==> (#[trigger] rows[i]).0.id() != (
        #[trigger] rows[j]).0.id()
}

/// The map that the rows stand for.
pub open spec fn row_map<K: TableKey, V>(rows: Seq<(K, V)>) -> Map<K::Id, V> {
    Map::new(|key: K::Id| has_row(rows, key), |key: K::Id| rows[row_of(rows, key)].1)
}

pub proof fn lemma_row<K: TableKey, V>(rows: Seq<(K, V)>, i: int)
    requires
        distinct(rows),
        0 <= i < rows.len(),
    ensures
        row_map(rows).contains_key(rows[i].0.id()),
        row_map(rows)[rows[i].0.id()] == rows[i].1,
{
    assert(has_row(rows, rows[i].0.id()));
    let j = row_of(rows, rows[i].0.id());
    assert(0 <= j < rows.len() && rows[j].0.id() == rows[i].0.id());
}

pub proof fn lemma_dom_len<K: TableKey, V>(rows: Seq<(K, V)>)
    requires
        distinct(rows),
    ensures
        row_map(rows).dom().finite(),
        row_map(rows).dom().len() == rows.len(),
{
    let ids = rows.map_values(|row: (K, V)| row.0.id());
    assert forall|i: int, j: int| 0 <= i < ids.len() && 0 <= j < ids.len() && i != j implies ids[i]
        != ids[j] by {
        assert(rows[i].0.id() != rows[j].0.id());
    }
    ids.unique_seq_to_set();
    assert forall|k: K::Id| row_map(rows).dom().contains(k) == ids.to_set().contains(k) by {
        if has_row(rows, k) {
            let i = row_of(rows, k);
            assert(ids[i] == k);
        }
        if ids.contains(k) {
            let i = choose|i: int| 0 <= i < ids.len() && ids[i] == k;
            assert(rows[i].0.id() == k);
        }
    }
    assert(row_map(rows).dom() =~= ids.to_set());
}

impl<K: TableKey, V> View for Table<K, V> {
    type V = Map<K::Id, V>;

    closed spec fn view(&self) -> Map<K::Id, V> {
        row_map(self.rows@)
    }
}

impl<K: TableKey, V> Table<K, V> {
    /// Each key occurs in one row.
    #[verifier::type_invariant]
    spec fn wf(self) -> bool {
        distinct(self.rows@)
    }

    pub fn new() -> (r: Self)
        ensures
            r@ == Map::<K::Id, V>::empty(),
    {
        let r = Table { rows: Vec::new() };
        proof {
            assert(r@ =~= Map::<K::Id, V>::empty());
        }
        r
    }

    fn position(&self, key: &K) -> (r: Option<usize>)
        ensures
            match r {
                Some(i) => i < self.rows@.len() && self.rows@[i as int].0.id() == key.id(),
                None => !has_row(self.rows@, key.id()),
            },
    {
        for i in 0..self.rows.len()
            invariant
                forall|k: int| 0 <= k < i ==> (#[trigger] self.rows@[k]).0.id() != key.id(),
        {
            if self.rows[i].0.same(key) {
                return Some(i);
            }
        }
        None
    }

    /// The value of a key.
    pub fn get(&self, key: &K) -> (r: Option<&V>)
        ensures
            match r {
                Some(value) => self@.contains_key(key.id()) && self@[key.id()] == *value,
                None => !self@.contains_key(key.id()),
            },
    {
        proof {
            use_type_invariant(self);
        }
        match self.position(key) {
            Some(i) => {
                proof {
                    lemma_row(self.rows@, i as int);
                }
                Some(&self.rows[i].1)
            },
            None => None,
        }
    }

    pub fn contains_key(&self, key: &K) -> (r: bool)
        ensures
            r == self@.contains_key(key.id()),
    {
        match self.get(key) {
            Some(_) => true,
            None => false,
        }
    }

    /// Sets the value of a key.
    pub fn insert(&mut self, key: K, value: V)
        ensures
            final(self)@ == old(self)@.insert(key.id(), value),
    {
        proof {
            use_type_invariant(&*self);
        }
        let ghost id = key.id();
        let ghost before = self.rows@;
        let found = self.position(&key);
        let mut rows: Vec<(K, V)> = Vec::new();
        std::mem::swap(&mut rows, &mut self.rows);
        match found {
            Some(i) => {
                rows.set(i, (key, value));
            },
            None => {
                rows.push((key, value));
            },
        }
        proof {
            let after = rows@;
            assert(distinct(after));
            assert forall|k: K::Id| row_map(after).contains_key(k) == row_map(before).insert(
                id,
                value,
            ).contains_key(k) by {
                let slot = match found {
                    Some(i) => i as int,
                    None => before.len() as int,
                };
                assert(after[slot].0.id() == id);
                if has_row(before, k) {
                    let i = row_of(before, k);
                    assert(after[i].0.id() == k);
                }
                if has_row(after, k) && k != id {
                    let i = row_of(after, k);
                    assert(before[i].0.id() == k);
                }
            }
            assert forall|k: K::Id| row_map(after).contains_key(k) implies row_map(after)[k]
                == row_map(before).insert(id, value)[k] by {
                let i = row_of(after, k);
                lemma_row(after, i);
                if k != id {
                    assert(before[i].0.id() == k);
                    lemma_row(before, i);
                }
            }
            assert(row_map(after) =~= row_map(before).insert(id, value));
        }
        self.rows = rows;
    }

    /// Takes a key and its value out.
    pub fn remove(&mut self, key: &K) -> (r: Option<V>)
        ensures
            final(self)@ == old(self)@.remove(key.id()),
            match r {
                Some(value) => old(self)@.contains_key(key.id()) && old(self)@[key.id()] == value,
                None => !old(self)@.contains_key(key.id()),
            },
    {
        proof {
            use_type_invariant(&*self);
        }
        let ghost id = key.id();
        let ghost before = self.rows@;
        match self.position(key) {
            Some(at) => {
                let mut rows: Vec<(K, V)> = Vec::new();
                std::mem::swap(&mut rows, &mut self.rows);
                let (found, value) = rows.remove(at);
                proof {
                    let after = rows@;
                    lemma_row(before, at as int);
                    assert forall|i: int| 0 <= i < after.len() implies #[trigger] after[i]
                        == before[if i < at {
                        i
                    } else {
                        i + 1
                    }] by {}
                    assert(distinct(after));
                    assert forall|k: K::Id| row_map(after).contains_key(k) == row_map(
                        before,
                    ).remove(id).contains_key(k) by {
                        if has_row(after, k) {
                            let i = row_of(after, k);
                            let j = if i < at {
                                i
                            } else {
                                i + 1
                            };
                            assert(before[j].0.id() == k);
                            assert(before[at as int].0.id() == id);
                        }
                        if has_row(before, k) && k != id {
                            let i = row_of(before, k);
                            let j = if i < at {
                                i
                            } else {
                                i - 1
                            };
                            assert(after[j].0.id() == k);
                        }
                    }
                    assert forall|k: K::Id| row_map(after).contains_key(k) implies row_map(
                        after,
                    )[k] == row_map(before).remove(id)[k] by {
                        let i = row_of(after, k);
                        lemma_row(after, i);
                        let j = if i < at {
                            i
                        } else {
                            i + 1
                        };
                        lemma_row(before, j);
                    }
                    assert(row_map(after) =~= row_map(before).remove(id));
                }
                self.rows = rows;
                Some(value)
            },
            None => {
                proof {
                    assert(row_map(before).remove(id) =~= row_map(before));
                }
                None
            },
        }
    }

    /// The number of keys.
    pub fn len(&self) -> (r: usize)
        ensures
            self@.dom().finite(),
            r == self@.dom().len(),
    {
        proof {
            use_type_invariant(self);
            lemma_dom_len(self.rows@);
        }
        self.rows.len()
    }

    /// The rows, in some order.
    pub closed spec fn spec_rows(&self) -> Seq<(K, V)> {
        self.rows@
    }

    /// The rows, in some order: each key of the map with its value, once.
    pub fn rows(&self) -> (r: &Vec<(K, V)>)
        ensures
            r@ == self.spec_rows(),
            distinct(r@),
            self@ == row_map(r@),
    {
        proof {
            use_type_invariant(self);
        }
        &self.rows
    }

    /// Drops everything.
    pub fn clear(&mut self)
        ensures
            final(self)@ == Map::<K::Id, V>::empty(),
    {
        let rows: Vec<(K, V)> = Vec::new();
        proof {
            assert(row_map(rows@) =~= Map::<K::Id, V>::empty());
        }
        self.rows = rows;
    }
}

} // verus!
