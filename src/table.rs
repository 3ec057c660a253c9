//! An in-memory keyed table: the records of the engine are kept under a
//! numeric scope (an app id, a cycle) and a byte-string id.

use vstd::prelude::*;

verus! {

/// Byte-wise equality of two ids.
pub fn bytes_eq(a: &Vec<u8>, b: &Vec<u8>) -> (r: bool)
    ensures
        r == (a@ == b@),
{
    if a.len() != b.len() {
        return false;
    }
    let mut i: usize = 0;
    while i < a.len()
        invariant
            a@.len() == b@.len(),
            0 <= i <= a@.len(),
            forall|j: int| 0 <= j < i ==> a@[j] == b@[j],
        decreases a@.len() - i,
    {
        if a[i] != b[i] {
            return false;
        }
        i = i + 1;
    }
    assert(a@ =~= b@);
    true
}

/// One stored record.
pub struct Entry<V> {
    pub scope: u32,
    pub id: Vec<u8>,
    pub value: V,
}

/// The key of a record, as contracts see it.
pub open spec fn entry_key<V>(e: Entry<V>) -> (u32, Seq<u8>) {
    (e.scope, e.id@)
}

/// The map that a sequence of records denotes: a later record of a key
/// overrides an earlier one.
pub open spec fn entries_map<V>(s: Seq<Entry<V>>) -> Map<(u32, Seq<u8>), V>
    decreases s.len(),
{
    if s.len() == 0 {
        Map::empty()
    } else {
        entries_map(s.drop_last()).insert(entry_key(s.last()), s.last().value)
    }
}

/// A map from `(scope, id)` to values.
pub struct Table<V> {
    entries: Vec<Entry<V>>,
}

impl<V: Copy> View for Table<V> {
    type V = Map<(u32, Seq<u8>), V>;

    closed spec fn view(&self) -> Map<(u32, Seq<u8>), V> {
        entries_map(self.entries@)
    }
}

proof fn lemma_not_key_not_in_map<V>(s: Seq<Entry<V>>, k: (u32, Seq<u8>))
    requires
        forall|j: int| 0 <= j < s.len() ==> entry_key(#[trigger] s[j]) != k,
    ensures
        !entries_map(s).contains_key(k),
    decreases s.len(),
{
    if s.len() > 0 {
        lemma_not_key_not_in_map(s.drop_last(), k);
    }
}

proof fn lemma_last_key_value<V>(s: Seq<Entry<V>>, i: int, k: (u32, Seq<u8>))
    requires
        0 <= i < s.len(),
        entry_key(s[i]) == k,
        forall|j: int| i < j < s.len() ==> entry_key(#[trigger] s[j]) != k,
    ensures
        entries_map(s).contains_key(k),
        entries_map(s)[k] == s[i].value,
    decreases s.len(),
{
    if i < s.len() - 1 {
        lemma_last_key_value(s.drop_last(), i, k);
    }
}

proof fn lemma_update_last<V>(s: Seq<Entry<V>>, i: int, e: Entry<V>)
    requires
        0 <= i < s.len(),
        entry_key(s[i]) == entry_key(e),
        forall|j: int| i < j < s.len() ==> entry_key(#[trigger] s[j]) != entry_key(e),
    ensures
        entries_map(s.update(i, e)) == entries_map(s).insert(entry_key(e), e.value),
    decreases s.len(),
{
    let t = s.update(i, e);
    if i == s.len() - 1 {
        assert(t.drop_last() =~= s.drop_last());
        assert(entries_map(t) =~= entries_map(s).insert(entry_key(e), e.value));
    } else {
        assert(t.drop_last() =~= s.drop_last().update(i, e));
        lemma_update_last(s.drop_last(), i, e);
        assert(entries_map(t) =~= entries_map(s).insert(entry_key(e), e.value));
    }
}

impl<V: Copy> Table<V> {
    /// A table with no records.
    pub fn new() -> (r: Self)
        ensures
            r@ == Map::<(u32, Seq<u8>), V>::empty(),
    {
        Table { entries: Vec::new() }
    }

    /// Position of the last record under `(scope, id)`.
    fn position(&self, scope: u32, id: &Vec<u8>) -> (r: Option<usize>)
        ensures
            match r {
                Some(i) => {
                    &&& i < self.entries@.len()
                    &&& entry_key(self.entries@[i as int]) == (scope, id@)
                    &&& forall|j: int|
                        i < j < self.entries@.len() ==> entry_key(#[trigger] self.entries@[j]) != (
                        scope,
                        id@,
                    )
                },
                None => forall|j: int|
                    0 <= j < self.entries@.len() ==> entry_key(#[trigger] self.entries@[j]) != (
                    scope,
                    id@,
                ),
            },
    {
        let mut i: usize = self.entries.len();
        while i > 0
            invariant
                i <= self.entries@.len(),
                forall|j: int|
                    i <= j < self.entries@.len() ==> entry_key(#[trigger] self.entries@[j]) != (
                    scope,
                    id@,
                ),
            decreases i,
        {
            let e = &self.entries[i - 1];
            if e.scope == scope && bytes_eq(&e.id, id) {
                return Some(i - 1);
            }
            i = i - 1;
        }
        None
    }

    /// The value under `(scope, id)`, if any.
    pub fn get(&self, scope: u32, id: &Vec<u8>) -> (r: Option<V>)
        ensures
            r == (if self@.contains_key((scope, id@)) {
                Some(self@[(scope, id@)])
            } else {
                None
            }),
    {
        match self.position(scope, id) {
            Some(i) => {
                proof {
                    lemma_last_key_value(self.entries@, i as int, (scope, id@));
                }
                Some(self.entries[i].value)
            },
            None => {
                proof {
                    lemma_not_key_not_in_map(self.entries@, (scope, id@));
                }
                None
            },
        }
    }

    /// Whether a value is stored under `(scope, id)`.
    pub fn contains(&self, scope: u32, id: &Vec<u8>) -> (r: bool)
        ensures
            r == self@.contains_key((scope, id@)),
    {
        self.get(scope, id).is_some()
    }

    /// Stores `value` under `(scope, id)`, replacing what was there.
    pub fn insert(&mut self, scope: u32, id: &Vec<u8>, value: V)
        ensures
            final(self)@ == old(self)@.insert((scope, id@), value),
    {
        let e = Entry { scope, id: id.clone(), value };
        match self.position(scope, id) {
            Some(i) => {
                proof {
                    lemma_update_last(self.entries@, i as int, e);
                }
                self.entries.set(i, e);
            },
            None => {
                let ghost s = self.entries@;
                self.entries.push(e);
                proof {
                    assert(self.entries@.drop_last() =~= s);
                }
            },
        }
    }

    /// A copy of the table.
    pub fn duplicate(&self) -> (r: Self)
        ensures
            r@ == self@,
    {
        let mut entries: Vec<Entry<V>> = Vec::new();
        let mut i: usize = 0;
        while i < self.entries.len()
            invariant
                0 <= i <= self.entries@.len(),
                entries@.len() == i,
                forall|j: int|
                    0 <= j < i ==> entry_key(#[trigger] entries@[j]) == entry_key(self.entries@[j])
                        && entries@[j].value == self.entries@[j].value,
            decreases self.entries@.len() - i,
        {
            let e = &self.entries[i];
            entries.push(Entry { scope: e.scope, id: e.id.clone(), value: e.value });
            i = i + 1;
        }
        proof {
            lemma_same_keys_same_map(entries@, self.entries@);
        }
        Table { entries }
    }
}

proof fn lemma_same_keys_same_map<V>(a: Seq<Entry<V>>, b: Seq<Entry<V>>)
    requires
        a.len() == b.len(),
        forall|j: int|
            0 <= j < a.len() ==> entry_key(#[trigger] a[j]) == entry_key(b[j]) && a[j].value == b[j].value,
    ensures
        entries_map(a) == entries_map(b),
    decreases a.len(),
{
    if a.len() > 0 {
        lemma_same_keys_same_map(a.drop_last(), b.drop_last());
    }
}

} // verus!
