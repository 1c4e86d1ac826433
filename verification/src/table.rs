//! Tables keyed by strings.

use crate::text::same_str;
use vstd::prelude::*;

verus! {

/// The first position from `from` on at which `entries` has the key; their number
/// where there is none.
pub open spec fn position<V>(entries: Seq<(Seq<char>, V)>, key: Seq<char>, from: int) -> int
    decreases entries.len() - from,
{
    if from >= entries.len() || entries[from].0 == key {
        from
    } else {
        position(entries, key, from + 1)
    }
}

/// Whether no key occurs twice.
pub open spec fn distinct_keys<V>(entries: Seq<(Seq<char>, V)>) -> bool {
    forall|i: int, j: int|
        0 <= i < j < entries.len() ==> (#[trigger] entries[i]).0 != (#[trigger] entries[j]).0
}

/// The value under a key.
pub open spec fn lookup<V>(entries: Seq<(Seq<char>, V)>, key: Seq<char>) -> Option<V> {
    let at = position(entries, key, 0);
    if 0 <= at < entries.len() {
        Some(entries[at].1)
    } else {
        None
    }
}

/// The entries with a value put under a key: in the place of the former value,
/// where there was one, else at the end.
pub open spec fn inserted<V>(entries: Seq<(Seq<char>, V)>, key: Seq<char>, value: V) -> Seq<
    (Seq<char>, V),
> {
    let at = position(entries, key, 0);
    if 0 <= at < entries.len() {
        entries.update(at, (key, value))
    } else {
        entries.push((key, value))
    }
}

/// The entries without the one under a key.
pub open spec fn removed<V>(entries: Seq<(Seq<char>, V)>, key: Seq<char>) -> Seq<(Seq<char>, V)> {
    let at = position(entries, key, 0);
    if 0 <= at < entries.len() {
        entries.remove(at)
    } else {
        entries
    }
}

/// The values of the entries.
pub open spec fn values<V>(entries: Seq<(Seq<char>, V)>) -> Seq<V> {
    entries.map_values(|entry: (Seq<char>, V)| entry.1)
}

pub proof fn lemma_position<V>(entries: Seq<(Seq<char>, V)>, key: Seq<char>, from: int)
    requires
        0 <= from <= entries.len(),
    ensures
        from <= position(entries, key, from) <= entries.len(),
        position(entries, key, from) < entries.len() ==> entries[position(entries, key, from)].0
            == key,
        forall|i: int|
            from <= i < position(entries, key, from) ==> (#[trigger] entries[i]).0 != key,
    decreases entries.len() - from,
{
    if from < entries.len() && entries[from].0 != key {
        lemma_position(entries, key, from + 1);
    }
}

proof fn lemma_position_is<V>(entries: Seq<(Seq<char>, V)>, key: Seq<char>, from: int, at: int)
    requires
        0 <= from <= at <= entries.len(),
        at < entries.len() ==> entries[at].0 == key,
        forall|i: int| from <= i < at ==> (#[trigger] entries[i]).0 != key,
    ensures
        position(entries, key, from) == at,
    decreases at - from,
{
    if from < at {
        assert(entries[from].0 != key);
        lemma_position_is(entries, key, from + 1, at);
    }
}

/// A key has a value exactly where one of the entries has that key.
pub proof fn lemma_lookup_some<V>(entries: Seq<(Seq<char>, V)>, key: Seq<char>)
    ensures
        lookup(entries, key) is Some <==> exists|i: int|
            0 <= i < entries.len() && (#[trigger] entries[i]).0 == key,
{
    lemma_position(entries, key, 0);
    if lookup(entries, key) is Some {
        assert(entries[position(entries, key, 0)].0 == key);
    }
}

/// What was put under a key is found under it, and what is under the other keys
/// stays.
pub proof fn lemma_lookup_inserted<V>(
    entries: Seq<(Seq<char>, V)>,
    key: Seq<char>,
    value: V,
    other: Seq<char>,
)
    requires
        distinct_keys(entries),
    ensures
        distinct_keys(inserted(entries, key, value)),
        lookup(inserted(entries, key, value), other) == (if other == key {
            Some(value)
        } else {
            lookup(entries, other)
        }),
{
    let after = inserted(entries, key, value);
    lemma_position(entries, key, 0);
    lemma_position(entries, other, 0);
    let at = position(entries, other, 0);
    if other == key {
        lemma_position_is(after, other, 0, at);
    } else if at < entries.len() {
        assert(after[at] == entries[at]);
        lemma_position_is(after, other, 0, at);
    } else {
        lemma_position_is(after, other, 0, after.len() as int);
    }
}

/// What was removed is no longer found, and what is under the other keys stays.
pub proof fn lemma_lookup_removed<V>(
    entries: Seq<(Seq<char>, V)>,
    key: Seq<char>,
    other: Seq<char>,
)
    requires
        distinct_keys(entries),
    ensures
        distinct_keys(removed(entries, key)),
        lookup(removed(entries, key), other) == (if other == key {
            None
        } else {
            lookup(entries, other)
        }),
{
    let after = removed(entries, key);
    lemma_position(entries, key, 0);
    lemma_position(entries, other, 0);
    let gone = position(entries, key, 0);
    let at = position(entries, other, 0);
    assert forall|i: int| 0 <= i < after.len() implies #[trigger] after[i] == entries[if gone
        < entries.len() && i >= gone {
        i + 1
    } else {
        i
    }] by {}
    if other == key {
        assert forall|i: int| 0 <= i < after.len() implies (#[trigger] after[i]).0 != key by {
            if gone < entries.len() {
                assert(entries[gone].0 == key);
            }
        }
        lemma_position_is(after, other, 0, after.len() as int);
    } else if at < entries.len() {
        let to = if gone < entries.len() && at > gone {
            at - 1
        } else {
            at
        };
        assert(after[to] == entries[at]);
        lemma_position_is(after, other, 0, to);
    } else {
        lemma_position_is(after, other, 0, after.len() as int);
    }
}

/// A table keyed by strings, which keeps its entries in the order in which their
/// keys came.
pub struct StringTable<V> {
    entries: Vec<(String, V)>,
}

impl<V> StringTable<V> {
    /// The keys and values.
    pub closed spec fn entries(&self) -> Seq<(Seq<char>, V)> {
        self.entries@.map_values(|entry: (String, V)| (entry.0@, entry.1))
    }

    /// No key occurs twice.
    pub open spec fn wf(&self) -> bool {
        distinct_keys(self.entries())
    }

    /// A table without entries.
    pub fn new() -> (r: Self)
        ensures
            r.wf(),
            r.entries() == Seq::<(Seq<char>, V)>::empty(),
    {
        let r = StringTable { entries: Vec::new() };
        assert(r.entries() =~= Seq::<(Seq<char>, V)>::empty());
        r
    }

    /// The number of entries.
    pub fn len(&self) -> (r: usize)
        ensures
            r == self.entries().len(),
    {
        self.entries.len()
    }

    /// The key of the entry at a position.
    pub fn key_at(&self, i: usize) -> (r: &str)
        requires
            i < self.entries().len(),
        ensures
            r@ == self.entries()[i as int].0,
    {
        self.entries[i].0.as_str()
    }

    /// The value of the entry at a position.
    pub fn value_at(&self, i: usize) -> (r: &V)
        requires
            i < self.entries().len(),
        ensures
            *r == self.entries()[i as int].1,
    {
        &self.entries[i].1
    }

    /// The first position of a key, or the number of entries.
    fn position_of(&self, key: &str) -> (r: usize)
        ensures
            r == position(self.entries(), key@, 0),
            r <= self.entries().len(),
    {
        let mut i: usize = 0;
        while i < self.entries.len()
            invariant
                i <= self.entries.len(),
                position(self.entries(), key@, 0) == position(self.entries(), key@, i as int),
            decreases self.entries.len() - i,
        {
            if same_str(self.entries[i].0.as_str(), key) {
                return i;
            }
            i += 1;
        }
        i
    }

    /// The value under a key.
    pub fn get(&self, key: &str) -> (r: Option<&V>)
        ensures
            match r {
                Some(value) => lookup(self.entries(), key@) == Some(*value),
                None => lookup(self.entries(), key@) is None,
            },
    {
        let i = self.position_of(key);
        if i < self.entries.len() {
            Some(&self.entries[i].1)
        } else {
            None
        }
    }

    /// Puts a value under a key, and hands back the former one.
    pub fn insert(&mut self, key: String, value: V) -> (r: Option<V>)
        requires
            old(self).wf(),
        ensures
            final(self).wf(),
            final(self).entries() == inserted(old(self).entries(), key@, value),
            r == lookup(old(self).entries(), key@),
    {
        proof {
            lemma_lookup_inserted(self.entries(), key@, value, key@);
        }
        let i = self.position_of(key.as_str());
        if i < self.entries.len() {
            self.entries.push((key, value));
            let former = self.entries.swap_remove(i);
            assert(self.entries() =~= inserted(old(self).entries(), key@, value));
            Some(former.1)
        } else {
            self.entries.push((key, value));
            assert(self.entries() =~= inserted(old(self).entries(), key@, value));
            None
        }
    }

    /// Removes a key, and hands back its value.
    pub fn remove(&mut self, key: &str) -> (r: Option<V>)
        requires
            old(self).wf(),
        ensures
            final(self).wf(),
            final(self).entries() == removed(old(self).entries(), key@),
            r == lookup(old(self).entries(), key@),
    {
        proof {
            lemma_lookup_removed(self.entries(), key@, key@);
        }
        let i = self.position_of(key);
        if i < self.entries.len() {
            let former = self.entries.remove(i);
            assert(self.entries() =~= removed(old(self).entries(), key@));
            Some(former.1)
        } else {
            None
        }
    }

    /// Empties the table, and hands back its values.
    pub fn drain(&mut self) -> (r: Vec<V>)
        ensures
            final(self).wf(),
            final(self).entries() == Seq::<(Seq<char>, V)>::empty(),
            r@ == values(old(self).entries()),
    {
        let mut all: Vec<(String, V)> = Vec::new();
        std::mem::swap(&mut all, &mut self.entries);
        assert(self.entries() =~= Seq::<(Seq<char>, V)>::empty());
        let ghost source = all@;
        let mut r: Vec<V> = Vec::new();
        for entry in it: all
            invariant
                it.seq() == source,
                r@ == source.take(it.index() as int).map_values(|entry: (String, V)| entry.1),
        {
            r.push(entry.1);
            assert(r@ =~= source.take(it.index() + 1).map_values(|entry: (String, V)| entry.1));
        }
        assert(source.take(source.len() as int) =~= source);
        assert(r@ =~= values(old(self).entries()));
        r
    }
}

} // verus!
