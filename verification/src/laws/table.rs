//! Tables: what is found, put in and taken out.

use crate::table;
use vstd::prelude::*;

verus! {

/// What is found under a key is the value of the first entry with that key, and nothing
/// is found exactly where no entry has it.
pub proof fn lemma_found_is_first<V>(entries: Seq<(Seq<char>, V)>, key: Seq<char>)
    ensures
        match table::lookup(entries, key) {
            Some(value) => exists|i: int|
                {
                    &&& 0 <= i < entries.len()
                    &&& #[trigger] entries[i] == (key, value)
                    &&& forall|j: int| 0 <= j < i ==> (#[trigger] entries[j]).0 != key
                },
            None => forall|i: int| 0 <= i < entries.len() ==> (#[trigger] entries[i]).0 != key,
        },
{
    table::lemma_position(entries, key, 0);
    let at = table::position(entries, key, 0);
    if at < entries.len() {
        assert(entries[at] == (key, entries[at].1));
    }
}

/// With distinct keys, what is found under the key of an entry is its value.
pub proof fn lemma_entry_is_found<V>(entries: Seq<(Seq<char>, V)>, i: int)
    requires
        forall|a: int, b: int|
            0 <= a < b < entries.len() ==> (#[trigger] entries[a]).0 != (#[trigger] entries[b]).0,
        0 <= i < entries.len(),
    ensures
        table::lookup(entries, entries[i].0) == Some(entries[i].1),
{
    table::lemma_position(entries, entries[i].0, 0);
    let at = table::position(entries, entries[i].0, 0);
    if at < i {
        assert(entries[at].0 != entries[i].0);
    }
}

/// What is put under a key that is there takes the place of its value and leaves the
/// rest; what is put under a new key comes last.
pub proof fn lemma_put_in<V>(entries: Seq<(Seq<char>, V)>, key: Seq<char>, value: V, i: int)
    requires
        forall|a: int, b: int|
            0 <= a < b < entries.len() ==> (#[trigger] entries[a]).0 != (#[trigger] entries[b]).0,
    ensures
        0 <= i < entries.len() && entries[i].0 == key ==> table::inserted(entries, key, value)
            == entries.update(i, (key, value)),
        (forall|j: int| 0 <= j < entries.len() ==> (#[trigger] entries[j]).0 != key)
            ==> table::inserted(entries, key, value) == entries.push((key, value)),
{
    table::lemma_position(entries, key, 0);
    let at = table::position(entries, key, 0);
    if 0 <= i < entries.len() && entries[i].0 == key {
        if at < i {
            assert(entries[at].0 != entries[i].0);
        }
    }
}

/// What is taken out is the entry with the key, and the rest stays as it is.
pub proof fn lemma_taken_out<V>(entries: Seq<(Seq<char>, V)>, key: Seq<char>, i: int)
    requires
        forall|a: int, b: int|
            0 <= a < b < entries.len() ==> (#[trigger] entries[a]).0 != (#[trigger] entries[b]).0,
    ensures
        0 <= i < entries.len() && entries[i].0 == key ==> table::removed(entries, key)
            == entries.remove(i),
        (forall|j: int| 0 <= j < entries.len() ==> (#[trigger] entries[j]).0 != key)
            ==> table::removed(entries, key) == entries,
{
    table::lemma_position(entries, key, 0);
    let at = table::position(entries, key, 0);
    if 0 <= i < entries.len() && entries[i].0 == key {
        if at < i {
            assert(entries[at].0 != entries[i].0);
        }
    }
}

/// The values are those of the entries, in their order.
pub proof fn lemma_values_in_order<V>(entries: Seq<(Seq<char>, V)>)
    ensures
        table::values(entries).len() == entries.len(),
        forall|i: int|
            0 <= i < entries.len() ==> #[trigger] table::values(entries)[i] == entries[i].1,
{
}

} // verus!
