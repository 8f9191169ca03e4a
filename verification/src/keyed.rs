//! Keyed sequences: ordered lists of `(name, value)` bindings in which the
//! first binding of a name is the one that counts.
//!
//! Every name-indexed table of this crate (object fields, hash parameters,
//! runtime partials, registered templates, local variables) is modelled as
//! such a sequence, so the few facts proved here are shared by all of them.

use vstd::prelude::*;

verus! {

/// The names of a table of bindings, in order.
pub open spec fn names<V>(entries: Seq<(String, V)>) -> Seq<Seq<char>> {
    Seq::new(entries.len(), |i: int| entries[i].0@)
}

/// The names of a keyed sequence, in order.
pub open spec fn keys<V>(entries: Seq<(Seq<char>, V)>) -> Seq<Seq<char>> {
    Seq::new(entries.len(), |i: int| entries[i].0)
}

/// A table of bindings with each name replaced by its characters.
pub open spec fn keyed<V>(entries: Seq<(String, V)>) -> Seq<(Seq<char>, V)> {
    Seq::new(entries.len(), |i: int| (entries[i].0@, entries[i].1))
}

/// Index of the first occurrence of `key` among `keys`, if it occurs.
pub open spec fn position(keys: Seq<Seq<char>>, key: Seq<char>) -> Option<int>
    decreases keys.len(),
{
    if keys.len() == 0 {
        None
    } else if keys[0] == key {
        Some(0)
    } else {
        match position(keys.drop_first(), key) {
            Some(i) => Some(i + 1),
            None => None,
        }
    }
}

/// The value bound to `key`: that of its first binding.
pub open spec fn lookup<V>(entries: Seq<(Seq<char>, V)>, key: Seq<char>) -> Option<V> {
    match position(keys(entries), key) {
        Some(i) => Some(entries[i].1),
        None => None,
    }
}

/// `entries` with `key` bound to `value`: the first binding of `key` is
/// replaced where there is one, otherwise a binding is appended.
pub open spec fn put<V>(entries: Seq<(Seq<char>, V)>, key: Seq<char>, value: V) -> Seq<
    (Seq<char>, V),
> {
    match position(keys(entries), key) {
        Some(i) => entries.update(i, (key, value)),
        None => entries.push((key, value)),
    }
}

/// `entries` shadowed by `more`: every binding of `more` is put into
/// `entries`, in order.
pub open spec fn put_all<V>(entries: Seq<(Seq<char>, V)>, more: Seq<(Seq<char>, V)>) -> Seq<
    (Seq<char>, V),
>
    decreases more.len(),
{
    if more.len() == 0 {
        entries
    } else {
        put(put_all(entries, more.drop_last()), more.last().0, more.last().1)
    }
}

/// No name occurs twice.
pub open spec fn distinct(keys: Seq<Seq<char>>) -> bool {
    forall|i: int, j: int| 0 <= i < j < keys.len() ==> keys[i] != keys[j]
}

/// `position` finds `key` exactly where it first occurs.
pub proof fn lemma_position_found(keys: Seq<Seq<char>>, key: Seq<char>, i: int)
    requires
        0 <= i < keys.len(),
        keys[i] == key,
        forall|j: int| 0 <= j < i ==> keys[j] != key,
    ensures
        position(keys, key) == Some(i),
    decreases keys.len(),
{
    if i > 0 {
        let rest = keys.drop_first();
        assert forall|j: int| 0 <= j < i - 1 implies rest[j] != key by {
            assert(rest[j] == keys[j + 1]);
        }
        lemma_position_found(rest, key, i - 1);
    }
}

/// `position` finds nothing where `key` does not occur.
pub proof fn lemma_position_absent(keys: Seq<Seq<char>>, key: Seq<char>)
    requires
        forall|j: int| 0 <= j < keys.len() ==> keys[j] != key,
    ensures
        position(keys, key) is None,
    decreases keys.len(),
{
    if keys.len() > 0 {
        let rest = keys.drop_first();
        assert forall|j: int| 0 <= j < rest.len() implies rest[j] != key by {
            assert(rest[j] == keys[j + 1]);
        }
        lemma_position_absent(rest, key);
    }
}

/// What `position` returns is the first occurrence, and `None` means that
/// there is none.
pub proof fn lemma_position_is_first(keys: Seq<Seq<char>>, key: Seq<char>)
    ensures
        match position(keys, key) {
            Some(i) => 0 <= i < keys.len() && keys[i] == key && forall|j: int|
                0 <= j < i ==> keys[j] != key,
            None => forall|j: int| 0 <= j < keys.len() ==> keys[j] != key,
        },
    decreases keys.len(),
{
    if keys.len() > 0 && keys[0] != key {
        let rest = keys.drop_first();
        lemma_position_is_first(rest, key);
        match position(rest, key) {
            Some(i) => {
                assert(keys[i + 1] == rest[i]);
                assert forall|j: int| 0 <= j < i + 1 implies keys[j] != key by {
                    if j > 0 {
                        assert(keys[j] == rest[j - 1]);
                    }
                }
            },
            None => {
                assert forall|j: int| 0 <= j < keys.len() implies keys[j] != key by {
                    if j > 0 {
                        assert(keys[j] == rest[j - 1]);
                    }
                }
            },
        }
    }
}

/// After `put`, `key` is bound to `value` and every other name is bound as
/// before.
pub proof fn lemma_lookup_put<V>(
    entries: Seq<(Seq<char>, V)>,
    key: Seq<char>,
    value: V,
    other: Seq<char>,
)
    ensures
        lookup(put(entries, key, value), other) == if other == key {
            Some(value)
        } else {
            lookup(entries, other)
        },
{
    let before = keys(entries);
    let after = keys(put(entries, key, value));
    lemma_position_is_first(before, key);
    lemma_position_is_first(before, other);
    match position(before, key) {
        Some(i) => {
            assert(after =~= before);
        },
        None => {
            assert(after =~= before.push(key));
            if other == key {
                lemma_position_found(after, key, entries.len() as int);
            } else {
                match position(before, other) {
                    Some(j) => {
                        lemma_position_found(after, other, j);
                    },
                    None => {
                        lemma_position_absent(after, other);
                    },
                }
            }
        },
    }
}

/// `put` keeps the names distinct.
pub proof fn lemma_put_distinct<V>(entries: Seq<(Seq<char>, V)>, key: Seq<char>, value: V)
    requires
        distinct(keys(entries)),
    ensures
        distinct(keys(put(entries, key, value))),
{
    let before = keys(entries);
    let after = keys(put(entries, key, value));
    lemma_position_is_first(before, key);
    match position(before, key) {
        Some(i) => {
            assert(after =~= before);
        },
        None => {
            assert(after =~= before.push(key));
        },
    }
}

/// With one more name at the end, a name is found where it was found
/// before, and the new name at the end where it did not occur.
pub proof fn lemma_position_push(keys: Seq<Seq<char>>, last: Seq<char>, key: Seq<char>)
    ensures
        position(keys.push(last), key) == match position(keys, key) {
            Some(i) => Some(i),
            None => if last == key {
                Some(keys.len() as int)
            } else {
                None
            },
        },
{
    lemma_position_is_first(keys, key);
    match position(keys, key) {
        Some(i) => {
            lemma_position_found(keys.push(last), key, i);
        },
        None => {
            if last == key {
                lemma_position_found(keys.push(last), key, keys.len() as int);
            } else {
                lemma_position_absent(keys.push(last), key);
            }
        },
    }
}

/// In `put_all(entries, more)` a name is bound as in `more` where `more`
/// binds it, and as in `entries` where it does not. This is said of a `more`
/// that binds no name twice; of two bindings of a name the later one would
/// stay.
pub proof fn lemma_lookup_put_all<V>(
    entries: Seq<(Seq<char>, V)>,
    more: Seq<(Seq<char>, V)>,
    key: Seq<char>,
)
    requires
        distinct(keys(more)),
    ensures
        lookup(put_all(entries, more), key) == match lookup(more, key) {
            Some(v) => Some(v),
            None => lookup(entries, key),
        },
    decreases more.len(),
{
    if more.len() > 0 {
        let init = more.drop_last();
        let last = more.last();
        assert(keys(init) =~= keys(more).drop_last());
        assert(keys(more) =~= keys(init).push(last.0));
        lemma_lookup_put_all(entries, init, key);
        lemma_lookup_put(put_all(entries, init), last.0, last.1, key);
        lemma_position_push(keys(init), last.0, key);
        lemma_position_is_first(keys(init), key);
        match position(keys(init), key) {
            Some(i) => {
                assert(keys(more)[i] == key);
                assert(keys(more)[more.len() - 1] == last.0);
                assert(init[i] == more[i]);
            },
            None => {},
        }
    }
}

/// `put_all` keeps the names distinct.
pub proof fn lemma_put_all_distinct<V>(entries: Seq<(Seq<char>, V)>, more: Seq<(Seq<char>, V)>)
    requires
        distinct(keys(entries)),
    ensures
        distinct(keys(put_all(entries, more))),
    decreases more.len(),
{
    if more.len() > 0 {
        lemma_put_all_distinct(entries, more.drop_last());
        lemma_put_distinct(put_all(entries, more.drop_last()), more.last().0, more.last().1);
    }
}

/// Index of the first binding of `key` in a table, if it has one.
pub fn find<V>(entries: &Vec<(String, V)>, key: &String) -> (res: Option<usize>)
    ensures
        match res {
            Some(i) => position(names(entries@), key@) == Some(i as int) && i < entries.len(),
            None => position(names(entries@), key@) is None,
        },
{
    let mut i: usize = 0;
    while i < entries.len()
        invariant
            i <= entries.len(),
            forall|j: int| 0 <= j < i ==> names(entries@)[j] != key@,
        decreases entries.len() - i,
    {
        if entries[i].0 == *key {
            proof {
                lemma_position_found(names(entries@), key@, i as int);
            }
            return Some(i);
        }
        i += 1;
    }
    proof {
        lemma_position_absent(names(entries@), key@);
    }
    None
}

/// Binds `key` to `value` in a table: the first binding of `key` is replaced
/// where there is one, otherwise a binding is appended.
pub fn bind<V>(entries: &mut Vec<(String, V)>, key: String, value: V)
    ensures
        match position(names(old(entries)@), key@) {
            Some(i) => final(entries)@ == old(entries)@.update(i, (key, value)),
            None => final(entries)@ == old(entries)@.push((key, value)),
        },
        keyed(final(entries)@) == put(keyed(old(entries)@), key@, value),
{
    proof {
        assert(keys(keyed(entries@)) =~= names(entries@));
    }
    match find(entries, &key) {
        Some(i) => {
            entries.set(i, (key, value));
            assert(keyed(entries@) =~= put(keyed(old(entries)@), key@, value));
        },
        None => {
            entries.push((key, value));
            assert(keyed(entries@) =~= put(keyed(old(entries)@), key@, value));
        },
    }
}

} // verus!
