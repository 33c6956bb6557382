//! Finding an entry by its id or by its name.
//!
//! Entries are kept in the order in which they were created. An id always wins over a
//! name, and of several entries with one name the oldest wins.

use vstd::prelude::*;

use crate::ident;

verus! {

/// What an entry is found by.
pub struct Key {
    pub id: Seq<char>,
    pub name: Option<Seq<char>>,
}

/// Whether an entry has the id `id`.
pub open spec fn has_id(keys: Seq<Key>, id: Seq<char>) -> bool {
    exists|i: int| 0 <= i < keys.len() && (#[trigger] keys[i]).id == id
}

/// The entry with the id `id`.
pub open spec fn id_index(keys: Seq<Key>, id: Seq<char>) -> Option<int> {
    if has_id(keys, id) {
        Some(choose|i: int| 0 <= i < keys.len() && (#[trigger] keys[i]).id == id)
    } else {
        None
    }
}

/// Whether entry `i` is the oldest one named `name`.
pub open spec fn is_first_named(keys: Seq<Key>, name: Seq<char>, i: int) -> bool {
    &&& 0 <= i < keys.len()
    &&& keys[i].name == Some(name)
    &&& forall|j: int| 0 <= j < i ==> (#[trigger] keys[j]).name != Some(name)
}

/// The oldest entry named `name`.
pub open spec fn name_index(keys: Seq<Key>, name: Seq<char>) -> Option<int> {
    if exists|i: int| is_first_named(keys, name, i) {
        Some(choose|i: int| is_first_named(keys, name, i))
    } else {
        None
    }
}

/// The entry that `id_or_name` stands for.
pub open spec fn resolved(keys: Seq<Key>, id_or_name: Seq<char>) -> Option<int> {
    match id_index(keys, id_or_name) {
        Some(i) => Some(i),
        None => name_index(keys, id_or_name),
    }
}

/// Every entry has a short id of its own.
pub open spec fn well_formed(keys: Seq<Key>) -> bool {
    &&& forall|i: int| 0 <= i < keys.len() ==> ident::is_short_id((#[trigger] keys[i]).id)
    &&& forall|i: int, j: int|
        0 <= i < keys.len() && 0 <= j < keys.len() && i != j ==> (#[trigger] keys[i]).id != (
        #[trigger] keys[j]).id
}

/// The entry found by an id is the one that has it.
pub proof fn id_index_is(keys: Seq<Key>, i: int)
    requires
        well_formed(keys),
        0 <= i < keys.len(),
    ensures
        id_index(keys, keys[i].id) == Some(i),
        resolved(keys, keys[i].id) == Some(i),
{
    assert(has_id(keys, keys[i].id));
}

/// The entry found by a name is the oldest one that has it.
pub proof fn name_index_is(keys: Seq<Key>, name: Seq<char>, i: int)
    requires
        is_first_named(keys, name, i),
    ensures
        name_index(keys, name) == Some(i),
{
    let found = choose|j: int| is_first_named(keys, name, j);
    assert(is_first_named(keys, name, found));
    if found < i {
        assert(keys[found].name != Some(name));
    } else if i < found {
        assert(keys[i].name != Some(name));
    }
}

/// What is found is there, under the id or the name that was asked for.
pub proof fn resolved_is_there(keys: Seq<Key>, id_or_name: Seq<char>)
    ensures
        resolved(keys, id_or_name) matches Some(i) ==> 0 <= i < keys.len() && (keys[i].id
            == id_or_name || keys[i].name == Some(id_or_name)),
{
    if !has_id(keys, id_or_name) && exists|i: int| is_first_named(keys, id_or_name, i) {
        let i = choose|i: int| is_first_named(keys, id_or_name, i);
        assert(is_first_named(keys, id_or_name, i));
    }
}

/// Nothing is found exactly where no entry has the id or the name.
pub proof fn unresolved_is_absent(keys: Seq<Key>, id_or_name: Seq<char>)
    ensures
        resolved(keys, id_or_name) is None <==> forall|i: int|
            0 <= i < keys.len() ==> (#[trigger] keys[i]).id != id_or_name && keys[i].name != Some(
                id_or_name,
            ),
{
    resolved_is_there(keys, id_or_name);
    if exists|i: int| 0 <= i < keys.len() && (#[trigger] keys[i]).name == Some(id_or_name) {
        let i = choose|i: int|
            0 <= i < keys.len() && (#[trigger] keys[i]).name == Some(id_or_name);
        oldest_named(keys, id_or_name, i);
    }
}

proof fn oldest_named(keys: Seq<Key>, name: Seq<char>, i: int)
    requires
        0 <= i < keys.len(),
        keys[i].name == Some(name),
    ensures
        exists|j: int| is_first_named(keys, name, j),
    decreases i,
{
    if forall|j: int| 0 <= j < i ==> (#[trigger] keys[j]).name != Some(name) {
        assert(is_first_named(keys, name, i));
    } else {
        let j = choose|j: int| 0 <= j < i && (#[trigger] keys[j]).name == Some(name);
        oldest_named(keys, name, j);
    }
}

/// A new entry is found by its id, and by its name where that stood for nothing before
/// and is not the new id.
pub proof fn added_entry_is_found(keys: Seq<Key>, key: Key)
    requires
        well_formed(keys),
        ident::is_short_id(key.id),
        !has_id(keys, key.id),
    ensures
        well_formed(keys.push(key)),
        resolved(keys.push(key), key.id) == Some(keys.len() as int),
        key.name matches Some(name) ==> resolved(keys, name) is None ==> resolved(
            keys.push(key),
            name,
        ) == Some(keys.len() as int),
{
    let more = keys.push(key);
    assert forall|i: int| 0 <= i < more.len() implies ident::is_short_id(
        (#[trigger] more[i]).id,
    ) by {
        if i < keys.len() {
            assert(more[i] == keys[i]);
        }
    }
    assert forall|i: int, j: int|
        0 <= i < more.len() && 0 <= j < more.len() && i != j implies (#[trigger] more[i]).id != (
    #[trigger] more[j]).id by {
        if i < keys.len() {
            assert(more[i] == keys[i]);
        }
        if j < keys.len() {
            assert(more[j] == keys[j]);
        }
    }
    assert(more[keys.len() as int] == key);
    id_index_is(more, keys.len() as int);
    if key.name is Some && resolved(keys, key.name->0) is None {
        let name = key.name->0;
        unresolved_is_absent(keys, name);
        assert forall|j: int| 0 <= j < keys.len() implies (#[trigger] more[j]).name != Some(
            name,
        ) by {
            assert(more[j] == keys[j]);
        }
        assert(is_first_named(more, name, keys.len() as int));
        name_index_is(more, name, keys.len() as int);
        if has_id(more, name) {
            let i = choose|i: int| 0 <= i < more.len() && (#[trigger] more[i]).id == name;
            if i < keys.len() {
                assert(more[i] == keys[i]);
            }
            id_index_is(more, i);
        }
    }
}

/// Entries that were found before a new one is added are found after it, unless the new
/// one takes over the text they were found by as its id.
pub proof fn older_entries_stay(keys: Seq<Key>, key: Key, id_or_name: Seq<char>)
    requires
        well_formed(keys),
        ident::is_short_id(key.id),
        !has_id(keys, key.id),
        resolved(keys, id_or_name) is Some,
        id_or_name != key.id,
    ensures
        resolved(keys.push(key), id_or_name) == resolved(keys, id_or_name),
{
    let more = keys.push(key);
    let i = resolved(keys, id_or_name)->0;
    resolved_is_there(keys, id_or_name);
    added_entry_is_found(keys, key);
    assert(more[i] == keys[i]);
    if has_id(keys, id_or_name) {
        id_index_is(keys, i);
        id_index_is(more, i);
    } else {
        assert(exists|j: int| is_first_named(keys, id_or_name, j));
        assert(is_first_named(keys, id_or_name, i));
        assert forall|j: int| 0 <= j < i implies (#[trigger] more[j]).name != Some(
            id_or_name,
        ) by {
            assert(more[j] == keys[j]);
        }
        assert(is_first_named(more, id_or_name, i));
        name_index_is(more, id_or_name, i);
        if has_id(more, id_or_name) {
            let j = choose|j: int| 0 <= j < more.len() && (#[trigger] more[j]).id == id_or_name;
            if j < keys.len() {
                assert(more[j] == keys[j]);
            }
        }
    }
}

/// A removed entry is no longer found by its id, unless another entry has that id as its
/// name; every other entry is still found by its own id.
pub proof fn removed_entry_is_gone(keys: Seq<Key>, i: int)
    requires
        well_formed(keys),
        0 <= i < keys.len(),
    ensures
        well_formed(keys.remove(i)),
        !has_id(keys.remove(i), keys[i].id),
        forall|j: int|
            0 <= j < keys.len() && j != i ==> resolved(
                keys.remove(i),
                (#[trigger] keys[j]).id,
            ) == Some(
                if j < i {
                    j
                } else {
                    j - 1
                },
            ),
{
    let fewer = keys.remove(i);
    assert forall|j: int| 0 <= j < fewer.len() implies (#[trigger] fewer[j]) == keys[if j < i {
        j
    } else {
        j + 1
    }] by {}
    assert(well_formed(fewer));
    assert forall|j: int| 0 <= j < keys.len() && j != i implies resolved(
        fewer,
        (#[trigger] keys[j]).id,
    ) == Some(
        if j < i {
            j
        } else {
            j - 1
        },
    ) by {
        let k = if j < i {
            j
        } else {
            j - 1
        };
        assert(fewer[k] == keys[j]);
        id_index_is(fewer, k);
    }
}

/// What an id or a name stands for: the entry that has it as its id, or else the oldest that
/// has it as its name, or else nothing.
pub proof fn what_is_resolved(keys: Seq<Key>, asked: Seq<char>)
    ensures
        match resolved(keys, asked) {
            Some(i) => {
                &&& 0 <= i < keys.len()
                &&& keys[i].id == asked || {
                    &&& keys[i].name == Some(asked)
                    &&& forall|j: int| 0 <= j < keys.len() ==> (#[trigger] keys[j]).id != asked
                    &&& forall|j: int| 0 <= j < i ==> (#[trigger] keys[j]).name != Some(asked)
                }
            },
            None => forall|j: int|
                0 <= j < keys.len() ==> (#[trigger] keys[j]).id != asked && keys[j].name != Some(
                    asked,
                ),
        },
        match id_index(keys, asked) {
            Some(i) => 0 <= i < keys.len() && keys[i].id == asked,
            None => forall|j: int| 0 <= j < keys.len() ==> (#[trigger] keys[j]).id != asked,
        },
{
    resolved_is_there(keys, asked);
    unresolved_is_absent(keys, asked);
    if !has_id(keys, asked) && exists|i: int| is_first_named(keys, asked, i) {
        let i = choose|i: int| is_first_named(keys, asked, i);
        assert(is_first_named(keys, asked, i));
    }
}

} // verus!
