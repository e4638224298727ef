//! From script values to keys.
//!
//! A key is a table whose metatable is the descriptor, by identity: a table
//! that merely has a `keyid` field is none. The descriptor is found once,
//! when the interpreter is prepared, and handed to every function here; a
//! table that a script puts under the descriptor's name later marks nothing.
//!
//! The functions here ask the interpreter and decide. What the interpreter
//! answers is its own to say, and may differ from one call to the next. So a
//! contract says of a result which questions were asked, with which
//! arguments, and what the result is for every answer that came back: `x_asked`
//! holds of an answer that the interpreter gave to the question, and
//! `call_ensures` of a result that a function of this library gave.
use crate::error::{DescriptorError, Fault};
use crate::key::Key;
use crate::script::{
    as_table, globals, is_table_of, lives_in, metatable_of, next_entry, raw_get_string,
    raw_get_table, same_table, same_tables, start_walk, value_table,
};
use vstd::prelude::*;

verus! {

/// The global name under which the prelude leaves the descriptor of keys.
pub const KEY_TYPE: &'static str = "Key";

/// The field of the descriptor that has to hold the descriptor itself.
pub const INDEX_FIELD: &'static str = "__index";

/// The field of a key that holds its identifier.
pub const KEYID_FIELD: &'static str = "keyid";

/// The interpreter was asked for the metatable of `table`, and `found` came
/// back.
pub closed spec fn metatable_asked(
    lua: mlua::Lua,
    table: mlua::Table,
    found: Option<mlua::Table>,
) -> bool {
    call_ensures(metatable_of, (&lua, &table), found)
}

/// The interpreter was asked for the table that its globals themselves hold
/// under `name`, and `found` came back.
pub closed spec fn global_asked(
    lua: mlua::Lua,
    name: &str,
    found: Result<mlua::Table, mlua::Error>,
) -> bool {
    exists|all: mlua::Table|
        call_ensures(globals, (&lua,), all) && #[trigger] call_ensures(
            raw_get_table,
            (&lua, &all, name),
            found,
        )
}

/// The interpreter was asked for the table that `table` itself holds under
/// [`INDEX_FIELD`], and `found` came back.
pub closed spec fn index_asked(
    lua: mlua::Lua,
    table: mlua::Table,
    found: Result<mlua::Table, mlua::Error>,
) -> bool {
    call_ensures(raw_get_table, (&lua, &table, INDEX_FIELD), found)
}

/// The interpreter was asked for the text that `table` itself holds under
/// [`KEYID_FIELD`], and `found` came back.
pub closed spec fn keyid_asked(
    lua: mlua::Lua,
    table: mlua::Table,
    found: Result<String, mlua::Error>,
) -> bool {
    call_ensures(raw_get_string, (&lua, &table, KEYID_FIELD), found)
}

/// The interpreter was asked to begin a walk over `table`, and `walk` came
/// back.
pub closed spec fn walk_started<'a>(
    lua: mlua::Lua,
    table: &'a mlua::Table,
    walk: mlua::TablePairs<'a, mlua::Value, mlua::Value>,
) -> bool {
    call_ensures(start_walk, (&lua, table), walk)
}

/// The interpreter was asked for the next entry of the walk `before`, and
/// `entry` came back, with the walk one step on, `after`.
pub closed spec fn walk_stepped<'a>(
    before: mlua::TablePairs<'a, mlua::Value, mlua::Value>,
    after: mlua::TablePairs<'a, mlua::Value, mlua::Value>,
    entry: Option<Result<mlua::Value, mlua::Error>>,
) -> bool {
    call_ensures(next_entry, (before,), (after, entry))
}

/// A walk over `table` was begun and has so far handed out `values`, one
/// after the other, and now stands at `walk`.
pub closed spec fn entries_begun<'a>(
    lua: mlua::Lua,
    table: &'a mlua::Table,
    values: Seq<mlua::Value>,
    walk: mlua::TablePairs<'a, mlua::Value, mlua::Value>,
) -> bool {
    exists|walks: Seq<mlua::TablePairs<'a, mlua::Value, mlua::Value>>| #[trigger]
        walk_begun(lua, table, values, walks) && walks.last() == walk
}

/// The states `walks` of a walk over `table` that has handed out `values`:
/// the first is the walk as it was begun, and each step from one to the next
/// handed out the value of that place.
pub closed spec fn walk_begun<'a>(
    lua: mlua::Lua,
    table: &'a mlua::Table,
    values: Seq<mlua::Value>,
    walks: Seq<mlua::TablePairs<'a, mlua::Value, mlua::Value>>,
) -> bool {
    &&& walks.len() == values.len() + 1
    &&& walk_started(lua, table, walks[0])
    &&& forall|i: int|
        0 <= i < values.len() ==> walk_stepped(
            walks[i],
            walks[i + 1],
            Some(Ok(#[trigger] values[i])),
        )
}

/// What a walk hands out at its end: nothing, or the interpreter's refusal.
pub open spec fn walk_end(refusal: Option<mlua::Error>) -> Option<
    Result<mlua::Value, mlua::Error>,
> {
    match refusal {
        Some(error) => Some(Err(error)),
        None => None,
    }
}

/// The interpreter was asked to walk `table` to its end and handed out
/// `values`, one after the other, and then ended the walk: with nothing
/// more, or with `refusal`.
pub closed spec fn entries_asked(
    lua: mlua::Lua,
    table: mlua::Table,
    values: Seq<mlua::Value>,
    refusal: Option<mlua::Error>,
) -> bool {
    exists|
        walk: mlua::TablePairs<'_, mlua::Value, mlua::Value>,
        after: mlua::TablePairs<'_, mlua::Value, mlua::Value>,
    |
        entries_begun(lua, &table, values, walk) && #[trigger] walk_stepped(
            walk,
            after,
            walk_end(refusal),
        )
}

/// A walk over `table` has handed out as many values as can be counted, and
/// has not ended.
pub closed spec fn entries_uncounted(lua: mlua::Lua, table: mlua::Table) -> bool {
    exists|values: Seq<mlua::Value>, walk: mlua::TablePairs<'_, mlua::Value, mlua::Value>|
        #[trigger] entries_begun(lua, &table, values, walk) && values.len() == usize::MAX
}

/// `a` and `b` are one and the same table of `lua`.
pub open spec fn identical(lua: mlua::Lua, a: mlua::Table, b: mlua::Table) -> bool {
    lives_in(lua, a) && lives_in(lua, b) && same_tables(a, b)
}

/// Whether `a` and `b` are one and the same table of `lua`. Handles of another
/// interpreter are never the same table as one of `lua`.
pub fn same_object(lua: &mlua::Lua, a: &mlua::Table, b: &mlua::Table) -> (same: bool)
    ensures
        same == identical(*lua, *a, *b),
{
    is_table_of(lua, a) && is_table_of(lua, b) && same_table(lua, a, b)
}

/// A table whose metatable was found to be `found` carries `descriptor`: it
/// has a metatable, and that is the descriptor itself.
pub open spec fn carries(
    lua: mlua::Lua,
    found: Option<mlua::Table>,
    descriptor: mlua::Table,
) -> bool {
    match found {
        Some(metatable) => identical(lua, metatable, descriptor),
        None => false,
    }
}

/// Decides from the metatable that was found on a table whether the table
/// carries `descriptor`. Nothing else of the table is looked at.
pub fn carries_marker(
    lua: &mlua::Lua,
    found: &Option<mlua::Table>,
    descriptor: &mlua::Table,
) -> (marked: bool)
    ensures
        marked == carries(*lua, *found, *descriptor),
{
    match found {
        Some(metatable) => same_object(lua, metatable, descriptor),
        None => false,
    }
}

/// Whether `metatable` is, at this moment, the metatable of `table`: for a
/// table of `lua`, what [`carries_marker`] says of the metatable that the
/// interpreter gave for it; for any other table, no.
pub fn is_metatable(lua: &mlua::Lua, table: &mlua::Table, metatable: &mlua::Table) -> (marked: bool)
    ensures
        marked ==> lives_in(*lua, *table) && lives_in(*lua, *metatable),
        lives_in(*lua, *table) ==> exists|found: Option<mlua::Table>| #[trigger]
            metatable_asked(*lua, *table, found) && marked == carries(*lua, found, *metatable),
{
    if !is_table_of(lua, table) {
        return false;
    }
    let found = metatable_of(lua, table);
    assert(metatable_asked(*lua, *table, found));
    carries_marker(lua, &found, metatable)
}

/// What a candidate descriptor is worth, given what its own `__index` field
/// was found to hold: it is the descriptor where that is the candidate itself.
pub open spec fn descriptor_checked(
    lua: mlua::Lua,
    candidate: mlua::Table,
    index: Result<mlua::Table, mlua::Error>,
) -> Result<(), DescriptorError> {
    match index {
        Ok(index) => if identical(lua, index, candidate) {
            Ok(())
        } else {
            Err(DescriptorError::NotSelfReferential)
        },
        Err(_) => Err(DescriptorError::NoIndex),
    }
}

/// Accepts `candidate` as a descriptor if and only if its `__index` field,
/// found to hold `index`, is the candidate itself.
pub fn check_descriptor(
    lua: &mlua::Lua,
    candidate: &mlua::Table,
    index: Result<mlua::Table, mlua::Error>,
) -> (checked: Result<(), DescriptorError>)
    ensures
        checked == descriptor_checked(*lua, *candidate, index),
{
    match index {
        Ok(index) => {
            if same_object(lua, &index, candidate) {
                Ok(())
            } else {
                Err(DescriptorError::NotSelfReferential)
            }
        },
        Err(_) => Err(DescriptorError::NoIndex),
    }
}

/// Whether `descriptor` is, at this moment, a descriptor: a table of `lua`
/// that is its own `__index`. For a table of `lua` it is what
/// [`check_descriptor`] says of the `__index` that the interpreter gave.
pub fn confirm_descriptor(lua: &mlua::Lua, descriptor: &mlua::Table) -> (confirmed: Result<
    (),
    DescriptorError,
>)
    ensures
        !lives_in(*lua, *descriptor) ==> confirmed == Err::<(), DescriptorError>(
            DescriptorError::Foreign,
        ),
        lives_in(*lua, *descriptor) ==> exists|index: Result<mlua::Table, mlua::Error>| #[trigger]
            index_asked(*lua, *descriptor, index) && confirmed == descriptor_checked(
                *lua,
                *descriptor,
                index,
            ),
{
    if !is_table_of(lua, descriptor) {
        return Err(DescriptorError::Foreign);
    }
    let index = raw_get_table(lua, descriptor, INDEX_FIELD);
    assert(index_asked(*lua, *descriptor, index));
    check_descriptor(lua, descriptor, index)
}

/// What [`expect_metatable`] returns for a table that the globals hold: the
/// table, where [`confirm_descriptor`] accepted it, else its fault.
pub open spec fn candidate_confirmed(
    lua: mlua::Lua,
    candidate: mlua::Table,
    found: Result<mlua::Table, DescriptorError>,
) -> bool {
    exists|confirmed: Result<(), DescriptorError>| #[trigger]
        call_ensures(confirm_descriptor, (&lua, &candidate), confirmed) && match confirmed {
            Ok(_) => found == Ok::<mlua::Table, DescriptorError>(candidate),
            Err(fault) => found == Err::<mlua::Table, DescriptorError>(fault),
        }
}

/// What [`expect_metatable`] returns of what came back: the descriptor is
/// missing where the globals hold no table under `name`; else the table is
/// confirmed.
pub open spec fn descriptor_found(
    lua: mlua::Lua,
    name: &str,
    found: Result<mlua::Table, DescriptorError>,
) -> bool {
    exists|candidate: Result<mlua::Table, mlua::Error>| #[trigger]
        global_asked(lua, name, candidate) && match candidate {
            Ok(table) => candidate_confirmed(lua, table, found),
            Err(_) => found == Err::<mlua::Table, DescriptorError>(DescriptorError::Missing),
        }
}

/// The descriptor that the globals hold under `name`: the table found there,
/// confirmed by [`confirm_descriptor`].
pub fn expect_metatable(
    lua: &mlua::Lua,
    name: &str,
) -> (found: Result<mlua::Table, DescriptorError>)
    ensures
        found matches Ok(descriptor) ==> lives_in(*lua, descriptor),
        descriptor_found(*lua, name, found),
{
    let globals = globals(lua);
    let candidate = raw_get_table(lua, &globals, name);
    assert(global_asked(*lua, name, candidate));
    match candidate {
        Ok(table) => {
            let found = match confirm_descriptor(lua, &table) {
                Ok(()) => Ok(table),
                Err(fault) => Err(fault),
            };
            assert(candidate_confirmed(*lua, table, found));
            found
        },
        Err(_) => Err(DescriptorError::Missing),
    }
}

/// The key that a table which carries the descriptor stands for, given what
/// its `keyid` field was found to hold.
pub fn key_named(keyid: Result<String, mlua::Error>) -> (key: Result<Key, Fault>)
    ensures
        keyid matches Ok(id) ==> (key matches Ok(k) && k@ == id@),
        keyid is Err ==> key == Err::<Key, Fault>(Fault::NoKeyId),
{
    match keyid {
        Ok(id) => Ok(Key::new(id)),
        Err(_) => Err(Fault::NoKeyId),
    }
}

/// What [`parse_key`] returns for the text that a key's `keyid` was found to
/// hold.
pub open spec fn key_read(
    keyid: Result<String, mlua::Error>,
    parsed: Result<Option<Key>, Fault>,
) -> bool {
    match keyid {
        Ok(id) => parsed matches Ok(Some(key)) && key@ == id@,
        Err(_) => parsed == Err::<Option<Key>, Fault>(Fault::NoKeyId),
    }
}

/// What [`parse_key`] returns for a table that carries the descriptor: what
/// [`key_named`] makes of the `keyid` that the interpreter gave.
pub open spec fn keyid_read(
    lua: mlua::Lua,
    table: mlua::Table,
    parsed: Result<Option<Key>, Fault>,
) -> bool {
    exists|keyid: Result<String, mlua::Error>| #[trigger]
        keyid_asked(lua, table, keyid) && key_read(keyid, parsed)
}

/// What [`parse_key`] returns under a confirmed descriptor: no key where
/// [`is_metatable`] said no, else the key that was read.
pub open spec fn marker_read(
    lua: mlua::Lua,
    descriptor: mlua::Table,
    table: mlua::Table,
    parsed: Result<Option<Key>, Fault>,
) -> bool {
    exists|marked: bool| #[trigger]
        call_ensures(is_metatable, (&lua, &table, &descriptor), marked) && if marked {
            keyid_read(lua, table, parsed)
        } else {
            parsed == Ok::<Option<Key>, Fault>(None)
        }
}

/// What [`parse_key`] returns for a table of `lua`: the fault of the
/// descriptor where [`confirm_descriptor`] gave one, else what the marker
/// says.
pub open spec fn key_parsed(
    lua: mlua::Lua,
    descriptor: mlua::Table,
    table: mlua::Table,
    parsed: Result<Option<Key>, Fault>,
) -> bool {
    exists|confirmed: Result<(), DescriptorError>| #[trigger]
        call_ensures(confirm_descriptor, (&lua, &descriptor), confirmed) && match confirmed {
            Ok(_) => marker_read(lua, descriptor, table, parsed),
            Err(fault) => parsed == Err::<Option<Key>, Fault>(Fault::Descriptor(fault)),
        }
}

/// Reads `table` as a single key: `Ok(None)` where it does not carry
/// `descriptor`, the key where it does. The descriptor is confirmed first,
/// and a descriptor that is none ends the call with its fault.
pub fn parse_key(lua: &mlua::Lua, descriptor: &mlua::Table, table: &mlua::Table) -> (parsed: Result<
    Option<Key>,
    Fault,
>)
    ensures
        parsed == Err::<Option<Key>, Fault>(Fault::Foreign) <==> !lives_in(*lua, *table),
        parsed matches Err(fault) ==> fault is Foreign || fault is Descriptor || fault is NoKeyId,
        lives_in(*lua, *table) ==> key_parsed(*lua, *descriptor, *table, parsed),
{
    if !is_table_of(lua, table) {
        return Err(Fault::Foreign);
    }
    if let Err(fault) = confirm_descriptor(lua, descriptor) {
        return Err(Fault::Descriptor(fault));
    }
    if !is_metatable(lua, table, descriptor) {
        let parsed = Ok(None);
        assert(marker_read(*lua, *descriptor, *table, parsed));
        return parsed;
    }
    let keyid = raw_get_string(lua, table, KEYID_FIELD);
    assert(keyid_asked(*lua, *table, keyid));
    let parsed = match key_named(keyid) {
        Ok(key) => Ok(Some(key)),
        Err(fault) => Err(fault),
    };
    assert(key_read(keyid, parsed));
    assert(keyid_read(*lua, *table, parsed));
    assert(marker_read(*lua, *descriptor, *table, parsed));
    parsed
}

/// The read found a key.
pub open spec fn is_key_read(read: Result<Option<Key>, Fault>) -> bool {
    read matches Ok(Some(_))
}

/// What the element at `index` of a list contributes, given how it was read
/// as a single key: its key, or the reason why the whole list is refused. An
/// element that is no key names its place.
pub open spec fn element_checked(
    index: usize,
    read: Result<Option<Key>, Fault>,
) -> Result<Key, Fault> {
    match read {
        Ok(Some(key)) => Ok(key),
        Ok(None) => Err(Fault::NotAKey { index }),
        Err(fault) => Err(fault),
    }
}

/// The read at `index` is the first that found no key.
pub open spec fn first_stranger(reads: Seq<Result<Option<Key>, Fault>>, index: int) -> bool {
    &&& 0 <= index < reads.len()
    &&& !is_key_read(reads[index])
    &&& forall|j: int| 0 <= j < index ==> is_key_read(#[trigger] reads[j])
}

/// Makes a list of keys of how its elements were read, one read for each
/// element in order: all the keys, in the order of the elements, where every
/// read found a key; else what the first read that found none says, and no
/// key at all.
pub fn gather_keys(reads: &Vec<Result<Option<Key>, Fault>>) -> (keys: Result<Vec<Key>, Fault>)
    ensures
        keys matches Ok(found) ==> found@.len() == reads@.len() && forall|i: int|
            #![trigger reads@[i]]
            #![trigger found@[i]]
            0 <= i < reads@.len() ==> reads@[i] == Ok::<Option<Key>, Fault>(Some(found@[i])),
        keys matches Err(fault) ==> exists|i: int| #[trigger]
            first_stranger(reads@, i) && element_checked(i as usize, reads@[i]) == Err::<
                Key,
                Fault,
            >(fault),
{
    let mut found: Vec<Key> = Vec::new();
    let mut i: usize = 0;
    while i < reads.len()
        invariant
            i <= reads@.len(),
            found@.len() == i,
            forall|j: int|
                0 <= j < i ==> #[trigger] reads@[j] == Ok::<Option<Key>, Fault>(Some(found@[j])),
        decreases reads@.len() - i,
    {
        match &reads[i] {
            Ok(Some(key)) => found.push(key.clone()),
            Ok(None) => {
                assert(first_stranger(reads@, i as int));
                return Err(Fault::NotAKey { index: i });
            },
            Err(fault) => {
                assert(first_stranger(reads@, i as int));
                return Err(*fault);
            },
        }
        i += 1;
    }
    Ok(found)
}

/// The read belongs to the value: a value that is no table of `lua` is no
/// key, and one that is was read by [`parse_key`].
pub open spec fn read_fits(
    lua: mlua::Lua,
    descriptor: mlua::Table,
    value: mlua::Value,
    read: Result<Option<Key>, Fault>,
) -> bool {
    match table_in(lua, value) {
        Ok(table) => call_ensures(parse_key, (&lua, &descriptor, &table), read),
        Err(_) => read == Ok::<Option<Key>, Fault>(None),
    }
}

/// Reads one value of a list as a single key. Any value may stand in a list;
/// only a table of `lua` can be a key.
pub fn read_value(lua: &mlua::Lua, descriptor: &mlua::Table, value: &mlua::Value) -> (read: Result<
    Option<Key>,
    Fault,
>)
    ensures
        read_fits(*lua, *descriptor, *value, read),
        read matches Err(fault) ==> fault is Descriptor || fault is NoKeyId,
{
    match expect_table(lua, value) {
        Ok(table) => parse_key(lua, descriptor, table),
        Err(_) => Ok(None),
    }
}

/// The reads belong to the values: one read for each value, in order, up to
/// and including the first that found no key.
pub open spec fn reads_fit(
    lua: mlua::Lua,
    descriptor: mlua::Table,
    values: Seq<mlua::Value>,
    reads: Seq<Result<Option<Key>, Fault>>,
) -> bool {
    &&& reads.len() <= values.len()
    &&& forall|i: int|
        0 <= i < reads.len() ==> read_fits(lua, descriptor, values[i], #[trigger] reads[i])
    &&& forall|i: int| 0 <= i < reads.len() - 1 ==> is_key_read(#[trigger] reads[i])
    &&& reads.len() < values.len() ==> reads.len() > 0 && !is_key_read(reads.last())
}

/// What [`parse_key_list`] makes of the values that a walk handed out: what
/// [`gather_keys`] makes of their reads.
pub open spec fn values_parsed(
    lua: mlua::Lua,
    descriptor: mlua::Table,
    values: Seq<mlua::Value>,
    parsed: Result<Vec<Key>, Fault>,
) -> bool {
    exists|reads: Vec<Result<Option<Key>, Fault>>|
        reads_fit(lua, descriptor, values, reads@) && #[trigger] call_ensures(
            gather_keys,
            (&reads,),
            parsed,
        )
}

/// What [`parse_key_list`] returns for a table of `lua`, of what came back:
/// the keys of the values that the interpreter handed out, all or none; or
/// no list at all, where the interpreter refused a step of the walk or did
/// not end it within what can be counted.
pub open spec fn list_parsed(
    lua: mlua::Lua,
    descriptor: mlua::Table,
    table: mlua::Table,
    parsed: Result<Vec<Key>, Fault>,
) -> bool {
    ||| exists|values: Seq<mlua::Value>, refusal: Option<mlua::Error>| #[trigger]
        entries_asked(lua, table, values, refusal) && if refusal is Some {
            parsed == Err::<Vec<Key>, Fault>(Fault::Unreadable)
        } else {
            values_parsed(lua, descriptor, values, parsed)
        }
    ||| entries_uncounted(lua, table) && parsed == Err::<Vec<Key>, Fault>(Fault::Unreadable)
}

/// Reads `table` as a list of keys: the keys of all its entries in the
/// interpreter's walk order, or the first fault. The table is walked one
/// entry at a time, and each value is read, by [`read_value`], before the
/// next is asked for; after the first value that is no key the walk goes on
/// to its end and nothing more is read. [`gather_keys`] decides.
pub fn parse_key_list(lua: &mlua::Lua, descriptor: &mlua::Table, table: &mlua::Table) -> (parsed:
    Result<Vec<Key>, Fault>)
    ensures
        parsed == Err::<Vec<Key>, Fault>(Fault::Foreign) <==> !lives_in(*lua, *table),
        parsed matches Err(fault) ==> !(fault is NotATable),
        lives_in(*lua, *table) ==> list_parsed(*lua, *descriptor, *table, parsed),
{
    if !is_table_of(lua, table) {
        return Err(Fault::Foreign);
    }
    let mut walk = start_walk(lua, table);
    let ghost mut walks = seq![walk];
    let ghost mut values = Seq::<mlua::Value>::empty();
    let mut reads: Vec<Result<Option<Key>, Fault>> = Vec::new();
    let mut reading = true;
    let mut index: usize = 0;
    while index < usize::MAX
        invariant
            lives_in(*lua, *table),
            values.len() == index,
            walks.last() == walk,
            walk_begun(*lua, table, values, walks),
            reads_fit(*lua, *descriptor, values, reads@),
            forall|i: int|
                0 <= i < reads@.len() ==> (#[trigger] reads@[i] matches Err(fault)
                    ==> fault is Descriptor || fault is NoKeyId),
            reading ==> reads@.len() == index && (index > 0 ==> is_key_read(reads@.last())),
            !reading ==> reads@.len() > 0 && !is_key_read(reads@.last()),
        decreases usize::MAX - index,
    {
        let ghost before = walk;
        let (next, entry) = next_entry(walk);
        walk = next;
        assert(walk_stepped(before, next, entry));
        assert(entries_begun(*lua, table, values, before));
        match entry {
            None => {
                assert(entries_asked(*lua, *table, values, None));
                let parsed = gather_keys(&reads);
                assert(values_parsed(*lua, *descriptor, values, parsed));
                proof {
                    lemma_gathered_fault(reads@, parsed);
                }
                return parsed;
            },
            Some(Err(error)) => {
                assert(entries_asked(*lua, *table, values, Some(error)));
                return Err(Fault::Unreadable);
            },
            Some(Ok(value)) => {
                if reading {
                    let read = read_value(lua, descriptor, &value);
                    reading =
                    match &read {
                        Ok(Some(_)) => true,
                        _ => false,
                    };
                    reads.push(read);
                }
                proof {
                    let ghost earlier = values;
                    values = values.push(value);
                    walks = walks.push(next);
                    assert forall|i: int| 0 <= i < values.len() implies walk_stepped(
                        walks[i],
                        walks[i + 1],
                        Some(Ok(#[trigger] values[i])),
                    ) by {
                        if i < earlier.len() {
                            assert(values[i] == earlier[i]);
                        }
                    }
                }
                index += 1;
            },
        }
    }
    assert(entries_begun(*lua, table, values, walk));
    assert(entries_uncounted(*lua, *table));
    Err(Fault::Unreadable)
}

/// A fault that [`gather_keys`] returns is the fault of one of the reads, or
/// names a read that found nothing.
pub proof fn lemma_gathered_fault(
    reads: Seq<Result<Option<Key>, Fault>>,
    parsed: Result<Vec<Key>, Fault>,
)
    requires
        parsed matches Err(fault) ==> exists|i: int| #[trigger]
            first_stranger(reads, i) && element_checked(i as usize, reads[i]) == Err::<
                Key,
                Fault,
            >(fault),
    ensures
        parsed matches Err(fault) ==> fault is NotAKey || exists|i: int|
            0 <= i < reads.len() && #[trigger] reads[i] == Err::<Option<Key>, Fault>(fault),
{
}

/// The table that `value` has to be where a list is asked for.
pub open spec fn table_in(lua: mlua::Lua, value: mlua::Value) -> Result<mlua::Table, Fault> {
    match value_table(value) {
        Some(table) => if lives_in(lua, table) {
            Ok(table)
        } else {
            Err(Fault::Foreign)
        },
        None => Err(Fault::NotATable),
    }
}

/// The table inside `value`, where `value` is a table of `lua`.
pub fn expect_table<'a>(
    lua: &mlua::Lua,
    value: &'a mlua::Value,
) -> (found: Result<&'a mlua::Table, Fault>)
    ensures
        found matches Ok(table) ==> table_in(*lua, *value) == Ok::<mlua::Table, Fault>(*table),
        found matches Err(fault) ==> table_in(*lua, *value) == Err::<mlua::Table, Fault>(fault),
{
    match as_table(value) {
        Some(table) => {
            if is_table_of(lua, table) {
                Ok(table)
            } else {
                Err(Fault::Foreign)
            }
        },
        None => Err(Fault::NotATable),
    }
}

} // verus!
