//! What holds of the library as a whole, proved from the contracts.
//!
//! A law about a function that asks the interpreter takes what the
//! interpreter may answer as its premise: "whatever is given for the
//! metatable of this table is not the descriptor". Which answers an
//! interpreter gives is not proved here.
use crate::bind::{bound, keys_classified};
use crate::binding::{expansion, BindingView, KeyArg};
use crate::error::{Argument, BindError, Fault};
use crate::key::{key_ids, Key};
use crate::parse::{
    carries, descriptor_checked, entries_asked, entries_uncounted, gather_keys, index_asked,
    is_key_read, keyid_asked, list_parsed, metatable_asked, parse_key, parse_key_list, read_fits,
    reads_fit, table_in,
};
use crate::script::{lives_in, same_tables};
use vstd::prelude::*;

verus! {

/// Only the descriptor makes a key. A table whose metatable is the
/// descriptor itself is taken for a key; a table without a metatable, or with
/// any other table for its metatable, is not, whatever fields it has: no
/// field of the table takes part in the decision.
pub proof fn law_only_the_descriptor_marks_a_key(
    lua: mlua::Lua,
    found: Option<mlua::Table>,
    descriptor: mlua::Table,
)
    ensures
        found == Some(descriptor) && lives_in(lua, descriptor) ==> carries(lua, found, descriptor),
        found is None ==> !carries(lua, found, descriptor),
        found matches Some(other) && !same_tables(other, descriptor) ==> !carries(
            lua,
            found,
            descriptor,
        ),
{
}

/// One call declares one binding for each key, in the order of the keys,
/// every one with the call's modifiers and command.
pub proof fn law_one_binding_per_key(
    held: Seq<Seq<char>>,
    targets: Seq<Seq<char>>,
    command: mlua::Value,
)
    ensures
        expansion(held, targets, command).len() == targets.len(),
        forall|i: int|
            0 <= i < targets.len() ==> #[trigger] expansion(held, targets, command)[i]
                == (BindingView { modifiers: held, key: targets[i], command }),
{
}

/// The registry keeps the order of the calls. After two calls, one after the
/// other, it holds what it held before, then the bindings of the first call,
/// then those of the second, each call's bindings in the order of its keys.
pub proof fn law_registry_keeps_call_order(
    before: Seq<BindingView>,
    held1: Seq<Seq<char>>,
    targets1: Seq<Seq<char>>,
    command1: mlua::Value,
    held2: Seq<Seq<char>>,
    targets2: Seq<Seq<char>>,
    command2: mlua::Value,
) -> (after: Seq<BindingView>)
    ensures
        after == before + expansion(held1, targets1, command1) + expansion(
            held2,
            targets2,
            command2,
        ),
        after.len() == before.len() + targets1.len() + targets2.len(),
        forall|i: int| 0 <= i < before.len() ==> #[trigger] after[i] == before[i],
        forall|i: int|
            0 <= i < targets1.len() ==> #[trigger] after[before.len() + i] == (BindingView {
                modifiers: held1,
                key: targets1[i],
                command: command1,
            }),
        forall|i: int|
            0 <= i < targets2.len() ==> #[trigger] after[before.len() + targets1.len() + i]
                == (BindingView { modifiers: held2, key: targets2[i], command: command2 }),
{
    before + expansion(held1, targets1, command1) + expansion(held2, targets2, command2)
}

/// A table that does not carry the descriptor is never read as a key. It is
/// enough that whatever the interpreter gives for the table's metatable is
/// not the descriptor itself: no metatable at all, a copy of the descriptor,
/// a table that only leads to the descriptor, another marker. No field of
/// the table is asked for.
pub proof fn law_unmarked_table_is_no_key(
    lua: mlua::Lua,
    descriptor: mlua::Table,
    table: mlua::Table,
    parsed: Result<Option<Key>, Fault>,
)
    requires
        call_ensures(parse_key, (&lua, &descriptor, &table), parsed),
        forall|found: Option<mlua::Table>| #[trigger]
            metatable_asked(lua, table, found) ==> !carries(lua, found, descriptor),
    ensures
        !(parsed matches Ok(Some(_))),
        parsed is Ok ==> parsed == Ok::<Option<Key>, Fault>(None),
{
}

/// A table that carries a sound descriptor is read as the key of its
/// identifier: where the interpreter gives the descriptor itself for the
/// table's metatable and for the descriptor's `__index`, and `text` for the
/// table's `keyid`, the key comes out, and its identifier is `text`. Two
/// tables with one identifier so give the same key.
pub proof fn law_marked_table_is_its_key(
    lua: mlua::Lua,
    descriptor: mlua::Table,
    table: mlua::Table,
    text: Seq<char>,
    parsed: Result<Option<Key>, Fault>,
)
    requires
        call_ensures(parse_key, (&lua, &descriptor, &table), parsed),
        lives_in(lua, table),
        lives_in(lua, descriptor),
        forall|index: Result<mlua::Table, mlua::Error>| #[trigger]
            index_asked(lua, descriptor, index) ==> descriptor_checked(lua, descriptor, index)
                is Ok,
        forall|found: Option<mlua::Table>| #[trigger]
            metatable_asked(lua, table, found) ==> carries(lua, found, descriptor),
        forall|keyid: Result<String, mlua::Error>| #[trigger]
            keyid_asked(lua, table, keyid) ==> (keyid matches Ok(id) && id@ == text),
    ensures
        parsed matches Ok(Some(key)) && key@ == text,
{
}

/// Under a descriptor that is no longer its own `__index`, no table is read
/// as a key, and none as no key: every read ends in the descriptor's fault.
pub proof fn law_unsound_descriptor_is_a_fault(
    lua: mlua::Lua,
    descriptor: mlua::Table,
    table: mlua::Table,
    parsed: Result<Option<Key>, Fault>,
)
    requires
        call_ensures(parse_key, (&lua, &descriptor, &table), parsed),
        lives_in(lua, table),
        forall|index: Result<mlua::Table, mlua::Error>| #[trigger]
            index_asked(lua, descriptor, index) ==> descriptor_checked(lua, descriptor, index)
                is Err,
    ensures
        parsed matches Err(fault) && fault is Descriptor,
{
}

/// What the interpreter hands out when it walks `table`: the values `given`,
/// in this order, and then the end of the walk.
pub open spec fn walked_as(lua: mlua::Lua, table: mlua::Table, given: Seq<mlua::Value>) -> bool {
    &&& !entries_uncounted(lua, table)
    &&& forall|values: Seq<mlua::Value>, refusal: Option<mlua::Error>| #[trigger]
        entries_asked(lua, table, values, refusal) ==> values == given && refusal is None
}

/// A list of keys is read as its keys, in the order of the walk, duplicates
/// kept: where the interpreter hands out `given` for the table, and the value
/// at each place is read as a key with the identifier of that place in `ids`,
/// the list is read, and its keys have the identifiers `ids`.
pub proof fn law_list_of_keys_keeps_order(
    lua: mlua::Lua,
    descriptor: mlua::Table,
    table: mlua::Table,
    given: Seq<mlua::Value>,
    ids: Seq<Seq<char>>,
    parsed: Result<Vec<Key>, Fault>,
)
    requires
        list_parsed(lua, descriptor, table, parsed),
        walked_as(lua, table, given),
        ids.len() == given.len(),
        forall|i: int, read: Result<Option<Key>, Fault>|
            0 <= i < given.len() && #[trigger] read_fits(lua, descriptor, given[i], read) ==> (
            read matches Ok(Some(key)) && key@ == ids[i]),
    ensures
        parsed matches Ok(keys) && key_ids(keys@) == ids,
{
    let reads = choose|reads: Vec<Result<Option<Key>, Fault>>|
        reads_fit(lua, descriptor, given, reads@) && #[trigger] call_ensures(
            gather_keys,
            (&reads,),
            parsed,
        );
    assert forall|i: int| 0 <= i < reads@.len() implies is_key_read(#[trigger] reads@[i]) by {
        assert(read_fits(lua, descriptor, given[i], reads@[i]));
    }
    assert(reads@.len() == given.len());
    let keys = parsed->Ok_0;
    assert forall|i: int| 0 <= i < ids.len() implies #[trigger] key_ids(keys@)[i] == ids[i] by {
        assert(read_fits(lua, descriptor, given[i], reads@[i]));
        assert(reads@[i] == Ok::<Option<Key>, Fault>(Some(keys@[i])));
    }
    assert(key_ids(keys@) =~= ids);
}

/// One value that is no key refuses the whole list, and is named by its
/// place: where the interpreter hands out `given` for the table, every value
/// before `place` is read as a key and the value at `place` as none, the
/// list is refused with `NotAKey` at `place`, whatever comes after.
pub proof fn law_stranger_refuses_the_list(
    lua: mlua::Lua,
    descriptor: mlua::Table,
    table: mlua::Table,
    given: Seq<mlua::Value>,
    place: usize,
    parsed: Result<Vec<Key>, Fault>,
)
    requires
        list_parsed(lua, descriptor, table, parsed),
        walked_as(lua, table, given),
        place < given.len(),
        forall|i: int, read: Result<Option<Key>, Fault>|
            0 <= i < place && #[trigger] read_fits(lua, descriptor, given[i], read)
                ==> is_key_read(read),
        forall|read: Result<Option<Key>, Fault>| #[trigger]
            read_fits(lua, descriptor, given[place as int], read) ==> read == Ok::<
                Option<Key>,
                Fault,
            >(None),
    ensures
        parsed == Err::<Vec<Key>, Fault>(Fault::NotAKey { index: place }),
{
    let reads = choose|reads: Vec<Result<Option<Key>, Fault>>|
        reads_fit(lua, descriptor, given, reads@) && #[trigger] call_ensures(
            gather_keys,
            (&reads,),
            parsed,
        );
    assert forall|i: int| 0 <= i < reads@.len() && i < place implies is_key_read(
        #[trigger] reads@[i],
    ) by {
        assert(read_fits(lua, descriptor, given[i], reads@[i]));
    }
    assert(reads@.len() > place) by {
        if reads@.len() <= place {
            assert(reads@.len() > 0 ==> is_key_read(reads@.last()));
        }
    }
    assert(read_fits(lua, descriptor, given[place as int], reads@[place as int]));
    assert(!is_key_read(reads@[place as int]));
}

/// A key is never walked as a list: where the table was read as a single
/// key, that key is the one target, whatever entries the table has.
pub proof fn law_single_key_is_not_walked(
    lua: mlua::Lua,
    descriptor: mlua::Table,
    table: mlua::Table,
    keys: Result<KeyArg, Fault>,
)
    requires
        keys_classified(lua, descriptor, table, keys),
        forall|single: Result<Option<Key>, Fault>| #[trigger]
            call_ensures(parse_key, (&lua, &descriptor, &table), single) ==> single matches Ok(
                Some(_),
            ),
    ensures
        keys matches Ok(shape) && shape is One && shape.targets().len() == 1,
{
}

/// A fault in the modifiers refuses the call: where the modifiers are a
/// table of the interpreter and reading it as a list of keys failed, the
/// call fails, with the modifiers named, and the registry is as it was
/// before by the contract of `bind_func`.
pub proof fn law_refused_modifiers_refuse_the_call(
    lua: mlua::Lua,
    descriptor: mlua::Table,
    modifiers: mlua::Value,
    keys: mlua::Value,
    command: mlua::Value,
    before: Seq<BindingView>,
    after: Seq<BindingView>,
    done: Result<(), BindError>,
)
    requires
        bound(lua, descriptor, modifiers, keys, command, before, after, done),
        table_in(lua, modifiers) matches Ok(list) && forall|held: Result<Vec<Key>, Fault>|
            #[trigger] call_ensures(parse_key_list, (&lua, &descriptor, &list), held) ==> held
                is Err,
    ensures
        done matches Err(error) && error.argument == Argument::Modifiers,
{
}

} // verus!
