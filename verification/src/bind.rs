//! `bind(modifiers, keys, command)`: the one function that a script calls.
use crate::binding::{bind_keys, expansion, BindingView, Bindings, KeyArg};
use crate::error::{Argument, BindError, Fault};
use crate::key::{key_ids, Key};
use crate::parse::{expect_table, parse_key, parse_key_list, table_in};
use crate::script::lives_in;
use vstd::prelude::*;

verus! {

/// What [`classify_keys`] returns for a table that was read as no single
/// key: the list that [`parse_key_list`] read, or its fault.
pub open spec fn list_classified(
    lua: mlua::Lua,
    descriptor: mlua::Table,
    table: mlua::Table,
    keys: Result<KeyArg, Fault>,
) -> bool {
    exists|list: Result<Vec<Key>, Fault>| #[trigger]
        call_ensures(parse_key_list, (&lua, &descriptor, &table), list) && match list {
            Ok(all) => keys == Ok::<KeyArg, Fault>(KeyArg::Many(all)),
            Err(fault) => keys == Err::<KeyArg, Fault>(fault),
        }
}

/// What [`classify_keys`] returns of what came back: the single key that
/// [`parse_key`] read; a list only where it read none; the fault of
/// whichever failed.
pub open spec fn keys_classified(
    lua: mlua::Lua,
    descriptor: mlua::Table,
    table: mlua::Table,
    keys: Result<KeyArg, Fault>,
) -> bool {
    exists|single: Result<Option<Key>, Fault>| #[trigger]
        call_ensures(parse_key, (&lua, &descriptor, &table), single) && match single {
            Ok(Some(key)) => keys == Ok::<KeyArg, Fault>(KeyArg::One(key)),
            Ok(None) => list_classified(lua, descriptor, table, keys),
            Err(fault) => keys == Err::<KeyArg, Fault>(fault),
        }
}

/// Tells the two shapes of the `keys` argument apart. The table is first
/// tried as a single key; only a table that is none is walked as a list, so
/// that a key is never taken for a list of its own fields.
pub fn classify_keys(lua: &mlua::Lua, descriptor: &mlua::Table, table: &mlua::Table) -> (keys:
    Result<KeyArg, Fault>)
    ensures
        keys == Err::<KeyArg, Fault>(Fault::Foreign) <==> !lives_in(*lua, *table),
        keys matches Err(fault) ==> !(fault is NotATable),
        keys_classified(*lua, *descriptor, *table, keys),
{
    let single = parse_key(lua, descriptor, table);
    let ghost read = single;
    let keys = match single {
        Ok(Some(key)) => Ok(KeyArg::One(key)),
        Ok(None) => {
            let list = parse_key_list(lua, descriptor, table);
            let ghost walked = list;
            let keys = match list {
                Ok(all) => Ok(KeyArg::Many(all)),
                Err(fault) => Err(fault),
            };
            assert(call_ensures(parse_key_list, (lua, descriptor, table), walked));
            assert(list_classified(*lua, *descriptor, *table, keys));
            keys
        },
        Err(fault) => Err(fault),
    };
    assert(call_ensures(parse_key, (lua, descriptor, table), read));
    keys
}

/// What [`bind_func`] does once the modifiers are read as `held`: it refuses
/// a `keys` argument that is no table of the interpreter or that
/// [`classify_keys`] refused, and else registers one binding for each key.
pub open spec fn keys_bound(
    lua: mlua::Lua,
    descriptor: mlua::Table,
    held: Vec<Key>,
    keys: mlua::Value,
    command: mlua::Value,
    before: Seq<BindingView>,
    after: Seq<BindingView>,
    done: Result<(), BindError>,
) -> bool {
    match table_in(lua, keys) {
        Ok(table) => exists|targets: Result<KeyArg, Fault>| #[trigger]
            call_ensures(classify_keys, (&lua, &descriptor, &table), targets) && match targets {
                Ok(shape) => done is Ok && after == before + expansion(
                    key_ids(held@),
                    shape.targets(),
                    command,
                ),
                Err(fault) => done == Err::<(), BindError>(
                    BindError { argument: Argument::Keys, fault },
                ),
            },
        Err(fault) => done == Err::<(), BindError>(BindError { argument: Argument::Keys, fault }),
    }
}

/// What [`bind_func`] does of what came back: it refuses a `modifiers`
/// argument that is no table of the interpreter or that [`parse_key_list`]
/// refused, and else goes on to the keys.
pub open spec fn bound(
    lua: mlua::Lua,
    descriptor: mlua::Table,
    modifiers: mlua::Value,
    keys: mlua::Value,
    command: mlua::Value,
    before: Seq<BindingView>,
    after: Seq<BindingView>,
    done: Result<(), BindError>,
) -> bool {
    match table_in(lua, modifiers) {
        Ok(table) => exists|held: Result<Vec<Key>, Fault>| #[trigger]
            call_ensures(parse_key_list, (&lua, &descriptor, &table), held) && match held {
                Ok(list) => keys_bound(lua, descriptor, list, keys, command, before, after, done),
                Err(fault) => done == Err::<(), BindError>(
                    BindError { argument: Argument::Modifiers, fault },
                ),
            },
        Err(fault) => done == Err::<(), BindError>(
            BindError { argument: Argument::Modifiers, fault },
        ),
    }
}

/// Declares bindings: `modifiers` is a list of keys, `keys` a key or a list
/// of keys, `command` anything; keys are tables that carry `descriptor`. On
/// success the registry has grown by one binding for each key, in order, all
/// with the same modifiers and command. On any fault, in either argument,
/// nothing is registered, and the fault of the modifiers comes first.
pub fn bind_func(
    lua: &mlua::Lua,
    descriptor: &mlua::Table,
    bindings: &mut Bindings,
    modifiers: &mlua::Value,
    keys: &mlua::Value,
    command: mlua::Value,
) -> (done: Result<(), BindError>)
    ensures
        done is Err ==> final(bindings)@ == old(bindings)@,
        bound(
            *lua,
            *descriptor,
            *modifiers,
            *keys,
            command,
            old(bindings)@,
            final(bindings)@,
            done,
        ),
{
    let list = match expect_table(lua, modifiers) {
        Ok(list) => list,
        Err(fault) => {
            return Err(BindError { argument: Argument::Modifiers, fault });
        },
    };
    let read = parse_key_list(lua, descriptor, list);
    let ghost read_as = read;
    let held = match read {
        Ok(held) => held,
        Err(fault) => {
            return Err(BindError { argument: Argument::Modifiers, fault });
        },
    };
    let ghost held_as = held;
    let table = match expect_table(lua, keys) {
        Ok(table) => table,
        Err(fault) => {
            let done = Err(BindError { argument: Argument::Keys, fault });
            assert(keys_bound(
                *lua,
                *descriptor,
                held_as,
                *keys,
                command,
                bindings@,
                bindings@,
                done,
            ));
            return done;
        },
    };
    let classified = classify_keys(lua, descriptor, table);
    let ghost classified_as = classified;
    let targets = match classified {
        Ok(targets) => targets,
        Err(fault) => {
            let done = Err(BindError { argument: Argument::Keys, fault });
            assert(call_ensures(classify_keys, (lua, descriptor, table), classified_as));
            assert(keys_bound(
                *lua,
                *descriptor,
                held_as,
                *keys,
                command,
                bindings@,
                bindings@,
                done,
            ));
            return done;
        },
    };
    bind_keys(bindings, held, targets, command);
    assert(call_ensures(classify_keys, (lua, descriptor, table), classified_as));
    assert(keys_bound(
        *lua,
        *descriptor,
        held_as,
        *keys,
        command,
        old(bindings)@,
        bindings@,
        Ok(()),
    ));
    Ok(())
}

} // verus!
