//! Preparing an interpreter: the opaque `Key` type and the key constants.
//!
//! A script has no way to make a key but to use a constant that was put
//! there for it: the type is a table, the descriptor, that is its own
//! `__index`, and a key is a table whose metatable is that very table.
//! [`prepare`] hands the descriptor to the host, which hands it to every
//! later call: there is one descriptor for one interpreter, whatever a script
//! does to the global of its name.
//!
//! As in [`crate::parse`], a contract here says which questions were asked
//! of the interpreter, with which arguments, and what is returned for every
//! answer.
use crate::error::{DescriptorError, SetupError};
use crate::parse::{confirm_descriptor, expect_metatable, KEYID_FIELD, KEY_TYPE};
use crate::script::{
    create_table, globals, lives_in, raw_get_table, raw_set_string, raw_set_table, run_chunk,
    set_metatable,
};
use vstd::prelude::*;

verus! {

/// The prelude: it defines the descriptor under the name `Key`, makes it its
/// own `__index`, and gives keys their text form, `<key:ID>`. It calls
/// nothing and reads nothing but what it defined.
pub const PRELUDE: &'static str = "Key = {}\n\
Key.__index = Key\n\
function Key.__tostring(self)\n\
return \"<key:\" .. self.keyid .. \">\"\n\
end\n";

/// The interpreter was asked to run the prelude in an environment of its
/// own, and `left` came back: the environment, or the interpreter's refusal.
pub closed spec fn prelude_asked(lua: mlua::Lua, left: Result<mlua::Table, mlua::Error>) -> bool {
    call_ensures(run_chunk, (&lua, PRELUDE), left)
}

/// The interpreter was asked for the table that `environment` itself holds
/// under `name`, and `found` came back.
pub closed spec fn left_asked(
    lua: mlua::Lua,
    environment: mlua::Table,
    name: &str,
    found: Result<mlua::Table, mlua::Error>,
) -> bool {
    call_ensures(raw_get_table, (&lua, &environment, name), found)
}

/// The interpreter was asked to store `table` in its globals themselves
/// under `name`, and `done` came back.
pub closed spec fn published_asked(
    lua: mlua::Lua,
    name: &str,
    table: mlua::Table,
    done: Result<(), mlua::Error>,
) -> bool {
    exists|all: mlua::Table|
        call_ensures(globals, (&lua,), all) && #[trigger] call_ensures(
            raw_set_table,
            (&lua, &all, name, &table),
            done,
        )
}

/// The interpreter was asked for a new table, and `made` came back.
pub closed spec fn made_asked(lua: mlua::Lua, made: Result<mlua::Table, mlua::Error>) -> bool {
    call_ensures(create_table, (&lua,), made)
}

/// The interpreter was asked to store `keyid` in `key` itself under
/// [`KEYID_FIELD`], and `done` came back.
pub closed spec fn named_asked(
    lua: mlua::Lua,
    key: mlua::Table,
    keyid: &str,
    done: Result<(), mlua::Error>,
) -> bool {
    call_ensures(raw_set_string, (&lua, &key, KEYID_FIELD, keyid), done)
}

/// The interpreter was asked to make `descriptor` the metatable of `key`,
/// and `done` came back.
pub closed spec fn marked_asked(
    lua: mlua::Lua,
    key: mlua::Table,
    descriptor: mlua::Table,
    done: Result<(), mlua::Error>,
) -> bool {
    call_ensures(set_metatable, (&lua, &key, &descriptor), done)
}

/// What a step of the setup returns for the interpreter's answer: success, or
/// the interpreter's own error.
pub open spec fn interpreter_said(answer: Result<(), mlua::Error>) -> Result<(), SetupError> {
    match answer {
        Ok(_) => Ok(()),
        Err(error) => Err(SetupError::Interpreter(error)),
    }
}

/// What [`run_prelude`] returns once the prelude left `table` under the
/// descriptor's name: what the interpreter said to publishing it.
pub open spec fn descriptor_published(
    lua: mlua::Lua,
    table: mlua::Table,
    done: Result<(), SetupError>,
) -> bool {
    exists|published: Result<(), mlua::Error>| #[trigger]
        published_asked(lua, KEY_TYPE, table, published) && done == interpreter_said(published)
}

/// What [`run_prelude`] returns once the prelude ran and left `environment`:
/// the descriptor is missing where the environment holds no table under its
/// name; else that table is published.
pub open spec fn prelude_left(
    lua: mlua::Lua,
    environment: mlua::Table,
    done: Result<(), SetupError>,
) -> bool {
    exists|candidate: Result<mlua::Table, mlua::Error>| #[trigger]
        left_asked(lua, environment, KEY_TYPE, candidate) && match candidate {
            Ok(table) => descriptor_published(lua, table, done),
            Err(_) => done == Err::<(), SetupError>(
                SetupError::Descriptor(DescriptorError::Missing),
            ),
        }
}

/// What [`run_prelude`] returns of what came back: the interpreter's refusal
/// to run the prelude, or what became of what the prelude left.
pub open spec fn prelude_run(lua: mlua::Lua, done: Result<(), SetupError>) -> bool {
    exists|left: Result<mlua::Table, mlua::Error>| #[trigger]
        prelude_asked(lua, left) && match left {
            Ok(environment) => prelude_left(lua, environment, done),
            Err(error) => done == Err::<(), SetupError>(SetupError::Interpreter(error)),
        }
}

/// Runs the prelude in an environment of its own and publishes the table
/// that it left under the descriptor's name as the global of that name. No
/// global is read, and none but that one is written.
pub fn run_prelude(lua: &mlua::Lua) -> (done: Result<(), SetupError>)
    ensures
        prelude_run(*lua, done),
{
    let left = run_chunk(lua, PRELUDE);
    assert(prelude_asked(*lua, left));
    let environment = match left {
        Ok(environment) => environment,
        Err(error) => {
            return Err(SetupError::Interpreter(error));
        },
    };
    let candidate = raw_get_table(lua, &environment, KEY_TYPE);
    assert(left_asked(*lua, environment, KEY_TYPE, candidate));
    let table = match candidate {
        Ok(table) => table,
        Err(_) => {
            return Err(SetupError::Descriptor(DescriptorError::Missing));
        },
    };
    let all = globals(lua);
    let published = raw_set_table(lua, &all, KEY_TYPE, &table);
    assert(published_asked(*lua, KEY_TYPE, table, published));
    let done = match published {
        Ok(()) => Ok(()),
        Err(error) => Err(SetupError::Interpreter(error)),
    };
    assert(descriptor_published(*lua, table, done));
    assert(prelude_left(*lua, environment, done));
    done
}

/// What [`create_key_global`] returns once `key` carries the descriptor:
/// what the interpreter said to publishing it under `name`.
pub open spec fn key_published(
    lua: mlua::Lua,
    name: &str,
    key: mlua::Table,
    done: Result<(), SetupError>,
) -> bool {
    exists|published: Result<(), mlua::Error>| #[trigger]
        published_asked(lua, name, key, published) && done == interpreter_said(published)
}

/// What [`create_key_global`] returns once `key` holds its identifier: the
/// interpreter's refusal to make `descriptor` its metatable, or what became
/// of publishing it.
pub open spec fn key_marked(
    lua: mlua::Lua,
    descriptor: mlua::Table,
    name: &str,
    key: mlua::Table,
    done: Result<(), SetupError>,
) -> bool {
    exists|marked: Result<(), mlua::Error>| #[trigger]
        marked_asked(lua, key, descriptor, marked) && match marked {
            Ok(_) => key_published(lua, name, key, done),
            Err(error) => done == Err::<(), SetupError>(SetupError::Interpreter(error)),
        }
}

/// What [`create_key_global`] returns once the table `key` is made: the
/// interpreter's refusal to store `keyid` in it, or what became of marking
/// it.
pub open spec fn key_filled(
    lua: mlua::Lua,
    descriptor: mlua::Table,
    name: &str,
    keyid: &str,
    key: mlua::Table,
    done: Result<(), SetupError>,
) -> bool {
    exists|named: Result<(), mlua::Error>| #[trigger]
        named_asked(lua, key, keyid, named) && match named {
            Ok(_) => key_marked(lua, descriptor, name, key, done),
            Err(error) => done == Err::<(), SetupError>(SetupError::Interpreter(error)),
        }
}

/// What [`create_key_global`] returns under a confirmed descriptor: the
/// interpreter's refusal to make a table, or what became of filling it.
pub open spec fn key_made(
    lua: mlua::Lua,
    descriptor: mlua::Table,
    name: &str,
    keyid: &str,
    done: Result<(), SetupError>,
) -> bool {
    exists|made: Result<mlua::Table, mlua::Error>| #[trigger]
        made_asked(lua, made) && match made {
            Ok(key) => key_filled(lua, descriptor, name, keyid, key, done),
            Err(error) => done == Err::<(), SetupError>(SetupError::Interpreter(error)),
        }
}

/// What [`create_key_global`] returns of what came back: the fault of the
/// descriptor where [`confirm_descriptor`] gave one; else the refusal of the
/// first step that the interpreter refused; else success, with a new table
/// that was given `keyid` under [`KEYID_FIELD`], then `descriptor` for its
/// metatable, then its place under `name` in the globals.
pub open spec fn key_global_created(
    lua: mlua::Lua,
    descriptor: mlua::Table,
    name: &str,
    keyid: &str,
    done: Result<(), SetupError>,
) -> bool {
    exists|confirmed: Result<(), DescriptorError>| #[trigger]
        call_ensures(confirm_descriptor, (&lua, &descriptor), confirmed) && match confirmed {
            Ok(_) => key_made(lua, descriptor, name, keyid, done),
            Err(fault) => done == Err::<(), SetupError>(SetupError::Descriptor(fault)),
        }
}

/// Makes the key `keyid` and publishes it as the global `name`: a new table
/// with `keyid` under `"keyid"` and `descriptor` for its metatable. The
/// descriptor is confirmed first, and nothing is made under one that is
/// none. A global of that name is replaced; the descriptor is read and
/// handed on, never written.
pub fn create_key_global(
    lua: &mlua::Lua,
    descriptor: &mlua::Table,
    name: &str,
    keyid: &str,
) -> (done: Result<(), SetupError>)
    ensures
        key_global_created(*lua, *descriptor, name, keyid, done),
{
    if let Err(fault) = confirm_descriptor(lua, descriptor) {
        return Err(SetupError::Descriptor(fault));
    }
    let made = create_table(lua);
    assert(made_asked(*lua, made));
    let key = match made {
        Ok(key) => key,
        Err(error) => {
            let done = Err(SetupError::Interpreter(error));
            assert(key_made(*lua, *descriptor, name, keyid, done));
            return done;
        },
    };
    let named = raw_set_string(lua, &key, KEYID_FIELD, keyid);
    assert(named_asked(*lua, key, keyid, named));
    if let Err(error) = named {
        let done = Err(SetupError::Interpreter(error));
        assert(key_filled(*lua, *descriptor, name, keyid, key, done));
        assert(key_made(*lua, *descriptor, name, keyid, done));
        return done;
    }
    let marked = set_metatable(lua, &key, descriptor);
    assert(marked_asked(*lua, key, *descriptor, marked));
    if let Err(error) = marked {
        let done = Err(SetupError::Interpreter(error));
        assert(key_marked(*lua, *descriptor, name, key, done));
        assert(key_filled(*lua, *descriptor, name, keyid, key, done));
        assert(key_made(*lua, *descriptor, name, keyid, done));
        return done;
    }
    let all = globals(lua);
    let published = raw_set_table(lua, &all, name, &key);
    assert(published_asked(*lua, name, key, published));
    let done = match published {
        Ok(()) => Ok(()),
        Err(error) => Err(SetupError::Interpreter(error)),
    };
    assert(key_published(*lua, name, key, done));
    assert(key_marked(*lua, *descriptor, name, key, done));
    assert(key_filled(*lua, *descriptor, name, keyid, key, done));
    assert(key_made(*lua, *descriptor, name, keyid, done));
    done
}

/// The key constants that every script finds: global name and identifier.
pub open spec fn key_constants_spec() -> Seq<(Seq<char>, Seq<char>)> {
    seq![("SUPER"@, "super"@), ("A"@, "a"@), ("H"@, "h"@), ("J"@, "j"@), ("K"@, "k"@), ("L"@, "l"@)]
}

/// The key constants that every script finds, as pairs of global name and
/// identifier. A new key is a new entry here.
pub fn key_constants() -> (constants: Vec<(&'static str, &'static str)>)
    ensures
        constants@.len() == key_constants_spec().len(),
        forall|i: int|
            0 <= i < constants@.len() ==> (#[trigger] constants@[i]).0@ == key_constants_spec()[i].0
                && constants@[i].1@ == key_constants_spec()[i].1,
{
    let mut constants: Vec<(&'static str, &'static str)> = Vec::new();
    constants.push(("SUPER", "super"));
    constants.push(("A", "a"));
    constants.push(("H", "h"));
    constants.push(("J", "j"));
    constants.push(("K", "k"));
    constants.push(("L", "l"));
    constants
}

/// [`create_key_global`] was asked for the constant at `index` of
/// `constants`, and `done` came back.
pub open spec fn constant_asked(
    lua: mlua::Lua,
    descriptor: mlua::Table,
    constants: Seq<(&'static str, &'static str)>,
    index: int,
    done: Result<(), SetupError>,
) -> bool {
    call_ensures(
        create_key_global,
        (&lua, &descriptor, constants[index].0, constants[index].1),
        done,
    )
}

/// What [`install_key_constants`] returns of what came back for the single
/// constants: success where every constant was published; else the error of
/// the first that was not, every constant before it published.
pub open spec fn constants_asked(
    lua: mlua::Lua,
    descriptor: mlua::Table,
    constants: Seq<(&'static str, &'static str)>,
    done: Result<(), SetupError>,
) -> bool {
    match done {
        Ok(_) => forall|i: int|
            0 <= i < constants.len() ==> #[trigger] constant_asked(
                lua,
                descriptor,
                constants,
                i,
                Ok(()),
            ),
        Err(error) => exists|i: int|
            0 <= i < constants.len() && #[trigger] constant_asked(
                lua,
                descriptor,
                constants,
                i,
                Err(error),
            ) && forall|j: int|
                0 <= j < i ==> #[trigger] constant_asked(lua, descriptor, constants, j, Ok(())),
    }
}

/// Publishes every key constant, in the order of [`key_constants`], each
/// with `descriptor` for its metatable, and stops at the first that fails:
/// its error is the result.
pub fn install_key_constants(lua: &mlua::Lua, descriptor: &mlua::Table) -> (done: Result<
    (),
    SetupError,
>)
    ensures
        exists|constants: Vec<(&'static str, &'static str)>|
            call_ensures(key_constants, (), constants) && #[trigger] constants_asked(
                *lua,
                *descriptor,
                constants@,
                done,
            ),
{
    let constants = key_constants();
    let mut i: usize = 0;
    while i < constants.len()
        invariant
            i <= constants@.len(),
            call_ensures(key_constants, (), constants),
            forall|j: int|
                0 <= j < i ==> #[trigger] constant_asked(
                    *lua,
                    *descriptor,
                    constants@,
                    j,
                    Ok(()),
                ),
        decreases constants@.len() - i,
    {
        let (name, keyid) = constants[i];
        let published = create_key_global(lua, descriptor, name, keyid);
        assert(constant_asked(*lua, *descriptor, constants@, i as int, published));
        match published {
            Ok(nothing) => {
                // There is one `()`, so what came back is `Ok(())`.
                assert(nothing == ());
            },
            Err(error) => {
                assert(constants_asked(*lua, *descriptor, constants@, Err(error)));
                return Err(error);
            },
        }
        i += 1;
    }
    assert(constants_asked(*lua, *descriptor, constants@, Ok(())));
    Ok(())
}

/// What [`prepare`] returns once the descriptor is found: the descriptor,
/// where [`install_key_constants`] published every constant, else its error.
pub open spec fn constants_installed(
    lua: mlua::Lua,
    descriptor: mlua::Table,
    done: Result<mlua::Table, SetupError>,
) -> bool {
    exists|installed: Result<(), SetupError>| #[trigger]
        call_ensures(install_key_constants, (&lua, &descriptor), installed) && match installed {
            Ok(_) => done == Ok::<mlua::Table, SetupError>(descriptor),
            Err(error) => done == Err::<mlua::Table, SetupError>(error),
        }
}

/// What [`prepare`] returns once the prelude ran: the fault of the
/// descriptor where [`expect_metatable`] gave one for [`KEY_TYPE`], else
/// what became of the key constants.
pub open spec fn descriptor_used(lua: mlua::Lua, done: Result<mlua::Table, SetupError>) -> bool {
    exists|found: Result<mlua::Table, DescriptorError>| #[trigger]
        call_ensures(expect_metatable, (&lua, KEY_TYPE), found) && match found {
            Ok(descriptor) => constants_installed(lua, descriptor, done),
            Err(fault) => done == Err::<mlua::Table, SetupError>(SetupError::Descriptor(fault)),
        }
}

/// What [`prepare`] returns of what came back for its steps: the error of
/// the prelude where [`run_prelude`] failed; else what became of the
/// descriptor.
pub open spec fn prepared(lua: mlua::Lua, done: Result<mlua::Table, SetupError>) -> bool {
    exists|ran: Result<(), SetupError>| #[trigger]
        call_ensures(run_prelude, (&lua,), ran) && match ran {
            Ok(_) => descriptor_used(lua, done),
            Err(error) => done == Err::<mlua::Table, SetupError>(error),
        }
}

/// Prepares `lua` for a user script: the prelude first; then, where that
/// ran, the descriptor is found and confirmed; then the key constants are
/// published under it. The descriptor is handed out: it is what every later
/// call holds tables against. What is left to the host is to expose `bind`.
pub fn prepare(lua: &mlua::Lua) -> (done: Result<mlua::Table, SetupError>)
    ensures
        done matches Ok(descriptor) ==> lives_in(*lua, descriptor),
        prepared(*lua, done),
{
    if let Err(error) = run_prelude(lua) {
        return Err(error);
    }
    let found = expect_metatable(lua, KEY_TYPE);
    let ghost found_as = found;
    let descriptor = match found {
        Ok(descriptor) => descriptor,
        Err(fault) => {
            let done = Err(SetupError::Descriptor(fault));
            assert(descriptor_used(*lua, done));
            return done;
        },
    };
    let installed = install_key_constants(lua, &descriptor);
    let done = match installed {
        Ok(()) => Ok(descriptor),
        Err(error) => Err(error),
    };
    assert(call_ensures(install_key_constants, (lua, &descriptor), installed));
    assert(constants_installed(*lua, descriptor, done));
    assert(call_ensures(expect_metatable, (lua, KEY_TYPE), found_as));
    assert(descriptor_used(*lua, done));
    done
}

} // verus!
