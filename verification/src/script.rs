//! The interpreter as this library sees it: the `mlua` types that pass through
//! the library and one function for each `mlua` call that the library makes.
//!
//! Nothing in this file is proved. Each contract states what the `mlua` source
//! shows of the call; what an interpreter answers about its own state (a
//! table's fields, its metatable, its entries) is promised nothing, because a
//! script can change it between two calls. No call here runs script code but
//! the prelude: fields are read and written raw. No call hands out more than
//! one handle: a table is walked one entry at a time.
//!
//! A handle is only good while its interpreter is there, and `mlua` panics on
//! a handle of another interpreter. So the functions that take a handle take
//! the interpreter too, and require that the handle lives in it: whoever
//! holds the interpreter knows that it is there.
#![allow(unused_variables)]

use mlua::ObjectLike;
use vstd::prelude::*;

verus! {

/// `mlua::Lua`: one interpreter. Opaque.
#[verifier::external_type_specification]
#[verifier::external_body]
pub struct ExLua(mlua::Lua);

/// `mlua::Table`: a handle to a table that lives in an interpreter. Opaque.
#[verifier::external_type_specification]
#[verifier::external_body]
pub struct ExTable(mlua::Table);

/// `mlua::Value`: any script value. Opaque.
#[verifier::external_type_specification]
#[verifier::external_body]
pub struct ExValue(mlua::Value);

/// `mlua::Error`: why the interpreter refused a call. Opaque.
#[verifier::external_type_specification]
#[verifier::external_body]
pub struct ExError(mlua::Error);

/// `mlua::TablePairs`: a walk over the entries of a table, one entry at a
/// time. Opaque.
#[verifier::external_type_specification]
#[verifier::external_body]
#[verifier::reject_recursive_types(K)]
#[verifier::reject_recursive_types(V)]
pub struct ExTablePairs<'a, K, V>(mlua::TablePairs<'a, K, V>);

/// Whether the handle `table` points into the interpreter `lua`: what
/// comparing the weak interpreter reference of the handle with that of `lua`
/// gives. A handle keeps the interpreter it was made in for life.
pub uninterp spec fn lives_in(lua: mlua::Lua, table: mlua::Table) -> bool;

/// Whether two handles of one interpreter point at the same table: what `==`
/// on `mlua::Table` gives, which asks the interpreter for raw equality.
pub uninterp spec fn raw_equal(a: mlua::Table, b: mlua::Table) -> bool;

/// Raw equality, of which one fact is used: a handle points at the table
/// that it points at.
pub open spec fn same_tables(a: mlua::Table, b: mlua::Table) -> bool {
    a == b || raw_equal(a, b)
}

/// The table handle inside a script value, if the value is a table: what
/// `mlua::Value::as_table` gives.
pub uninterp spec fn value_table(value: mlua::Value) -> Option<mlua::Table>;

/// `ObjectLike::weak_lua` of the table against `Lua::weak`, compared with
/// `==`: tells whether the handle was made in this interpreter.
#[verifier::external_body]
pub(crate) fn is_table_of(lua: &mlua::Lua, table: &mlua::Table) -> (b: bool)
    ensures
        b == lives_in(*lua, *table),
{
    *table.weak_lua() == lua.weak()
}

/// `==` on `mlua::Table`. It panics on handles of two interpreters and on a
/// handle whose interpreter is gone, so both must live in `lua`.
#[verifier::external_body]
pub(crate) fn same_table(lua: &mlua::Lua, a: &mlua::Table, b: &mlua::Table) -> (same: bool)
    requires
        lives_in(*lua, *a),
        lives_in(*lua, *b),
    ensures
        same == (*a == *b || raw_equal(*a, *b)),
{
    a == b
}

/// `mlua::Value::as_table`: the handle inside a table value, nothing for any
/// other value.
#[verifier::external_body]
pub(crate) fn as_table(value: &mlua::Value) -> (table: Option<&mlua::Table>)
    ensures
        table matches Some(t) ==> value_table(*value) == Some(*t),
        table is None ==> value_table(*value) is None,
{
    value.as_table()
}

/// `Clone::clone` on `mlua::Value`: the copy is the same script value. A
/// primitive is copied; a handle is copied to a handle on the same object.
#[verifier::external_body]
pub(crate) fn clone_value(value: &mlua::Value) -> (copy: mlua::Value)
    ensures
        copy == *value,
{
    value.clone()
}

/// `mlua::Lua::globals`: a handle to the interpreter's table of globals.
#[verifier::external_body]
pub(crate) fn globals(lua: &mlua::Lua) -> (table: mlua::Table)
    ensures
        lives_in(*lua, table),
{
    lua.globals()
}

/// `mlua::Table::raw_get` for a table: the field `key` of the table itself,
/// no metatable asked, or an error where that is no table. No script code
/// runs. The answer is the interpreter's; only where the handle lives is
/// promised.
#[verifier::external_body]
pub(crate) fn raw_get_table(
    lua: &mlua::Lua,
    table: &mlua::Table,
    key: &str,
) -> (found: Result<mlua::Table, mlua::Error>)
    requires
        lives_in(*lua, *table),
    ensures
        found matches Ok(t) ==> lives_in(*lua, t),
{
    table.raw_get::<mlua::Table>(key)
}

/// `mlua::Table::raw_get` for a string: the field `key` of the table itself,
/// no metatable asked, or an error where that is neither a string of valid
/// UTF-8 nor a number. No script code runs. Nothing is promised of the text.
#[verifier::external_body]
pub(crate) fn raw_get_string(
    lua: &mlua::Lua,
    table: &mlua::Table,
    key: &str,
) -> (found: Result<String, mlua::Error>)
    requires
        lives_in(*lua, *table),
{
    table.raw_get::<String>(key)
}

/// `mlua::Table::metatable`: a handle to the table's metatable, if it has
/// one at this moment.
#[verifier::external_body]
pub(crate) fn metatable_of(lua: &mlua::Lua, table: &mlua::Table) -> (found: Option<mlua::Table>)
    requires
        lives_in(*lua, *table),
    ensures
        found matches Some(t) ==> lives_in(*lua, t),
{
    table.metatable()
}

/// `mlua::Table::pairs` for values of any kind: a walk over the table that
/// has handed out nothing yet. The walk keeps the interpreter alive and
/// borrows the table.
#[verifier::external_body]
pub(crate) fn start_walk<'a>(
    lua: &mlua::Lua,
    table: &'a mlua::Table,
) -> (walk: mlua::TablePairs<'a, mlua::Value, mlua::Value>)
    requires
        lives_in(*lua, *table),
{
    table.pairs::<mlua::Value, mlua::Value>()
}

/// `Iterator::next` on `mlua::TablePairs`: the walk one step on, and the
/// value of the next entry in the interpreter's walk order, nothing where the
/// walk is at its end, or the interpreter's refusal. The key of the entry is
/// dropped, and the value is the one handle that the step hands out. Which
/// entry comes next is the interpreter's to say; nothing is promised. No
/// script code runs, and none can run between two steps: this library only
/// reads while it walks.
#[verifier::external_body]
pub(crate) fn next_entry<'a>(walk: mlua::TablePairs<'a, mlua::Value, mlua::Value>) -> (stepped: (
    mlua::TablePairs<'a, mlua::Value, mlua::Value>,
    Option<Result<mlua::Value, mlua::Error>>,
))
{
    let mut walk = walk;
    let entry = walk.next().map(|pair| pair.map(|(_, value)| value));
    (walk, entry)
}

/// `mlua::Lua::create_table`: a handle to a new, empty table.
#[verifier::external_body]
pub(crate) fn create_table(lua: &mlua::Lua) -> (made: Result<mlua::Table, mlua::Error>)
    ensures
        made matches Ok(t) ==> lives_in(*lua, t),
{
    lua.create_table()
}

/// `mlua::Table::raw_set` with a text: stores `value` under `key` in the
/// table itself, no metatable asked, or says why the interpreter refused. No
/// script code runs.
#[verifier::external_body]
pub(crate) fn raw_set_string(
    lua: &mlua::Lua,
    table: &mlua::Table,
    key: &str,
    value: &str,
) -> (done: Result<(), mlua::Error>)
    requires
        lives_in(*lua, *table),
{
    table.raw_set(key, value)
}

/// `mlua::Table::raw_set` with a table: stores `value` under `key` in the
/// table itself, no metatable asked, or says why the interpreter refused. No
/// script code runs. The call panics on handles of two interpreters.
#[verifier::external_body]
pub(crate) fn raw_set_table(
    lua: &mlua::Lua,
    table: &mlua::Table,
    key: &str,
    value: &mlua::Table,
) -> (done: Result<(), mlua::Error>)
    requires
        lives_in(*lua, *table),
        lives_in(*lua, *value),
{
    table.raw_set(key, value)
}

/// `mlua::Table::set_metatable` with a copy of the handle `metatable`: makes
/// that table the metatable of `table`. It reads the second handle as one of
/// the first one's interpreter, so both must live in `lua`.
#[verifier::external_body]
pub(crate) fn set_metatable(
    lua: &mlua::Lua,
    table: &mlua::Table,
    metatable: &mlua::Table,
) -> (done: Result<(), mlua::Error>)
    requires
        lives_in(*lua, *table),
        lives_in(*lua, *metatable),
{
    table.set_metatable(Some(metatable.clone()))
}

/// `mlua::Lua::create_table`, `mlua::Lua::load`, `mlua::Chunk::set_environment`
/// and `mlua::Chunk::exec`: runs `source` with a new, empty table for its
/// environment, and hands out that table with what the chunk left in it. The
/// chunk sees no global, and the new table has no metatable, so no code runs
/// but the chunk's own. A chunk that loops does not return, so only the
/// prelude, which has no loop and calls nothing, is let in.
#[verifier::external_body]
pub(crate) fn run_chunk(lua: &mlua::Lua, source: &str) -> (left: Result<mlua::Table, mlua::Error>)
    requires
        source@ == crate::host::PRELUDE@,
    ensures
        left matches Ok(t) ==> lives_in(*lua, t),
{
    let environment = lua.create_table()?;
    lua.load(source).set_environment(environment.clone()).exec()?;
    Ok(environment)
}

} // verus!
