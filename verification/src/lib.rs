//! Keyboard shortcut bindings declared from an embedded Lua script.
//!
//! A host prepares an interpreter with [`host::prepare`], which defines the
//! opaque `Key` type and the key constants and hands out the descriptor of
//! keys, and exposes [`bind::bind_func`] to the script as
//! `bind(modifiers, keys, command)`. Every call appends to a
//! [`binding::Bindings`] registry that the host owns and reads out once the
//! script has run.
//!
//! The interpreter is `mlua`'s, and its answers are not this library's to
//! prove: [`script`] holds every call into it, each with what is taken on
//! trust. What the library asks, what it decides from the answers, and what
//! it does to the registry, is verified; [`laws`] says what follows.
pub mod bind;
pub mod binding;
pub mod error;
pub mod host;
pub mod key;
pub mod laws;
pub mod parse;
pub mod script;
