//! What can go wrong, by kind.
use vstd::prelude::*;

verus! {

/// The canonical type descriptor is not what the prelude leaves behind. This
/// is a fault of the host's setup, not of the user's script.
#[derive(Debug, Clone, Copy, PartialEq, Eq, Structural)]
pub enum DescriptorError {
    /// No global of the descriptor's name holds a table.
    Missing,
    /// The descriptor's own `__index` field holds no table.
    NoIndex,
    /// The descriptor's `__index` is another table than the descriptor.
    NotSelfReferential,
    /// The descriptor belongs to another interpreter than the one asked.
    Foreign,
}

/// Why a script value could not be read as a key or as a list of keys.
#[derive(Debug, Clone, Copy, PartialEq, Eq, Structural)]
pub enum Fault {
    /// The descriptor to hold the value against is malformed.
    Descriptor(DescriptorError),
    /// A list was asked for and the value is no table.
    NotATable,
    /// The table belongs to another interpreter than the one asked.
    Foreign,
    /// The list's element at `index`, counted from 0 in walk order, is no
    /// key: it is no table, or a table that does not carry the descriptor.
    NotAKey { index: usize },
    /// A table carries the descriptor and yet has no text under `keyid`.
    NoKeyId,
    /// The list could not be walked to its end: the interpreter refused a
    /// step, or the list has more entries than can be counted.
    Unreadable,
}

impl Fault {
    /// Whether the fault is the script's: a value stood where a key was
    /// required. The faults that are not: a malformed descriptor, and a list
    /// that the interpreter could not walk.
    pub fn is_type_error(&self) -> (b: bool)
        ensures
            b == !(self is Descriptor || self is Unreadable),
    {
        match self {
            Fault::Descriptor(_) => false,
            Fault::Unreadable => false,
            _ => true,
        }
    }
}

/// The argument of `bind` that a fault was found in.
#[derive(Debug, Clone, Copy, PartialEq, Eq, Structural)]
pub enum Argument {
    Modifiers,
    Keys,
}

/// A `bind` call that was refused: nothing of it was registered.
#[derive(Debug, Clone, Copy, PartialEq, Eq, Structural)]
pub struct BindError {
    pub argument: Argument,
    pub fault: Fault,
}

/// The interpreter could not be prepared.
#[derive(Debug)]
pub enum SetupError {
    /// The descriptor that the prelude should have defined is malformed.
    Descriptor(DescriptorError),
    /// The interpreter refused a step; its own error says why.
    Interpreter(mlua::Error),
}

} // verus!
