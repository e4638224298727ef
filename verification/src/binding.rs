//! Bindings and the registry that collects them.
use crate::key::{key_ids, Key};
use crate::script::clone_value;
use vstd::prelude::*;

verus! {

/// One declared shortcut: while `modifiers` are held, `key` triggers
/// `command`. The command is whatever the script passed; nothing here looks
/// inside it.
#[derive(Debug)]
pub struct Binding {
    pub modifiers: Vec<Key>,
    pub key: Key,
    pub command: mlua::Value,
}

/// A binding as plain values: the modifiers' identifiers in declared order,
/// the key's identifier, and the command.
pub ghost struct BindingView {
    pub modifiers: Seq<Seq<char>>,
    pub key: Seq<char>,
    pub command: mlua::Value,
}

impl View for Binding {
    type V = BindingView;

    open spec fn view(&self) -> BindingView {
        BindingView {
            modifiers: key_ids(self.modifiers@),
            key: self.key@,
            command: self.command,
        }
    }
}

/// The keys argument of one `bind` call, told apart once where it comes in:
/// a single key, or a list of keys that each get a binding of their own.
#[derive(Debug)]
pub enum KeyArg {
    One(Key),
    Many(Vec<Key>),
}

impl KeyArg {
    /// The keys to bind, in order.
    pub open spec fn targets(&self) -> Seq<Seq<char>> {
        match self {
            KeyArg::One(key) => seq![key@],
            KeyArg::Many(keys) => key_ids(keys@),
        }
    }
}

/// What one `bind` call declares: one binding for each target, in the order
/// of the targets, all with the same modifiers and the same command.
pub open spec fn expansion(
    modifiers: Seq<Seq<char>>,
    targets: Seq<Seq<char>>,
    command: mlua::Value,
) -> Seq<BindingView> {
    Seq::new(targets.len(), |i: int| BindingView { modifiers, key: targets[i], command })
}

/// The registry: every binding declared so far, oldest first. It only grows
/// until it is drained.
pub struct Bindings {
    entries: Vec<Binding>,
}

impl View for Bindings {
    type V = Seq<BindingView>;

    closed spec fn view(&self) -> Seq<BindingView> {
        self.entries@.map_values(|binding: Binding| binding@)
    }
}

impl Bindings {
    /// The empty registry.
    pub fn new() -> (bindings: Bindings)
        ensures
            bindings@ == Seq::<BindingView>::empty(),
    {
        Bindings { entries: Vec::new() }
    }

    /// How many bindings are registered.
    pub fn len(&self) -> (n: usize)
        ensures
            n == self@.len(),
    {
        self.entries.len()
    }

    /// The binding that was registered as the `index`-th, counted from 0.
    pub fn get(&self, index: usize) -> (binding: Option<&Binding>)
        ensures
            binding matches Some(b) ==> index < self@.len() && b@ == self@[index as int],
            binding is None ==> index >= self@.len(),
    {
        if index < self.entries.len() {
            Some(&self.entries[index])
        } else {
            None
        }
    }

    /// Hands out every binding in the order of registration and leaves the
    /// registry empty.
    pub fn drain(&mut self) -> (drained: Vec<Binding>)
        ensures
            drained@.len() == old(self)@.len(),
            forall|i: int| 0 <= i < drained@.len() ==> (#[trigger] drained@[i])@ == old(self)@[i],
            final(self)@ == Seq::<BindingView>::empty(),
    {
        let mut drained: Vec<Binding> = Vec::new();
        std::mem::swap(&mut self.entries, &mut drained);
        drained
    }
}

/// Appends `binding` to the registry.
pub fn push_binding(bindings: &mut Bindings, binding: Binding)
    ensures
        final(bindings)@ == old(bindings)@.push(binding@),
{
    bindings.entries.push(binding);
    assert(bindings@ =~= old(bindings)@.push(binding@));
}

/// Registers the binding of `key` under `modifiers` to `command`.
pub fn bind_key(bindings: &mut Bindings, modifiers: Vec<Key>, key: Key, command: mlua::Value)
    ensures
        final(bindings)@ == old(bindings)@.push(
            BindingView { modifiers: key_ids(modifiers@), key: key@, command },
        ),
{
    let binding = Binding { modifiers, key, command };
    push_binding(bindings, binding);
}

/// Registers what one `bind` call declares: for a single key one binding; for
/// a list one binding for each of its keys, in list order, each with a copy of
/// the modifiers and of the command. An empty list registers nothing.
pub fn bind_keys(bindings: &mut Bindings, modifiers: Vec<Key>, keys: KeyArg, command: mlua::Value)
    ensures
        final(bindings)@ == old(bindings)@ + expansion(
            key_ids(modifiers@),
            keys.targets(),
            command,
        ),
{
    match keys {
        KeyArg::One(key) => {
            bind_key(bindings, modifiers, key, command);
            assert(bindings@ =~= old(bindings)@ + expansion(
                key_ids(modifiers@),
                keys.targets(),
                command,
            ));
        },
        KeyArg::Many(list) => {
            let mut i: usize = 0;
            while i < list.len()
                invariant
                    i <= list.len(),
                    keys == KeyArg::Many(list),
                    bindings@ == old(bindings)@ + expansion(
                        key_ids(modifiers@),
                        keys.targets().take(i as int),
                        command,
                    ),
                decreases list.len() - i,
            {
                let held = modifiers.clone();
                assert(held@ =~= modifiers@);
                let key = list[i].clone();
                bind_key(bindings, held, key, clone_value(&command));
                assert(bindings@ =~= old(bindings)@ + expansion(
                    key_ids(modifiers@),
                    keys.targets().take(i + 1),
                    command,
                ));
                i += 1;
            }
            assert(keys.targets().take(i as int) =~= keys.targets());
        },
    }
}

} // verus!
