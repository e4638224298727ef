use keybind::binding::{bind_key, bind_keys, push_binding, Binding, Bindings, KeyArg};
use keybind::key::Key;
use mlua::Value;

fn key(id: &str) -> Key {
    Key::new(id.to_string())
}

fn keys(ids: &[&str]) -> Vec<Key> {
    ids.iter().map(|id| key(id)).collect()
}

fn summary(binding: &Binding) -> (Vec<String>, String, Value) {
    (
        binding.modifiers.iter().map(|key| key.keyid.clone()).collect(),
        binding.key.keyid.clone(),
        binding.command.clone(),
    )
}

fn summaries(bindings: &Bindings) -> Vec<(Vec<String>, String, Value)> {
    (0..bindings.len()).map(|index| summary(bindings.get(index).unwrap())).collect()
}

fn strings(ids: &[&str]) -> Vec<String> {
    ids.iter().map(|id| id.to_string()).collect()
}

#[test]
fn new_registry_is_empty() {
    let mut bindings = Bindings::new();
    assert_eq!(bindings.len(), 0);
    assert!(bindings.get(0).is_none());
    assert!(bindings.drain().is_empty());
}

#[test]
fn push_appends_at_the_end() {
    let mut bindings = Bindings::new();
    push_binding(
        &mut bindings,
        Binding { modifiers: keys(&["super"]), key: key("a"), command: Value::Integer(1) },
    );
    push_binding(
        &mut bindings,
        Binding { modifiers: Vec::new(), key: key("h"), command: Value::Boolean(true) },
    );
    assert_eq!(
        summaries(&bindings),
        vec![
            (strings(&["super"]), "a".to_string(), Value::Integer(1)),
            (strings(&[]), "h".to_string(), Value::Boolean(true)),
        ]
    );
    assert!(bindings.get(2).is_none());
}

#[test]
fn bind_key_registers_one_binding() {
    let mut bindings = Bindings::new();
    bind_key(&mut bindings, keys(&["super", "l"]), key("j"), Value::Integer(9));
    assert_eq!(
        summaries(&bindings),
        vec![(strings(&["super", "l"]), "j".to_string(), Value::Integer(9))]
    );
}

#[test]
fn bind_keys_with_one_key_registers_one_binding() {
    let mut bindings = Bindings::new();
    bind_keys(&mut bindings, keys(&["super"]), KeyArg::One(key("a")), Value::Integer(2));
    assert_eq!(
        summaries(&bindings),
        vec![(strings(&["super"]), "a".to_string(), Value::Integer(2))]
    );
}

#[test]
fn bind_keys_with_a_list_registers_each_key() {
    let mut bindings = Bindings::new();
    bind_key(&mut bindings, Vec::new(), key("l"), Value::Nil);
    bind_keys(
        &mut bindings,
        keys(&["super", "a"]),
        KeyArg::Many(keys(&["h", "j", "h"])),
        Value::Integer(3),
    );
    assert_eq!(
        summaries(&bindings),
        vec![
            (strings(&[]), "l".to_string(), Value::Nil),
            (strings(&["super", "a"]), "h".to_string(), Value::Integer(3)),
            (strings(&["super", "a"]), "j".to_string(), Value::Integer(3)),
            (strings(&["super", "a"]), "h".to_string(), Value::Integer(3)),
        ]
    );
}

#[test]
fn bind_keys_with_an_empty_list_registers_nothing() {
    let mut bindings = Bindings::new();
    bind_key(&mut bindings, Vec::new(), key("l"), Value::Nil);
    bind_keys(&mut bindings, keys(&["super"]), KeyArg::Many(Vec::new()), Value::Integer(3));
    assert_eq!(summaries(&bindings), vec![(strings(&[]), "l".to_string(), Value::Nil)]);
}

#[test]
fn drain_hands_out_in_order_and_empties() {
    let mut bindings = Bindings::new();
    bind_keys(&mut bindings, Vec::new(), KeyArg::Many(keys(&["a", "h"])), Value::Integer(1));
    bind_keys(&mut bindings, Vec::new(), KeyArg::One(key("j")), Value::Integer(2));
    let drained = bindings.drain();
    let seen: Vec<(String, Value)> = drained
        .iter()
        .map(|binding| (binding.key.keyid.clone(), binding.command.clone()))
        .collect();
    assert_eq!(
        seen,
        vec![
            ("a".to_string(), Value::Integer(1)),
            ("h".to_string(), Value::Integer(1)),
            ("j".to_string(), Value::Integer(2)),
        ]
    );
    assert_eq!(bindings.len(), 0);
    bind_key(&mut bindings, Vec::new(), key("k"), Value::Nil);
    assert_eq!(bindings.len(), 1);
    assert_eq!(bindings.get(0).unwrap().key.keyid, "k");
}

#[test]
fn keys_are_the_same_by_identifier() {
    let a = key("a");
    let also_a = key("a");
    let h = key("h");
    assert!(a.same_key(&also_a));
    assert!(a.same_key(&a.clone()));
    assert!(!a.same_key(&h));
    assert!(!key("A").same_key(&a));
    assert_eq!(a.id(), "a");
    assert_eq!(a.clone().keyid, "a");
    assert_eq!(key("").id(), "");
}
