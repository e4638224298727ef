use keybind::error::{DescriptorError, Fault, SetupError};
use keybind::host::{
    create_key_global, install_key_constants, key_constants, prepare, run_prelude, PRELUDE,
};
use keybind::key::Key;
use keybind::parse::{
    carries_marker, check_descriptor, confirm_descriptor, expect_metatable, expect_table,
    gather_keys, is_metatable, key_named, parse_key, parse_key_list, read_value, same_object,
    INDEX_FIELD, KEYID_FIELD, KEY_TYPE,
};
use mlua::{Lua, Table, Value};

fn host_with_keys() -> (Lua, Table) {
    let lua = Lua::new();
    let descriptor = prepare(&lua).expect("the prelude and the key constants install");
    (lua, descriptor)
}

fn table_from(lua: &Lua, source: &str) -> Table {
    lua.load(source).eval::<Table>().expect("the expression evaluates to a table")
}

fn value_from(lua: &Lua, source: &str) -> Value {
    lua.load(source).eval::<Value>().expect("the expression evaluates")
}

fn id_of(parsed: Result<Option<Key>, Fault>) -> Option<String> {
    parsed.expect("the table is read").map(|key| key.keyid)
}

fn ids_in(keys: Vec<Key>) -> Vec<String> {
    keys.into_iter().map(|key| key.keyid).collect()
}

#[test]
fn every_key_constant_is_a_key() {
    let (lua, descriptor) = host_with_keys();
    let expected = [("SUPER", "super"), ("A", "a"), ("H", "h"), ("J", "j"), ("K", "k"), ("L", "l")];
    assert_eq!(key_constants(), expected.to_vec());
    for (name, keyid) in expected {
        let constant = table_from(&lua, name);
        assert_eq!(id_of(parse_key(&lua, &descriptor, &constant)), Some(keyid.to_string()));
        assert!(is_metatable(&lua, &constant, &descriptor));
    }
}

#[test]
fn names_of_the_fields_are_fixed() {
    assert_eq!(KEY_TYPE, "Key");
    assert_eq!(INDEX_FIELD, "__index");
    assert_eq!(KEYID_FIELD, "keyid");
}

#[test]
fn key_converts_to_text_in_scripts() {
    let (lua, _) = host_with_keys();
    let text: String = lua.load("return tostring(SUPER)").eval().unwrap();
    assert_eq!(text, "<key:super>");
    let text: String = lua.load("return tostring(L)").eval().unwrap();
    assert_eq!(text, "<key:l>");
}

#[test]
fn table_with_keyid_but_no_descriptor_is_no_key() {
    let (lua, descriptor) = host_with_keys();
    let forged = table_from(&lua, "{keyid = \"a\"}");
    assert_eq!(id_of(parse_key(&lua, &descriptor, &forged)), None);
    assert!(!is_metatable(&lua, &forged, &descriptor));
}

#[test]
fn look_alike_descriptor_makes_no_key() {
    let (lua, descriptor) = host_with_keys();
    let forged = table_from(
        &lua,
        "(function()\n\
           local Fake = {}\n\
           Fake.__index = Fake\n\
           Fake.__tostring = Key.__tostring\n\
           return setmetatable({keyid = \"a\"}, Fake)\n\
         end)()",
    );
    assert_eq!(id_of(parse_key(&lua, &descriptor, &forged)), None);
    let inherited = table_from(&lua, "setmetatable({keyid = \"a\"}, {__index = Key})");
    assert_eq!(id_of(parse_key(&lua, &descriptor, &inherited)), None);
}

#[test]
fn second_marker_under_the_same_name_makes_no_key() {
    let (lua, descriptor) = host_with_keys();
    let genuine = table_from(&lua, "A");
    lua.load("Key = {}\nKey.__index = Key").exec().unwrap();
    let other_marker = table_from(&lua, "Key");
    assert_ne!(other_marker, descriptor);
    let forged = table_from(&lua, "setmetatable({keyid = \"x\"}, Key)");
    assert_eq!(id_of(parse_key(&lua, &descriptor, &forged)), None);
    assert_eq!(id_of(parse_key(&lua, &descriptor, &genuine)), Some("a".to_string()));
    lua.load("Key = nil").exec().unwrap();
    assert_eq!(id_of(parse_key(&lua, &descriptor, &genuine)), Some("a".to_string()));
}

#[test]
fn descriptor_itself_is_no_key() {
    let (lua, descriptor) = host_with_keys();
    assert_eq!(id_of(parse_key(&lua, &descriptor, &descriptor)), None);
    assert_eq!(table_from(&lua, "Key"), descriptor);
}

#[test]
fn key_made_by_a_script_with_the_descriptor_is_a_key() {
    let (lua, descriptor) = host_with_keys();
    let made = table_from(&lua, "setmetatable({keyid = \"x\"}, Key)");
    assert_eq!(id_of(parse_key(&lua, &descriptor, &made)), Some("x".to_string()));
}

#[test]
fn two_objects_with_one_identifier_are_the_same_key() {
    let (lua, descriptor) = host_with_keys();
    create_key_global(&lua, &descriptor, "A2", "a").unwrap();
    let first = table_from(&lua, "A");
    let second = table_from(&lua, "A2");
    assert_ne!(first, second);
    let first = parse_key(&lua, &descriptor, &first).unwrap().unwrap();
    let second = parse_key(&lua, &descriptor, &second).unwrap().unwrap();
    assert!(first.same_key(&second));
    assert_eq!(first.keyid, "a");
}

#[test]
fn key_without_identifier_is_refused() {
    let (lua, descriptor) = host_with_keys();
    let nameless = table_from(&lua, "setmetatable({}, Key)");
    assert_eq!(parse_key(&lua, &descriptor, &nameless).unwrap_err(), Fault::NoKeyId);
    let misnamed = table_from(&lua, "setmetatable({keyid = {}}, Key)");
    assert_eq!(parse_key(&lua, &descriptor, &misnamed).unwrap_err(), Fault::NoKeyId);
    let list = table_from(&lua, "{A, setmetatable({}, Key)}");
    assert_eq!(parse_key_list(&lua, &descriptor, &list).unwrap_err(), Fault::NoKeyId);
}

#[test]
fn identifier_is_read_from_the_key_itself() {
    let (lua, descriptor) = host_with_keys();
    // An identifier that only a metatable could answer for is none, and the
    // metatable is not asked: the function below would never return.
    lua.load("setmetatable(Key, {__index = function() while true do end end})").exec().unwrap();
    let nameless = table_from(&lua, "setmetatable({}, Key)");
    assert_eq!(parse_key(&lua, &descriptor, &nameless).unwrap_err(), Fault::NoKeyId);
    let (lua, descriptor) = host_with_keys();
    lua.load("Key.keyid = \"inherited\"").exec().unwrap();
    let heir = table_from(&lua, "setmetatable({}, Key)");
    assert_eq!(parse_key(&lua, &descriptor, &heir).unwrap_err(), Fault::NoKeyId);
}

#[test]
fn parse_key_refuses_a_table_of_another_interpreter() {
    let (lua, descriptor) = host_with_keys();
    let (other, other_descriptor) = host_with_keys();
    let foreign = table_from(&other, "A");
    assert_eq!(parse_key(&lua, &descriptor, &foreign).unwrap_err(), Fault::Foreign);
    assert_eq!(parse_key_list(&lua, &descriptor, &foreign).unwrap_err(), Fault::Foreign);
    assert_eq!(id_of(parse_key(&other, &other_descriptor, &foreign)), Some("a".to_string()));
    let own = table_from(&lua, "A");
    assert_eq!(
        parse_key(&lua, &other_descriptor, &own).unwrap_err(),
        Fault::Descriptor(DescriptorError::Foreign)
    );
}

#[test]
fn parse_key_survives_a_dropped_interpreter() {
    let (lua, descriptor) = host_with_keys();
    let orphan = {
        let (other, _) = host_with_keys();
        table_from(&other, "A")
    };
    assert_eq!(parse_key(&lua, &descriptor, &orphan).unwrap_err(), Fault::Foreign);
    assert!(!is_metatable(&lua, &orphan, &descriptor));
    assert!(!same_object(&lua, &orphan, &orphan));
    assert_eq!(confirm_descriptor(&lua, &orphan).unwrap_err(), DescriptorError::Foreign);
}

#[test]
fn list_is_read_in_order() {
    let (lua, descriptor) = host_with_keys();
    let list = table_from(&lua, "{L, K, J, H, A, SUPER, L}");
    assert_eq!(
        ids_in(parse_key_list(&lua, &descriptor, &list).unwrap()),
        vec!["l", "k", "j", "h", "a", "super", "l"]
    );
    let empty = table_from(&lua, "{}");
    assert!(parse_key_list(&lua, &descriptor, &empty).unwrap().is_empty());
}

#[test]
fn list_need_not_be_a_sequence() {
    let (lua, descriptor) = host_with_keys();
    let named = table_from(&lua, "{trigger = J}");
    assert_eq!(ids_in(parse_key_list(&lua, &descriptor, &named).unwrap()), vec!["j"]);
    let both = table_from(&lua, "{left = H, right = L}");
    let mut found = ids_in(parse_key_list(&lua, &descriptor, &both).unwrap());
    found.sort();
    assert_eq!(found, vec!["h", "l"]);
    let holed = table_from(&lua, "{[1] = A, [3] = K}");
    let mut found = ids_in(parse_key_list(&lua, &descriptor, &holed).unwrap());
    found.sort();
    assert_eq!(found, vec!["a", "k"]);
}

#[test]
fn list_with_a_stranger_is_refused_at_its_place() {
    let (lua, descriptor) = host_with_keys();
    let list = table_from(&lua, "{A, H, 7, J}");
    assert_eq!(
        parse_key_list(&lua, &descriptor, &list).unwrap_err(),
        Fault::NotAKey { index: 2 }
    );
    let list = table_from(&lua, "{{keyid = \"a\"}, H}");
    assert_eq!(
        parse_key_list(&lua, &descriptor, &list).unwrap_err(),
        Fault::NotAKey { index: 0 }
    );
    let list = table_from(&lua, "{A, {H}}");
    assert_eq!(
        parse_key_list(&lua, &descriptor, &list).unwrap_err(),
        Fault::NotAKey { index: 1 }
    );
}

#[test]
fn long_list_is_read_one_entry_at_a_time() {
    let (lua, descriptor) = host_with_keys();
    let list = table_from(
        &lua,
        "(function()\n\
           local list = {}\n\
           for i = 1, 20000 do list[i] = setmetatable({keyid = \"k\" .. i}, Key) end\n\
           return list\n\
         end)()",
    );
    let keys = ids_in(parse_key_list(&lua, &descriptor, &list).unwrap());
    assert_eq!(keys.len(), 20000);
    assert_eq!(keys[0], "k1");
    assert_eq!(keys[7999], "k8000");
    assert_eq!(keys[19999], "k20000");
    lua.load("Long = {}\nfor i = 1, 20000 do Long[i] = {i} end\nLong[1] = A").exec().unwrap();
    let strangers = table_from(&lua, "Long");
    assert_eq!(
        parse_key_list(&lua, &descriptor, &strangers).unwrap_err(),
        Fault::NotAKey { index: 1 }
    );
}

#[test]
fn value_in_a_list_is_read_as_a_key_or_none() {
    let (lua, descriptor) = host_with_keys();
    let read = |source: &str| read_value(&lua, &descriptor, &value_from(&lua, source));
    assert_eq!(id_of(read("J")), Some("j".to_string()));
    assert_eq!(id_of(read("{}")), None);
    assert_eq!(id_of(read("{keyid = \"j\"}")), None);
    for source in ["7", "\"J\"", "nil", "true", "function() end"] {
        assert_eq!(id_of(read(source)), None);
    }
    assert_eq!(read("setmetatable({}, Key)").unwrap_err(), Fault::NoKeyId);
    let (other, _) = host_with_keys();
    assert_eq!(id_of(read_value(&lua, &descriptor, &value_from(&other, "J"))), None);
    lua.load("Key.__index = nil").exec().unwrap();
    assert_eq!(read("J").unwrap_err(), Fault::Descriptor(DescriptorError::NoIndex));
    assert_eq!(id_of(read("7")), None);
}

#[test]
fn list_with_a_table_of_another_interpreter_is_refused_at_its_place() {
    let (lua, descriptor) = host_with_keys();
    let (other, _) = host_with_keys();
    let list = table_from(&lua, "{A, H}");
    assert_eq!(ids_in(parse_key_list(&lua, &descriptor, &list).unwrap()), vec!["a", "h"]);
    let foreign = table_from(&other, "{A, H}");
    assert_eq!(parse_key_list(&lua, &descriptor, &foreign).unwrap_err(), Fault::Foreign);
}

#[test]
fn keys_are_gathered_in_order() {
    let none: Vec<Result<Option<Key>, Fault>> = Vec::new();
    assert!(gather_keys(&none).unwrap().is_empty());
    let reads = vec![
        Ok(Some(Key::new("l".to_string()))),
        Ok(Some(Key::new("a".to_string()))),
        Ok(Some(Key::new("l".to_string()))),
    ];
    assert_eq!(ids_in(gather_keys(&reads).unwrap()), vec!["l", "a", "l"]);
}

#[test]
fn first_read_without_a_key_refuses_the_list() {
    let key = || Ok(Some(Key::new("a".to_string())));
    assert_eq!(gather_keys(&vec![Ok(None)]).unwrap_err(), Fault::NotAKey { index: 0 });
    assert_eq!(
        gather_keys(&vec![key(), key(), key(), Ok(None), key()]).unwrap_err(),
        Fault::NotAKey { index: 3 }
    );
    assert_eq!(
        gather_keys(&vec![key(), Ok(None), Err(Fault::NoKeyId)]).unwrap_err(),
        Fault::NotAKey { index: 1 }
    );
    assert_eq!(
        gather_keys(&vec![key(), Err(Fault::NoKeyId), Ok(None)]).unwrap_err(),
        Fault::NoKeyId
    );
    assert_eq!(
        gather_keys(&vec![Err(Fault::Descriptor(DescriptorError::NoIndex)), key()]).unwrap_err(),
        Fault::Descriptor(DescriptorError::NoIndex)
    );
    assert_eq!(gather_keys(&vec![key(), Err(Fault::Foreign)]).unwrap_err(), Fault::Foreign);
}

#[test]
fn nothing_is_read_after_the_first_stranger() {
    let (lua, descriptor) = host_with_keys();
    // The third element would be a fault of its own; the second decides.
    let list = table_from(&lua, "{J, {}, setmetatable({}, Key)}");
    assert_eq!(
        parse_key_list(&lua, &descriptor, &list).unwrap_err(),
        Fault::NotAKey { index: 1 }
    );
    let list = table_from(&lua, "{J, setmetatable({}, Key), {}}");
    assert_eq!(parse_key_list(&lua, &descriptor, &list).unwrap_err(), Fault::NoKeyId);
}

#[test]
fn key_is_named_by_what_was_found() {
    assert_eq!(key_named(Ok("super".to_string())).unwrap().keyid, "super");
    assert_eq!(key_named(Ok(String::new())).unwrap().keyid, "");
    assert_eq!(key_named(Err(mlua::Error::runtime("nil"))).unwrap_err(), Fault::NoKeyId);
}

#[test]
fn marker_is_the_descriptor_itself() {
    let (lua, descriptor) = host_with_keys();
    let again = table_from(&lua, "Key");
    let other = table_from(&lua, "{}");
    assert!(carries_marker(&lua, &Some(descriptor.clone()), &descriptor));
    assert!(carries_marker(&lua, &Some(again.clone()), &descriptor));
    assert!(!carries_marker(&lua, &Some(other.clone()), &descriptor));
    assert!(!carries_marker(&lua, &None, &descriptor));
    assert!(same_object(&lua, &descriptor, &again));
    assert!(!same_object(&lua, &descriptor, &other));
    let (elsewhere, foreign) = host_with_keys();
    assert!(!same_object(&lua, &descriptor, &foreign));
    assert!(!same_object(&lua, &foreign, &foreign));
    assert!(!carries_marker(&lua, &Some(foreign.clone()), &descriptor));
    assert!(same_object(&elsewhere, &foreign, &foreign));
}

#[test]
fn is_metatable_asks_for_identity() {
    let (lua, descriptor) = host_with_keys();
    let key = table_from(&lua, "H");
    assert!(is_metatable(&lua, &key, &descriptor));
    assert!(!is_metatable(&lua, &key, &key));
    assert!(!is_metatable(&lua, &descriptor, &descriptor));
    let twin = table_from(&lua, "{__index = Key, __tostring = Key.__tostring}");
    assert!(!is_metatable(&lua, &key, &twin));
    let plain = table_from(&lua, "{}");
    assert!(!is_metatable(&lua, &plain, &descriptor));
    let own = table_from(&lua, "(function() local t = {}; return setmetatable(t, t) end)()");
    assert!(is_metatable(&lua, &own, &own));
}

#[test]
fn descriptor_is_found_under_its_name() {
    let (lua, descriptor) = host_with_keys();
    let found = expect_metatable(&lua, "Key").unwrap();
    assert_eq!(found, descriptor);
    assert_eq!(found, table_from(&lua, "Key"));
    assert_ne!(found, lua.globals());
}

#[test]
fn descriptor_must_exist() {
    let lua = Lua::new();
    assert_eq!(expect_metatable(&lua, "Key").unwrap_err(), DescriptorError::Missing);
    lua.load("Key = 5").exec().unwrap();
    assert_eq!(expect_metatable(&lua, "Key").unwrap_err(), DescriptorError::Missing);
    let (prepared, _) = host_with_keys();
    assert_eq!(expect_metatable(&prepared, "Keys").unwrap_err(), DescriptorError::Missing);
}

#[test]
fn descriptor_is_looked_up_in_the_globals_themselves() {
    let lua = Lua::new();
    lua.load(
        "local Hidden = {}\n\
         Hidden.__index = Hidden\n\
         setmetatable(_G, {__index = function(_, name)\n\
           if name == \"Key\" then return Hidden end\n\
         end})",
    )
    .exec()
    .unwrap();
    assert!(value_from(&lua, "Key").is_table());
    assert_eq!(expect_metatable(&lua, "Key").unwrap_err(), DescriptorError::Missing);
}

#[test]
fn descriptor_must_have_an_index() {
    let lua = Lua::new();
    lua.load("Key = {}").exec().unwrap();
    assert_eq!(expect_metatable(&lua, "Key").unwrap_err(), DescriptorError::NoIndex);
    lua.load("Key.__index = function() end").exec().unwrap();
    assert_eq!(expect_metatable(&lua, "Key").unwrap_err(), DescriptorError::NoIndex);
    lua.load("Key = setmetatable({}, {__index = function(t) return t end})").exec().unwrap();
    assert_eq!(expect_metatable(&lua, "Key").unwrap_err(), DescriptorError::NoIndex);
    assert_eq!(
        confirm_descriptor(&lua, &table_from(&lua, "{}")).unwrap_err(),
        DescriptorError::NoIndex
    );
}

#[test]
fn descriptor_must_be_its_own_index() {
    let lua = Lua::new();
    lua.load("Key = {}\nKey.__index = {}").exec().unwrap();
    assert_eq!(expect_metatable(&lua, "Key").unwrap_err(), DescriptorError::NotSelfReferential);
    assert_eq!(
        confirm_descriptor(&lua, &table_from(&lua, "Key")).unwrap_err(),
        DescriptorError::NotSelfReferential
    );
    let a = table_from(&lua, "{}");
    let b = table_from(&lua, "{}");
    assert_eq!(check_descriptor(&lua, &a, Ok(a.clone())), Ok(()));
    assert_eq!(check_descriptor(&lua, &a, Ok(b)), Err(DescriptorError::NotSelfReferential));
    assert_eq!(
        check_descriptor(&lua, &a, Err(mlua::Error::runtime("nil"))),
        Err(DescriptorError::NoIndex)
    );
    let own = table_from(&lua, "(function() local t = {}; t.__index = t; return t end)()");
    assert_eq!(confirm_descriptor(&lua, &own), Ok(()));
}

#[test]
fn malformed_descriptor_stops_parsing() {
    let (lua, descriptor) = host_with_keys();
    let key = table_from(&lua, "A");
    let list = table_from(&lua, "{A}");
    lua.load("Key.__index = {}").exec().unwrap();
    let fault = Fault::Descriptor(DescriptorError::NotSelfReferential);
    assert_eq!(parse_key(&lua, &descriptor, &key).unwrap_err(), fault);
    assert_eq!(parse_key_list(&lua, &descriptor, &list).unwrap_err(), fault);
    assert!(!fault.is_type_error());
    lua.load("Key.__index = nil").exec().unwrap();
    assert_eq!(
        parse_key(&lua, &descriptor, &key).unwrap_err(),
        Fault::Descriptor(DescriptorError::NoIndex)
    );
    lua.load("Key.__index = Key").exec().unwrap();
    assert_eq!(id_of(parse_key(&lua, &descriptor, &key)), Some("a".to_string()));
}

#[test]
fn every_script_fault_is_a_type_error() {
    assert!(Fault::NotATable.is_type_error());
    assert!(Fault::Foreign.is_type_error());
    assert!(Fault::NotAKey { index: 0 }.is_type_error());
    assert!(Fault::NoKeyId.is_type_error());
    assert!(!Fault::Descriptor(DescriptorError::Missing).is_type_error());
    assert!(!Fault::Descriptor(DescriptorError::NoIndex).is_type_error());
    assert!(!Fault::Descriptor(DescriptorError::NotSelfReferential).is_type_error());
    assert!(!Fault::Descriptor(DescriptorError::Foreign).is_type_error());
    assert!(!Fault::Unreadable.is_type_error());
}

#[test]
fn list_argument_must_be_a_table_of_the_interpreter() {
    let (lua, _) = host_with_keys();
    let table = value_from(&lua, "{A}");
    assert_eq!(expect_table(&lua, &table).unwrap(), table.as_table().unwrap());
    for source in ["5", "\"A\"", "nil", "true", "function() end"] {
        assert_eq!(expect_table(&lua, &value_from(&lua, source)).unwrap_err(), Fault::NotATable);
    }
    let (other, _) = host_with_keys();
    assert_eq!(expect_table(&lua, &value_from(&other, "{A}")).unwrap_err(), Fault::Foreign);
}

#[test]
fn creating_a_key_global_twice_keeps_keys_keys() {
    let (lua, descriptor) = host_with_keys();
    let before = table_from(&lua, "A");
    create_key_global(&lua, &descriptor, "A", "a").unwrap();
    create_key_global(&lua, &descriptor, "A", "a").unwrap();
    let after = table_from(&lua, "A");
    assert_ne!(before, after);
    assert_eq!(id_of(parse_key(&lua, &descriptor, &before)), Some("a".to_string()));
    assert_eq!(id_of(parse_key(&lua, &descriptor, &after)), Some("a".to_string()));
    assert_eq!(
        id_of(parse_key(&lua, &descriptor, &table_from(&lua, "SUPER"))),
        Some("super".to_string())
    );
    let list = table_from(&lua, "{A, SUPER}");
    assert_eq!(ids_in(parse_key_list(&lua, &descriptor, &list).unwrap()), vec!["a", "super"]);
    install_key_constants(&lua, &descriptor).unwrap();
    for (name, keyid) in key_constants() {
        assert_eq!(
            id_of(parse_key(&lua, &descriptor, &table_from(&lua, name))),
            Some(keyid.to_string())
        );
    }
    assert_eq!(id_of(parse_key(&lua, &descriptor, &after)), Some("a".to_string()));
}

#[test]
fn preparing_twice_gives_a_new_descriptor_and_new_keys() {
    let (lua, first) = host_with_keys();
    let old_key = table_from(&lua, "A");
    let second = prepare(&lua).unwrap();
    assert_ne!(first, second);
    for (name, keyid) in key_constants() {
        assert_eq!(
            id_of(parse_key(&lua, &second, &table_from(&lua, name))),
            Some(keyid.to_string())
        );
    }
    assert_eq!(id_of(parse_key(&lua, &first, &old_key)), Some("a".to_string()));
    assert_eq!(id_of(parse_key(&lua, &second, &old_key)), None);
}

#[test]
fn new_key_global_is_published_under_its_name() {
    let (lua, descriptor) = host_with_keys();
    assert!(value_from(&lua, "RETURN").is_nil());
    create_key_global(&lua, &descriptor, "RETURN", "return").unwrap();
    let made = table_from(&lua, "RETURN");
    assert_eq!(id_of(parse_key(&lua, &descriptor, &made)), Some("return".to_string()));
    assert_eq!(made.raw_get::<String>("keyid").unwrap(), "return");
    assert_eq!(made.metatable().unwrap(), descriptor);
    let text: String = lua.load("return tostring(RETURN)").eval().unwrap();
    assert_eq!(text, "<key:return>");
}

#[test]
fn key_global_needs_a_descriptor() {
    let lua = Lua::new();
    let plain = table_from(&lua, "{}");
    match create_key_global(&lua, &plain, "A", "a") {
        Err(SetupError::Descriptor(DescriptorError::NoIndex)) => {}
        other => panic!("expected a descriptor without index, got {:?}", other),
    }
    assert!(value_from(&lua, "A").is_nil());
    match install_key_constants(&lua, &plain) {
        Err(SetupError::Descriptor(DescriptorError::NoIndex)) => {}
        other => panic!("expected a descriptor without index, got {:?}", other),
    }
    assert!(value_from(&lua, "SUPER").is_nil());
    let (_, foreign) = host_with_keys();
    match create_key_global(&lua, &foreign, "A", "a") {
        Err(SetupError::Descriptor(DescriptorError::Foreign)) => {}
        other => panic!("expected a foreign descriptor, got {:?}", other),
    }
    assert!(value_from(&lua, "A").is_nil());
}

#[test]
fn sealed_globals_do_not_stop_the_setup() {
    let lua = Lua::new();
    lua.load(
        "setmetatable(_G, {\n\
           __newindex = function() error(\"sealed\") end,\n\
           __index = function() error(\"sealed\") end,\n\
         })",
    )
    .exec()
    .unwrap();
    let descriptor = prepare(&lua).expect("the globals are written raw");
    create_key_global(&lua, &descriptor, "RETURN", "return").unwrap();
    let made: Table = lua.globals().raw_get("RETURN").unwrap();
    assert_eq!(id_of(parse_key(&lua, &descriptor, &made)), Some("return".to_string()));
    let published: Table = lua.globals().raw_get("Key").unwrap();
    assert_eq!(published, descriptor);
}

#[test]
fn prelude_sees_no_global() {
    let lua = Lua::new();
    lua.load("Key = \"taken\"").exec().unwrap();
    run_prelude(&lua).unwrap();
    let descriptor = expect_metatable(&lua, KEY_TYPE).unwrap();
    assert_eq!(descriptor.raw_get::<Table>("__index").unwrap(), descriptor);
}

#[test]
fn prelude_defines_the_descriptor() {
    let lua = Lua::new();
    run_prelude(&lua).unwrap();
    let descriptor = expect_metatable(&lua, KEY_TYPE).unwrap();
    assert_eq!(descriptor.raw_get::<Table>("__index").unwrap(), descriptor);
    assert!(descriptor.raw_get::<Value>("__tostring").unwrap().is_function());
    assert!(value_from(&lua, "SUPER").is_nil());
    assert!(PRELUDE.contains("Key.__index = Key"));
    install_key_constants(&lua, &descriptor).unwrap();
    assert!(value_from(&lua, "SUPER").is_table());
}
