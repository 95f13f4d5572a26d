use navi_engine::admin::{append_list_item, delete_list_item, save_config, update_list_item};
use navi_engine::config::{build_schema, read_items, registered_message, RawField, RawSubField};
use navi_engine::json::{decode_string_map, encode_string_map};
use navi_engine::registry::PluginRegistry;
use navi_engine::storage::{append_writes, config_key, delete_writes, list_count_key, list_item_key, stored_count};
use navi_engine::strmap::StrMap;
use navi_engine::types::{ConfigType, PluginSchema};

fn raw(key: &str, kind: Option<&str>, default: &str) -> RawField {
    RawField {
        key: key.to_string(),
        name: None,
        description: None,
        kind: kind.map(|s| s.to_string()),
        default_text: default.to_string(),
        item_schema: Vec::new(),
    }
}

fn item(pairs: &[(&str, &str)]) -> StrMap {
    StrMap::from_pairs(pairs.iter().map(|(k, v)| (k.to_string(), v.to_string())).collect())
}

fn store(pairs: &[(&str, &str)]) -> StrMap {
    item(pairs)
}

#[test]
fn storage_keys_follow_convention() {
    assert_eq!(config_key("greeter", "channel"), "config:greeter:channel");
    assert_eq!(list_count_key("greeter", "rules"), "config:greeter:rules:_count");
    assert_eq!(list_item_key("greeter", "rules", 12), "config:greeter:rules:12");
    assert_eq!(stored_count(Some("3")), 3);
    assert_eq!(stored_count(Some("+4")), 4);
    assert_eq!(stored_count(Some("x")), 0);
    assert_eq!(stored_count(None), 0);
}

#[test]
fn schema_uses_stored_values_and_writes_defaults() {
    let mut st = store(&[("config:p:a", "stored")]);
    let mut with_name = raw("b", Some("number"), "5");
    with_name.name = Some("Bee".into());
    with_name.description = Some("a number".into());
    let raws = vec![raw("a", None, "default"), with_name, raw("c", Some("weird"), "")];
    let (schema, writes) = build_schema("p", &raws, &mut st);
    assert_eq!(schema.fields.len(), 3);
    assert_eq!(schema.fields[0].default_value, "stored");
    assert_eq!(schema.fields[0].name, "a");
    assert_eq!(schema.fields[0].field_type, ConfigType::String);
    assert_eq!(schema.fields[1].default_value, "5");
    assert_eq!(schema.fields[1].name, "Bee");
    assert_eq!(schema.fields[1].description, "a number");
    assert_eq!(schema.fields[1].field_type, ConfigType::Number);
    assert_eq!(schema.fields[2].field_type, ConfigType::String);
    assert_eq!(writes, vec![
        ("config:p:b".to_string(), "5".to_string()),
        ("config:p:c".to_string(), "".to_string()),
    ]);
    assert_eq!(st.get("config:p:b").unwrap(), "5");
    // registering again reads back what was written and writes nothing
    let (again, writes2) = build_schema("p", &raws, &mut st);
    assert!(writes2.is_empty());
    assert_eq!(again.fields[1].default_value, "5");
    assert_eq!(registered_message("p"), "Registered config schema for plugin: p");
}

#[test]
fn list_fields_read_items_and_sub_schema() {
    let mut st = store(&[
        ("config:p:rules:_count", "3"),
        ("config:p:rules:0", "{\"role\":\"1\"}"),
        ("config:p:rules:1", "not json"),
        ("config:p:rules:2", "{\"role\":\"2\",\"level\":\"admin\"}"),
    ]);
    let mut list = raw("rules", Some("list"), "ignored");
    list.item_schema = vec![
        RawSubField { key: Some("role".into()), name: None, kind: Some("role".into()) },
        RawSubField { key: None, name: Some("Nameless".into()), kind: Some("list".into()) },
    ];
    let (schema, writes) = build_schema("p", &vec![list], &mut st);
    assert!(writes.is_empty());
    let f = &schema.fields[0];
    assert_eq!(f.field_type, ConfigType::List);
    assert_eq!(f.default_value, "");
    assert_eq!(f.item_schema.len(), 2);
    assert_eq!(f.item_schema[0].name, "role");
    assert_eq!(f.item_schema[0].field_type, ConfigType::Role);
    assert_eq!(f.item_schema[1].key, "");
    assert_eq!(f.item_schema[1].name, "Nameless");
    assert_eq!(f.item_schema[1].field_type, ConfigType::String);
    assert_eq!(f.list_items.len(), 2);
    assert_eq!(f.list_items[1].get("level").unwrap(), "admin");
    assert_eq!(read_items(&st, "p", "rules").len(), 2);
}

#[test]
fn json_round_trip_of_items() {
    let m = item(&[("b", "2"), ("a", "quote \" and \\ back")]);
    let text = encode_string_map(&m);
    let back = decode_string_map(&text).unwrap();
    assert_eq!(back.get("a").unwrap(), "quote \" and \\ back");
    assert_eq!(back.get("b").unwrap(), "2");
    assert_eq!(back.len(), 2);
    assert!(decode_string_map("[1,2]").is_none());
    assert!(decode_string_map("{\"a\":1}").is_none());
}

fn registry_with_list() -> PluginRegistry {
    let mut st = store(&[("config:p:rules:_count", "1"), ("config:p:rules:0", "{\"role\":\"1\"}")]);
    let (schema, _) = build_schema("p", &vec![raw("rules", Some("list"), ""), raw("name", None, "x")], &mut st);
    let mut reg = PluginRegistry::new();
    reg.register("p".into(), schema);
    reg
}

#[test]
fn admin_commands_edit_registry_and_store() {
    let mut reg = registry_with_list();
    let ((k, v), log) = save_config(&mut reg, "p", "name", "y".into());
    assert_eq!((k.as_str(), v.as_str()), ("config:p:name", "y"));
    assert_eq!(log, "Saved config: config:p:name -> y");
    assert_eq!(reg.field_at(0, 1).unwrap().default_value, "y");

    let (writes, log) = append_list_item(&mut reg, "p", "rules", item(&[("role", "2")]), Some("1"));
    assert_eq!(log, "List item appended: p:rules");
    assert_eq!(writes[0].0, "config:p:rules:1");
    assert_eq!(decode_string_map(&writes[0].1).unwrap().get("role").unwrap(), "2");
    assert_eq!(writes[1], ("config:p:rules:_count".to_string(), "2".to_string()));
    assert_eq!(reg.field_at(0, 0).unwrap().list_items.len(), 2);

    let ((k, _), log) = update_list_item(&mut reg, "p", "rules", 0, item(&[("role", "9")]));
    assert_eq!(k, "config:p:rules:0");
    assert_eq!(log, "List item updated: p:rules[0]");
    assert_eq!(reg.field_at(0, 0).unwrap().list_items[0].get("role").unwrap(), "9");

    let slots = vec![Some("A".to_string()), None, Some("C".to_string())];
    let (writes, log) = delete_list_item(&mut reg, "p", "rules", 0, &slots);
    assert_eq!(log, "List item deleted: p:rules[0]");
    assert_eq!(writes.unwrap(), vec![
        ("config:p:rules:0".to_string(), "C".to_string()),
        ("config:p:rules:_count".to_string(), "1".to_string()),
    ]);
    assert_eq!(reg.field_at(0, 0).unwrap().list_items.len(), 1);

    let (writes, _) = delete_list_item(&mut reg, "p", "rules", 5, &slots);
    assert!(writes.is_none());
    assert_eq!(reg.field_at(0, 0).unwrap().list_items.len(), 1);
}

#[test]
fn append_then_delete_writes() {
    let w = append_writes("p", "k", Some("2"), "{}".into());
    assert_eq!(w, vec![
        ("config:p:k:2".to_string(), "{}".to_string()),
        ("config:p:k:_count".to_string(), "3".to_string()),
    ]);
    let w = append_writes("p", "k", None, "v".into());
    assert_eq!(w[0].0, "config:p:k:0");
    assert!(delete_writes("p", "k", &vec![], 0).is_none());
}

#[test]
fn registry_keeps_plugins_in_name_order() {
    let mut reg = PluginRegistry::new();
    reg.register("zeta".into(), PluginSchema { fields: vec![] });
    reg.register("alpha".into(), PluginSchema { fields: vec![] });
    reg.register("mid".into(), PluginSchema { fields: vec![] });
    reg.register("alpha".into(), PluginSchema { fields: vec![] });
    assert_eq!(reg.len(), 3);
    assert_eq!(reg.name_at(0), "alpha");
    assert_eq!(reg.name_at(1), "mid");
    assert_eq!(reg.name_at(2), "zeta");
    assert_eq!(reg.find("mid"), Some(1));
    assert_eq!(reg.find("nope"), None);
}

fn apply(store: &mut StrMap, writes: Vec<(String, String)>) {
    for (k, v) in writes {
        store.insert(k, v);
    }
}

#[test]
fn saved_and_listed_values_survive_registration() {
    let raws = vec![raw("rules", Some("list"), ""), raw("name", None, "x")];
    let mut st = store(&[("config:p:rules:_count", "1"), ("config:p:rules:0", "{\"role\":\"1\"}")]);
    let (schema, writes) = build_schema("p", &raws, &mut st);
    let mut reg = PluginRegistry::new();
    reg.register("p".into(), schema);
    assert_eq!(writes.len(), 1);

    let ((k, v), _) = save_config(&mut reg, "p", "name", "saved".into());
    st.insert(k, v);
    let count = st.get("config:p:rules:_count").cloned();
    let (w, _) = append_list_item(&mut reg, "p", "rules", item(&[("role", "2")]), count.as_deref());
    apply(&mut st, w);

    let (again, writes) = build_schema("p", &raws, &mut st);
    assert!(writes.is_empty());
    assert_eq!(again.fields[1].default_value, "saved");
    assert_eq!(again.fields[0].list_items.len(), 2);
    assert_eq!(again.fields[0].list_items[1].get("role").unwrap(), "2");

    let slots: Vec<Option<String>> = (0..2).map(|i| st.get(&list_item_key("p", "rules", i)).cloned()).collect();
    let (w, _) = delete_list_item(&mut reg, "p", "rules", 0, &slots);
    apply(&mut st, w.unwrap());
    let items = read_items(&st, "p", "rules");
    assert_eq!(items.len(), 1);
    assert_eq!(items[0].get("role").unwrap(), "2");
    assert_eq!(reg.field_at(0, 0).unwrap().list_items.len(), 1);
}
