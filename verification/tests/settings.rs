use live_transcriber::settings::{
    get_api_key, get_settings, get_str, reset_settings, set_api_key, set_settings, setting_keys,
    StoreOp, API_KEY, DEVICE_NAME, LANGUAGE, SETTING_COUNT, SHORTCUT,
};
use serde_json::Value;
use std::collections::BTreeMap;

fn parsed(text: &str) -> Value {
    serde_json::from_str(text).expect("JSON")
}

fn apply(store: &mut BTreeMap<String, Value>, ops: Vec<StoreOp>) -> usize {
    let mut saves = 0;
    for op in ops {
        match op {
            StoreOp::Put(key, value) => {
                store.insert(key, value);
            }
            StoreOp::Delete(key) => {
                store.remove(&key);
            }
            StoreOp::Save => saves += 1,
        }
    }
    saves
}

fn read(store: &BTreeMap<String, Value>) -> Value {
    get_settings(setting_keys().iter().map(|k| store.get(k).cloned()).collect())
}

#[test]
fn settings_have_names() {
    assert_eq!(
        setting_keys(),
        vec![
            "api_key",
            "device_name",
            "language",
            "opacity",
            "font_size",
            "max_words",
            "auto_start",
            "shortcut",
            "show_advanced",
        ]
    );
    assert_eq!(setting_keys().len(), SETTING_COUNT);
    for key in [API_KEY, DEVICE_NAME, LANGUAGE, SHORTCUT] {
        assert!(setting_keys().contains(&key.to_string()));
    }
}

#[test]
fn settings_are_read_as_one_object() {
    let mut found: Vec<Option<Value>> = vec![None; 9];
    assert_eq!(get_settings(found.clone()), parsed("{}"));
    found[0] = Some(parsed("\"key\""));
    found[3] = Some(parsed("0.5"));
    found[8] = Some(parsed("null"));
    assert_eq!(
        get_settings(found),
        parsed("{\"api_key\":\"key\",\"opacity\":0.5,\"show_advanced\":null}")
    );
    assert_eq!(get_settings(vec![Some(parsed("1"))]), parsed("{\"api_key\":1}"));
}

#[test]
fn what_is_set_is_read() {
    let mut store: BTreeMap<String, Value> = BTreeMap::new();
    store.insert("language".to_string(), parsed("\"de\""));
    store.insert("other".to_string(), parsed("[1]"));
    let values = parsed("{\"opacity\":0.8,\"language\":\"fr\",\"unknown\":{\"a\":1}}");
    assert_eq!(apply(&mut store, set_settings(values)), 1);
    assert_eq!(read(&store), parsed("{\"language\":\"fr\",\"opacity\":0.8}"));
    assert_eq!(store.get("unknown"), Some(&parsed("{\"a\":1}")));
    assert_eq!(store.get("other"), Some(&parsed("[1]")));
}

#[test]
fn only_objects_are_set() {
    for values in ["null", "[1,2]", "\"api_key\"", "3", "true"] {
        let ops = set_settings(parsed(values));
        assert_eq!(ops.len(), 1);
        assert!(matches!(ops[0], StoreOp::Save));
    }
}

#[test]
fn setting_keeps_the_order_of_members_and_saves_last() {
    let ops = set_settings(parsed("{\"b\":1,\"a\":2}"));
    assert_eq!(ops.len(), 3);
    assert!(matches!(&ops[0], StoreOp::Put(key, _) if key == "a"));
    assert!(matches!(&ops[1], StoreOp::Put(key, _) if key == "b"));
    assert!(matches!(ops[2], StoreOp::Save));
}

#[test]
fn a_reset_forgets_settings_only() {
    let mut store: BTreeMap<String, Value> = BTreeMap::new();
    for key in setting_keys() {
        store.insert(key, parsed("1"));
    }
    store.insert("other".to_string(), parsed("2"));
    assert_eq!(apply(&mut store, reset_settings()), 1);
    assert_eq!(read(&store), parsed("{}"));
    assert_eq!(store.len(), 1);
    assert_eq!(store.get("other"), Some(&parsed("2")));
    for key in setting_keys() {
        assert_eq!(store.get(&key), None);
    }
}

#[test]
fn the_api_key_is_kept() {
    let mut store: BTreeMap<String, Value> = BTreeMap::new();
    assert_eq!(get_api_key(&store.get(API_KEY).cloned()), None);
    assert_eq!(apply(&mut store, set_api_key("first".to_string())), 1);
    assert_eq!(apply(&mut store, set_api_key("sec\"ond".to_string())), 1);
    assert_eq!(get_api_key(&store.get(API_KEY).cloned()), Some("sec\"ond".to_string()));
    assert_eq!(store.len(), 1);
}

#[test]
fn only_texts_are_read_as_text() {
    assert_eq!(get_str(&Some(parsed("\"x\""))), Some("x".to_string()));
    assert_eq!(get_str(&Some(parsed("\"\""))), Some(String::new()));
    for value in ["1", "null", "true", "[\"x\"]", "{\"x\":\"y\"}"] {
        assert_eq!(get_str(&Some(parsed(value))), None);
    }
    assert_eq!(get_str(&None), None);
}
