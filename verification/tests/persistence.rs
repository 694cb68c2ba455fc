use std::collections::HashMap;

use script_host::registry::{Registry, ScriptEntry, StoredSnapshot};

fn to_file_text(snapshot: Vec<ScriptEntry>) -> String {
    let scripts: HashMap<String, String> =
        snapshot.into_iter().map(|e| (e.key, e.source)).collect();
    let mut file: HashMap<String, HashMap<String, String>> = HashMap::new();
    file.insert("scripts".to_string(), scripts);
    serde_json::to_string(&file).unwrap()
}

fn from_file_text(text: &str) -> StoredSnapshot {
    match serde_json::from_str::<HashMap<String, HashMap<String, String>>>(text) {
        Ok(mut file) => match file.remove("scripts") {
            Some(scripts) => StoredSnapshot::Parsed(
                scripts.into_iter().map(|(key, source)| ScriptEntry { key, source }).collect(),
            ),
            None => StoredSnapshot::Malformed("missing field `scripts`".to_string()),
        },
        Err(error) => StoredSnapshot::Malformed(error.to_string()),
    }
}

#[test]
fn snapshot_of_one_script_as_file_text() {
    let mut registry = Registry::new();
    let snapshot = registry.set("add".to_string(), "return 2 + 2;".to_string());
    assert_eq!(to_file_text(snapshot), "{\"scripts\":{\"add\":\"return 2 + 2;\"}}");
}

#[test]
fn snapshot_of_no_script_as_file_text() {
    assert_eq!(to_file_text(Registry::new().snapshot()), "{\"scripts\":{}}");
}

#[test]
fn registry_survives_the_file() {
    let mut registry = Registry::new();
    registry.set("add".to_string(), "return 2 + 2;".to_string());
    registry.set("quote".to_string(), "return \"a\\\"b\" + '\\n';".to_string());
    registry.set("caf\u{e9}".to_string(), "return '\u{1F600}';\n".to_string());
    registry.set("add".to_string(), "return 4;".to_string());
    let text = to_file_text(registry.snapshot());
    let reloaded = Registry::load(from_file_text(&text)).unwrap();
    for key in ["add", "quote", "caf\u{e9}", "absent", ""] {
        assert_eq!(reloaded.get(key), registry.get(key));
    }
    assert_eq!(reloaded.snapshot().len(), 3);
}

#[test]
fn file_that_is_not_a_snapshot_stops_the_start() {
    for text in ["", "{", "[]", "{\"scripts\":[1,2]}", "{\"scripts\":{\"a\":1}}", "{}"] {
        let stored = from_file_text(text);
        assert!(matches!(stored, StoredSnapshot::Malformed(_)));
        assert!(Registry::load(stored).is_err());
    }
}
