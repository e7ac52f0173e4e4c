use quickcmd::commands::{save_command, show_command};
use quickcmd::model::FileJson;
use serde_json::Value;

fn sample() -> FileJson {
    let mut store = FileJson::new();
    save_command(&mut store, "up", "docker compose up -d");
    save_command(&mut store, "q", "echo \"a  b\" 'c' \\ \n\t {}");
    save_command(&mut store, "é", "printf '%s' \"ü\"");
    save_command(&mut store, "empty", "");
    store
}

#[test]
fn pairs_come_out_in_ascending_order() {
    let (version, pairs) = sample().to_pairs();
    assert_eq!(version, 1);
    let names: Vec<&str> = pairs.iter().map(|p| p.0.as_str()).collect();
    assert_eq!(names, vec!["empty", "q", "up", "é"]);
    assert_eq!(pairs[2].1, "docker compose up -d");
}

#[test]
fn of_two_pairs_with_one_name_the_later_stays() {
    let pairs = vec![
        ("a".to_string(), "1".to_string()),
        ("b".to_string(), "2".to_string()),
        ("a".to_string(), "3".to_string()),
    ];
    let store = FileJson::from_pairs(4, &pairs);
    assert_eq!(store.version, 4);
    assert_eq!(show_command(&store, "a"), Some("3"));
    assert_eq!(show_command(&store, "b"), Some("2"));
    assert_eq!(store.to_pairs().1.len(), 2);
}

#[test]
fn a_store_put_together_again_is_the_same() {
    let store = sample();
    let copy = store.duplicate();
    assert_eq!(copy.to_pairs(), store.to_pairs());
    let empty = FileJson::new().duplicate();
    assert_eq!(empty.to_pairs(), (1, Vec::new()));
}

#[test]
fn a_store_survives_the_way_through_json_text() {
    let store = sample();
    let (version, pairs) = store.to_pairs();
    let mut commands = serde_json::Map::new();
    for (name, text) in &pairs {
        commands.insert(name.clone(), Value::String(text.clone()));
    }
    let mut root = serde_json::Map::new();
    root.insert("version".to_string(), Value::from(version));
    root.insert("commands".to_string(), Value::Object(commands));
    let text = serde_json::to_string_pretty(&Value::Object(root)).unwrap();

    let parsed: Value = serde_json::from_str(&text).unwrap();
    let read_version = parsed.get("version").and_then(Value::as_u64).unwrap();
    let read_pairs: Vec<(String, String)> = parsed
        .get("commands")
        .and_then(Value::as_object)
        .unwrap()
        .iter()
        .map(|(k, v)| (k.clone(), v.as_str().unwrap().to_string()))
        .collect();
    let rebuilt = FileJson::from_pairs(read_version as u8, &read_pairs);
    assert_eq!(rebuilt.to_pairs(), store.to_pairs());
}
