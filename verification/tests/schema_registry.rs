use redis_proxy::config::standard_schemas;
use redis_proxy::schema::{
    base_key_len, is_reference_free, join_messages, validation_outcome, violation_message, SchemaEntry,
    SchemaRegistry, Violation,
};

fn entry(base_key: &str, schema: &str) -> SchemaEntry {
    SchemaEntry { base_key: base_key.to_string(), schema: schema.to_string() }
}

fn violation(path: &str, text: &str) -> Violation {
    Violation { path: path.to_string(), text: text.to_string() }
}

fn lenient_disk_schema() -> SchemaRegistry {
    let entries = vec![SchemaEntry {
        base_key: "cs:DiskUsage:object1".to_string(),
        schema: "{\"type\":\"object\",\"properties\":{\"disk\":{\"type\":\"string\"},\"usage\":{\"type\":\"number\"}},\"required\":[\"disk\",\"usage\"]}".to_string(),
    }];
    SchemaRegistry::new(entries).unwrap()
}

#[test]
fn base_key_is_the_first_three_segments() {
    assert_eq!(base_key_len(b"cs:DiskUsage:object1"), 20);
    assert_eq!(base_key_len(b"cs:DiskUsage:object1:42"), 20);
    assert_eq!(base_key_len(b"cs:DiskUsage:object1:42:f"), 20);
    assert_eq!(base_key_len(b"a:b"), 3);
    assert_eq!(base_key_len(b""), 0);
    assert_eq!(base_key_len(b":::"), 2);
}

#[test]
fn unregistered_base_key_passes_any_value() {
    let registry = standard_schemas().unwrap();
    assert_eq!(registry.validate_json_schema("cs:Psmon:object1", "{\"anything\":[1,2,3]}"), Ok(()));
    assert_eq!(registry.validate_json_schema("cs:Psmon:object1", "17"), Ok(()));
    assert_eq!(registry.validate_json_schema("cs:DiskUsage:object2", "\"text\""), Ok(()));
    assert_eq!(registry.validate_json_schema("cs:DiskUsage", "null"), Ok(()));
}

#[test]
fn valid_value_passes() {
    let registry = standard_schemas().unwrap();
    let value = "{\"version\":1,\"disk\":\"/dev/sda1\",\"usage\":42.5}";
    assert_eq!(registry.validate_json_schema("cs:DiskUsage:object1", value), Ok(()));
    assert_eq!(registry.validate_json_schema("cs:DiskUsage:object1:7:refresh", value), Ok(()));
}

#[test]
fn missing_field_is_named() {
    let registry = standard_schemas().unwrap();
    let value = "{\"version\":1,\"status\":\"up\"}";
    assert_eq!(
        registry.validate_json_schema("cs:ModemWatcher:object2", value),
        Err("\"signal_strength\" is a required property".to_string())
    );
}

#[test]
fn every_violation_is_reported() {
    let registry = standard_schemas().unwrap();
    let message = registry.validate_json_schema("cs:ModemWatcher:object2", "{\"signal_strength\":1.5}").unwrap_err();
    assert!(message.contains("/signal_strength: 1.5 is not of type \"integer\""));
    assert!(message.contains("\"version\" is a required property"));
    assert!(message.contains("\"status\" is a required property"));
    assert_eq!(message.matches(", ").count(), 2);
}

#[test]
fn wrong_shape_fails() {
    let registry = lenient_disk_schema();
    assert_eq!(
        registry.validate_json_schema("cs:DiskUsage:object1", "17"),
        Err("17 is not of type \"object\"".to_string())
    );
    assert!(registry.validate_json_schema("cs:DiskUsage:object1", "{\"disk\":\"/dev/sda1\",\"usage\":42}").is_ok());
}

#[test]
fn value_that_is_no_json_is_an_error() {
    let registry = lenient_disk_schema();
    assert!(registry.validate_json_schema("cs:DiskUsage:object1", "{not json").is_err());
}

#[test]
fn faulty_schema_is_found_when_the_table_is_built() {
    let broken = vec![SchemaEntry { base_key: "cs:Psmon:object1".to_string(), schema: "{\"type\":17}".to_string() }];
    assert!(SchemaRegistry::new(broken).is_none());
    let no_json = vec![SchemaEntry { base_key: "cs:Psmon:object1".to_string(), schema: "{".to_string() }];
    assert!(SchemaRegistry::new(no_json).is_none());
    assert!(SchemaRegistry::new(Vec::new()).is_some());
    assert!(standard_schemas().is_some());
}

#[test]
fn messages_are_joined_by_comma_and_space() {
    assert_eq!(join_messages(&Vec::new()), "");
    assert_eq!(join_messages(&vec!["a".to_string()]), "a");
    assert_eq!(join_messages(&vec!["a".to_string(), "b".to_string(), "c".to_string()]), "a, b, c");
}

#[test]
fn outcome_follows_the_report() {
    assert_eq!(validation_outcome(Ok(Vec::new())), Ok(()));
    assert_eq!(
        validation_outcome(Ok(vec![violation("", "x"), violation("/a/0", "y")])),
        Err("x, /a/0: y".to_string())
    );
    assert_eq!(validation_outcome(Err("no schema".to_string())), Err("no schema".to_string()));
}

#[test]
fn wrong_type_is_reported_with_the_field() {
    let registry = standard_schemas().unwrap();
    let value = "{\"version\":1,\"status\":\"up\",\"signal_strength\":1.5}";
    assert_eq!(
        registry.validate_json_schema("cs:ModemWatcher:object2", value),
        Err("/signal_strength: 1.5 is not of type \"integer\"".to_string())
    );
    let value = "{\"version\":1,\"status\":\"up\",\"signal_strength\":-70}";
    assert_eq!(registry.validate_json_schema("cs:ModemWatcher:object2:1", value), Ok(()));
}

#[test]
fn standard_disk_schema_asks_for_a_version() {
    let registry = standard_schemas().unwrap();
    assert_eq!(
        registry.validate_json_schema("cs:DiskUsage:object1", "{\"disk\":\"/dev/sda1\",\"usage\":42}"),
        Err("\"version\" is a required property".to_string())
    );
}

#[test]
fn message_names_the_place() {
    assert_eq!(violation_message(&violation("", "\"a\" is a required property")), "\"a\" is a required property");
    assert_eq!(violation_message(&violation("/a/b", "1 is not of type \"string\"")), "/a/b: 1 is not of type \"string\"");
}

#[test]
fn nested_violation_names_its_path() {
    let table = vec![entry(
        "cs:Psmon:object1",
        "{\"type\":\"object\",\"properties\":{\"cpu\":{\"type\":\"object\",\"properties\":{\"load\":{\"type\":\"number\"}}}}}",
    )];
    let registry = SchemaRegistry::new(table).unwrap();
    assert_eq!(
        registry.validate_json_schema("cs:Psmon:object1", "{\"cpu\":{\"load\":\"high\"}}"),
        Err("/cpu/load: \"high\" is not of type \"number\"".to_string())
    );
}

#[test]
fn schema_with_a_reference_is_refused() {
    assert!(SchemaRegistry::new(vec![entry("cs:Psmon:object1", "{\"$ref\":\"#\"}")]).is_none());
    assert!(SchemaRegistry::new(vec![entry("cs:Psmon:object1", "{\"\\u0024ref\":\"#\"}")]).is_none());
    assert!(SchemaRegistry::new(vec![entry("cs:Psmon:object1", "{\"type\":\"object\"}")]).is_some());
}

#[test]
fn reference_free_means_no_dollar_and_no_escape() {
    assert!(is_reference_free(b"{\"type\":\"object\"}"));
    assert!(is_reference_free(b""));
    assert!(!is_reference_free(b"{\"$ref\":\"#\"}"));
    assert!(!is_reference_free(b"{\"\\u0024ref\":\"#\"}"));
    assert!(!is_reference_free(b"$"));
}

#[test]
fn base_key_registered_twice_is_refused() {
    let twice = vec![
        entry("cs:Psmon:object1", "{\"type\":\"object\"}"),
        entry("cs:Psmon:object2", "{\"type\":\"object\"}"),
        entry("cs:Psmon:object1", "{\"type\":\"string\"}"),
    ];
    assert!(SchemaRegistry::new(twice).is_none());
}
