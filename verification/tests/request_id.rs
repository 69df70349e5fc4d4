use lsp_server_tokio::RequestId;
use std::collections::HashMap;

/// The JSON value that `text` holds.
fn value(text: &str) -> serde_json::Value {
    serde_json::from_str(text).unwrap()
}



#[test]
fn integer_serialization_roundtrip() {
    let id = RequestId::Integer(42);
    let json = serde_json::to_string(&id.clone().into_value()).unwrap();
    assert_eq!(json, "42");
    let parsed = RequestId::from_value(value(&json)).unwrap();
    assert_eq!(parsed, id);
}

#[test]
fn string_serialization_roundtrip() {
    let id = RequestId::String("abc-123".to_string());
    let json = serde_json::to_string(&id.clone().into_value()).unwrap();
    assert_eq!(json, "\"abc-123\"");
    let parsed = RequestId::from_value(value(&json)).unwrap();
    assert_eq!(parsed, id);
}

#[test]
fn integer_deserialization_from_json_number() {
    let id = RequestId::from_value(value("42")).unwrap();
    assert_eq!(id, RequestId::Integer(42));
}

#[test]
fn string_deserialization_from_json_string() {
    let id = RequestId::from_value(value("\"abc\"")).unwrap();
    assert_eq!(id, RequestId::String("abc".to_string()));
}

#[test]
fn display_integer() {
    let id = RequestId::Integer(42);
    assert_eq!(id.to_string(), "42");
}

#[test]
fn display_string() {
    let id = RequestId::String("abc-123".to_string());
    assert_eq!(id.to_string(), "abc-123");
}

#[test]
fn from_i32() {
    let id: RequestId = 42.into();
    assert_eq!(id, RequestId::Integer(42));
}

#[test]
fn from_string() {
    let id: RequestId = "abc".to_string().into();
    assert_eq!(id, RequestId::String("abc".to_string()));
}

#[test]
fn from_str() {
    let id: RequestId = "test".into();
    assert_eq!(id, RequestId::String("test".to_string()));
}

#[test]
fn hash_works_for_hashmap_keys() {
    let mut map = HashMap::new();
    map.insert(RequestId::Integer(1), "first");
    map.insert(RequestId::String("abc".to_string()), "second");
    assert_eq!(map.get(&RequestId::Integer(1)), Some(&"first"));
    assert_eq!(map.get(&RequestId::String("abc".to_string())), Some(&"second"));
}

#[test]
fn integer_and_string_with_same_value_are_not_equal() {
    // Per JSON-RPC spec, integer 1 and string "1" are different IDs
    let int_id = RequestId::Integer(1);
    let str_id = RequestId::String("1".to_string());
    assert_ne!(int_id, str_id);
}
