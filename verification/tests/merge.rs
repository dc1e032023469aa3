use sisyphus::json::Json;
use sisyphus::merge::copy_unmanaged_fields;

fn from_value(value: &serde_json::Value) -> Json {
    match value {
        serde_json::Value::Null => Json::Null,
        serde_json::Value::Bool(b) => Json::Bool(*b),
        serde_json::Value::Number(n) => Json::Number(n.to_string()),
        serde_json::Value::String(s) => Json::String(s.clone()),
        serde_json::Value::Array(items) => Json::Array(items.iter().map(from_value).collect()),
        serde_json::Value::Object(map) => {
            Json::Object(map.iter().map(|(k, v)| (k.clone(), from_value(v))).collect())
        }
    }
}

fn json(text: &str) -> Json {
    from_value(&serde_json::from_str(text).unwrap())
}

fn merge(have: &Json, want: &Json, managed: &Json) -> Json {
    let mut path = vec!["".to_string()];
    let mut remove_patches = Vec::new();
    copy_unmanaged_fields(have, want, managed, &mut path, &mut remove_patches).unwrap()
}

fn member_of<'a>(value: &'a Json, key: &str) -> Option<&'a Json> {
    match value {
        Json::Object(members) => members.iter().find(|(k, _)| k == key).map(|(_, v)| v),
        _ => None,
    }
}

#[test]
fn test_some_function() {
    let merged = merge(&Json::Bool(true), &Json::Bool(false), &Json::Null);
    assert_eq!(merged, Json::Bool(false));
}

// Test simple scalar values
#[test]
fn test_copy_unmanaged_fields_scalar_bool() {
    let merged = merge(&json(r##"true"##), &json(r##"false"##), &Json::Null);
    assert_eq!(merged, json(r##"false"##));
}

#[test]
fn test_copy_unmanaged_fields_scalar_number() {
    let merged = merge(&json(r##"42"##), &json(r##"100"##), &Json::Null);
    assert_eq!(merged, json(r##"100"##));
}

#[test]
fn test_copy_unmanaged_fields_scalar_string() {
    let merged = merge(&json(r##""old""##), &json(r##""new""##), &Json::Null);
    assert_eq!(merged, json(r##""new""##));
}

// Test String to Number conversion
#[test]
fn test_copy_unmanaged_fields_string_to_number_conversion() {
    let merged = merge(&json(r##""123""##), &json(r##"456"##), &Json::Null);
    assert_eq!(merged, json(r##""456""##));
}

// Test null want value scenarios
#[test]
fn test_copy_unmanaged_fields_null_want_with_object_managed() {
    let merged = merge(
        &json(r##"{"key": "value"}"##),
        &Json::Null,
        &json(r##"{"f:key": {}}"##),
    );
    assert_eq!(merged, Json::Null);
}

#[test]
fn test_copy_unmanaged_fields_null_want_with_null_managed() {
    let merged =
        merge(&json(r##"{"key": "value"}"##), &Json::Null, &Json::Null);
    assert_eq!(merged, json(r##"{"key": "value"}"##));
}

// Test Object scenarios
#[test]
fn test_copy_unmanaged_fields_object_empty_managed() {
    let have = json(r##"{"old_key": "old_value"}"##);
    let want = json(r##"{"new_key": "new_value"}"##);
    let managed = json(r##"{}"##);

    let merged = merge(&have, &want, &managed);
    // When managed is empty object, we own everything, so just return want
    assert_eq!(merged, json(r##"{"new_key": "new_value"}"##));
}

#[test]
fn test_copy_unmanaged_fields_object_with_managed_fields() {
    let have = json(r##"{"unmanaged_key": "old_value", "managed_key": "old_managed"}"##);
    let want = json(r##"{"managed_key": "new_managed"}"##);
    let managed = json(r##"{"f:managed_key": {}}"##);

    let merged = merge(&have, &want, &managed);
    // Should preserve unmanaged_key from have and add managed_key from want
    assert_eq!(
        merged,
        json(r##"{"unmanaged_key": "old_value", "managed_key": "new_managed"}"##)
    );
}

#[test]
fn test_copy_unmanaged_fields_object_null_managed() {
    let have = json(r##"{"key1": "value1"}"##);
    let want = json(r##"{"key1": "updated", "key2": "new"}"##);
    let managed = Json::Null;

    let merged = merge(&have, &want, &managed);
    // Should merge existing keys and add new ones
    assert_eq!(merged, json(r##"{"key1": "updated", "key2": "new"}"##));
}

#[test]
fn test_copy_unmanaged_fields_object_nested_merge() {
    let have = json(r##"{"outer": {"inner": "old", "unmanaged": "keep"}}"##);
    let want = json(r##"{"outer": {"inner": "new"}}"##);
    let managed = json(r##"{"f:outer": {"f:inner": {}}}"##);

    let merged = merge(&have, &want, &managed);
    // Should preserve unmanaged nested field
    assert_eq!(
        merged,
        json(r##"{"outer": {"inner": "new", "unmanaged": "keep"}}"##)
    );
}

#[test]
fn test_copy_unmanaged_fields_object_multiple_keys() {
    let have = json(r##"{
        "key1": "value1",
        "key2": "value2",
        "key3": "value3"
    }"##);
    let want = json(r##"{
        "key2": "updated2",
        "key4": "new4"
    }"##);
    let managed = json(r##"{"f:key2": {}}"##);

    let merged = merge(&have, &want, &managed);
    // Should keep unmanaged keys (key1, key3), update managed (key2), add new (key4)
    assert_eq!(
        merged,
        json(r##"{
            "key1": "value1",
            "key3": "value3",
            "key2": "updated2",
            "key4": "new4"
        }"##)
    );
}

// Test Array scenarios
#[test]
fn test_copy_unmanaged_fields_array_null_managed() {
    let have = json(r##"[1, 2, 3]"##);
    let want = json(r##"[4, 5, 6, 7]"##);
    let managed = Json::Null;

    let merged = merge(&have, &want, &managed);
    // Should merge arrays by index when managed is null
    assert_eq!(merged, json(r##"[4, 5, 6, 7]"##));
}

#[test]
fn test_copy_unmanaged_fields_array_null_managed_shorter_want() {
    let have = json(r##"[1, 2, 3, 4]"##);
    let want = json(r##"[5, 6]"##);
    let managed = Json::Null;

    let merged = merge(&have, &want, &managed);
    assert_eq!(merged, json(r##"[5, 6]"##));
}

#[test]
fn test_copy_unmanaged_fields_array_with_selectors() {
    let have = json(r##"[
        {"name": "item1", "value": "old1"},
        {"name": "item2", "value": "old2"}
    ]"##);
    let want = json(r##"[
        {"name": "item1", "value": "new1"},
        {"name": "item2", "value": "new2"}
    ]"##);
    let managed = json(r##"{
        "k:{\"name\":\"item1\"}": {"f:value": {}},
        "k:{\"name\":\"item2\"}": {"f:value": {}}
    }"##);

    let merged = merge(&have, &want, &managed);
    assert_eq!(
        merged,
        json(r##"[
            {"name": "item1", "value": "new1"},
            {"name": "item2", "value": "new2"}
        ]"##)
    );
}

#[test]
fn test_copy_unmanaged_fields_array_with_selectors_preserve_unmanaged() {
    let have = json(r##"[
        {"name": "item1", "value": "old1", "extra": "keep"}
    ]"##);
    let want = json(r##"[
        {"name": "item1", "value": "new1"}
    ]"##);
    let managed = json(r##"{
        "k:{\"name\":\"item1\"}": {"f:value": {}}
    }"##);

    let merged = merge(&have, &want, &managed);
    // Should preserve "extra" field as it's not managed
    assert_eq!(
        merged,
        json(r##"[
            {"name": "item1", "value": "new1", "extra": "keep"}
        ]"##)
    );
}

#[test]
fn test_copy_unmanaged_fields_array_with_selectors_reordering() {
    let have = json(r##"[
        {"name": "item1", "value": "old1"},
        {"name": "item2", "value": "old2"}
    ]"##);
    let want = json(r##"[
        {"name": "item2", "value": "new2"},
        {"name": "item1", "value": "new1"}
    ]"##);
    let managed = json(r##"{
        "k:{\"name\":\"item1\"}": {"f:value": {}},
        "k:{\"name\":\"item2\"}": {"f:value": {}}
    }"##);

    let merged = merge(&have, &want, &managed);
    // Should match items by selector, so order from want is preserved
    assert_eq!(
        merged,
        json(r##"[
            {"name": "item2", "value": "new2"},
            {"name": "item1", "value": "new1"}
        ]"##)
    );
}

#[test]
fn test_copy_unmanaged_fields_array_with_selectors_new_item() {
    let have = json(r##"[
        {"name": "item1", "value": "old1"}
    ]"##);
    let want = json(r##"[
        {"name": "item1", "value": "new1"},
        {"name": "item2", "value": "new2"}
    ]"##);
    let managed = json(r##"{
        "k:{\"name\":\"item1\"}": {"f:value": {}}
    }"##);

    let merged = merge(&have, &want, &managed);
    // New item (item2) should be added as-is
    assert_eq!(
        merged,
        json(r##"[
            {"name": "item1", "value": "new1"},
            {"name": "item2", "value": "new2"}
        ]"##)
    );
}

#[test]
fn test_copy_unmanaged_fields_array_with_selectors_remove_item() {
    let have = json(r##"[
        {"name": "item1", "value": "old1"},
        {"name": "item2", "value": "old2"}
    ]"##);
    let want = json(r##"[
        {"name": "item1", "value": "new1"}
    ]"##);
    let managed = json(r##"{
        "k:{\"name\":\"item1\"}": {"f:value": {}}
    }"##);

    let merged = merge(&have, &want, &managed);
    // item2 should be removed since it's not in want
    assert_eq!(
        merged,
        json(r##"[
            {"name": "item1", "value": "new1"}
        ]"##)
    );
}

#[test]
fn test_copy_unmanaged_fields_array_with_selectors_no_match() {
    let have = json(r##"[
        {"name": "item1", "value": "old1"}
    ]"##);
    let want = json(r##"[
        {"name": "item2", "value": "new2"}
    ]"##);
    let managed = json(r##"{
        "k:{\"name\":\"item2\"}": {"f:value": {}}
    }"##);

    let merged = merge(&have, &want, &managed);
    // item2 is new and managed, so it should just appear
    assert_eq!(
        merged,
        json(r##"[
            {"name": "item2", "value": "new2"}
        ]"##)
    );
}

#[test]
fn test_copy_unmanaged_fields_array_with_dot_selector() {
    let have = json(r##"[1, 2, 3]"##);
    let want = json(r##"[4, 5, 6]"##);
    let managed = json(r##"{".": {}}"##);

    let merged = merge(&have, &want, &managed);
    // Dot selector means we own the whole array
    assert_eq!(merged, json(r##"[4, 5, 6]"##));
}

// Test complex nested scenarios
#[test]
fn test_copy_unmanaged_fields_nested_object_in_array() {
    let have = json(r##"[
        {"obj": {"nested": "old"}}
    ]"##);
    let want = json(r##"[
        {"obj": {"nested": "new"}}
    ]"##);
    let managed = json(r##"{
        "k:{\"obj\":{\"nested\":\"new\"}}": {"f:obj": {"f:nested": {}}}
    }"##);

    let merged = merge(&have, &want, &managed);
    assert_eq!(
        merged,
        json(r##"[
            {"obj": {"nested": "new"}}
        ]"##)
    );
}

#[test]
fn test_copy_unmanaged_fields_array_in_object() {
    let have = json(r##"{"list": [1, 2, 3]}"##);
    let want = json(r##"{"list": [4, 5]}"##);
    let managed = json(r##"{"f:list": {}}"##);

    let merged = merge(&have, &want, &managed);
    // Should replace the array since we manage the list field
    assert_eq!(merged, json(r##"{"list": [4, 5]}"##));
}

#[test]
fn test_copy_unmanaged_fields_mixed_types_object_to_array() {
    let have = json(r##"{"key": "value"}"##);
    let want = json(r##"[1, 2, 3]"##);
    let managed = Json::Null;

    let merged = merge(&have, &want, &managed);
    // Type mismatch should return want
    assert_eq!(merged, json(r##"[1, 2, 3]"##));
}

#[test]
fn test_copy_unmanaged_fields_mixed_types_array_to_object() {
    let have = json(r##"[1, 2, 3]"##);
    let want = json(r##"{"key": "value"}"##);
    let managed = Json::Null;

    let merged = merge(&have, &want, &managed);
    // Type mismatch should return want
    assert_eq!(merged, json(r##"{"key": "value"}"##));
}

// Test that replacing an env var (changing name and switching value -> valueFrom)
// doesn't leak the old "value" field into the new entry
#[test]
fn test_copy_unmanaged_fields_replace_env_var_value_to_value_from() {
    let have = json(r##"[
        {"name": "ANTHROPIC_VERTEX_CHAT_MODEL", "value": "chat-model-large"},
        {"name": "ANTHROPIC_VERTEX_REGION", "value": "us-east5"}
    ]"##);
    let want = json(r##"[
        {"name": "ANTHROPIC_API_KEY", "valueFrom": {"secretKeyRef": {"key": "anthropic-api-key", "name": "frontend"}}},
        {"name": "ANTHROPIC_CHAT_MODEL", "value": "chat-model-large"},
        {"name": "ANTHROPIC_VERTEX_REGION", "value": "us-east5"}
    ]"##);
    let managed = json(r##"{
        "k:{\"name\":\"ANTHROPIC_VERTEX_CHAT_MODEL\"}": {".":{}, "f:name": {}, "f:value": {}},
        "k:{\"name\":\"ANTHROPIC_VERTEX_REGION\"}": {".":{}, "f:name": {}, "f:value": {}}
    }"##);

    let merged = merge(&have, &want, &managed);
    // ANTHROPIC_API_KEY should only have valueFrom, not the old "value" from ANTHROPIC_VERTEX_CHAT_MODEL
    let arr = match &merged {
        Json::Array(items) => items,
        _ => panic!("Expected an array"),
    };
    let api_key_entry = arr
        .iter()
        .find(|v| member_of(v, "name") == Some(&Json::String("ANTHROPIC_API_KEY".to_string())))
        .unwrap();
    assert_eq!(member_of(api_key_entry, "value"), None);
    assert!(member_of(api_key_entry, "valueFrom").is_some());
}

// Test that unowned keys from have are preserved when managed fields are null
// (e.g. Service fields like clusterIP, status set by other controllers)
#[test]
fn test_copy_unmanaged_fields_object_null_managed_preserves_have_keys() {
    let have = json(r##"{"name": "foo", "clusterIP": "10.0.0.1", "type": "ClusterIP"}"##);
    let want = json(r##"{"name": "foo"}"##);
    let managed = Json::Null;

    let merged = merge(&have, &want, &managed);
    assert_eq!(
        merged,
        json(r##"{"name": "foo", "clusterIP": "10.0.0.1", "type": "ClusterIP"}"##)
    );
}
