use sisyphus::json::Json;
use sisyphus::resources::{DynamicObject, ObjectMeta, TypeMeta};
use sisyphus::secrets::munge_secrets;

fn from_value(value: &serde_json::Value) -> Json {
    match value {
        serde_json::Value::Null => Json::Null,
        serde_json::Value::Bool(b) => Json::Bool(*b),
        serde_json::Value::Number(n) => Json::Number(n.to_string()),
        serde_json::Value::String(s) => Json::String(s.clone()),
        serde_json::Value::Array(items) => Json::Array(items.iter().map(from_value).collect()),
        serde_json::Value::Object(map) => {
            Json::Object(map.iter().map(|(k, v)| (k.clone(), from_value(v))).collect())
        }
    }
}

fn json(text: &str) -> Json {
    from_value(&serde_json::from_str(text).unwrap())
}

fn member_of<'a>(value: &'a Json, key: &str) -> Option<&'a Json> {
    match value {
        Json::Object(members) => members.iter().find(|(k, _)| k == key).map(|(_, v)| v),
        _ => None,
    }
}

#[test]
fn test_munge_secrets_non_secret_resource() {
    let mut to = DynamicObject {
        types: Some(TypeMeta {
            api_version: "v1".to_string(),
            kind: "ConfigMap".to_string(),
        }),
        metadata: ObjectMeta::default(),
        data: json(r##"{"key": "value"}"##),
    };

    munge_secrets(None, &mut to).unwrap();

    // Non-secret resources should be unchanged
    assert_eq!(to.data, json(r##"{"key": "value"}"##));
}

#[test]
fn test_munge_secrets_new_secret_with_data() {
    let mut to = DynamicObject {
        types: Some(TypeMeta {
            api_version: "v1".to_string(),
            kind: "Secret".to_string(),
        }),
        metadata: ObjectMeta::default(),
        data: json(r##"{
            "data": {
                "password": "c2VjcmV0",
                "username": "YWRtaW4="
            }
        }"##),
    };

    munge_secrets(None, &mut to).unwrap();

    // All secret data should be replaced with placeholder
    assert_eq!(
        to.data,
        json(r##"{
            "data": {
                "password": "c29tZSBzdHVmZg==",
                "username": "c29tZSBzdHVmZg=="
            }
        }"##)
    );
}

#[test]
fn test_munge_secrets_refresh_existing_secret() {
    let from = DynamicObject {
        types: Some(TypeMeta {
            api_version: "v1".to_string(),
            kind: "Secret".to_string(),
        }),
        metadata: ObjectMeta::default(),
        data: json(r##"{
            "data": {
                "password": "b2xkX3NlY3JldA==",
                "username": "b2xkX3VzZXI="
            }
        }"##),
    };

    let mut to = DynamicObject {
        types: Some(TypeMeta {
            api_version: "v1".to_string(),
            kind: "Secret".to_string(),
        }),
        metadata: ObjectMeta::default(),
        data: json(r##"{
            "data": {
                "password": "bmV3X3NlY3JldA==",
                "api_key": "bmV3X2FwaV9rZXk="
            }
        }"##),
    };

    munge_secrets(Some(&from), &mut to).unwrap();

    // All keys from 'from' should be copied, and keys in 'to' not in 'from' get placeholder
    assert_eq!(
        to.data,
        json(r##"{
            "data": {
                "password": "b2xkX3NlY3JldA==",
                "username": "b2xkX3VzZXI=",
                "api_key": "c29tZSBzdHVmZg=="
            }
        }"##)
    );
}

#[test]
fn test_munge_secrets_with_string_data() {
    let from = DynamicObject {
        types: Some(TypeMeta {
            api_version: "v1".to_string(),
            kind: "Secret".to_string(),
        }),
        metadata: ObjectMeta::default(),
        data: json(r##"{
            "data": {
                "password": "b2xkX3NlY3JldA=="
            }
        }"##),
    };

    let mut to = DynamicObject {
        types: Some(TypeMeta {
            api_version: "v1".to_string(),
            kind: "Secret".to_string(),
        }),
        metadata: ObjectMeta::default(),
        data: json(r##"{
            "data": {
                "password": "bmV3X3NlY3JldA=="
            },
            "stringData": {
                "password": "plain_text_password",
                "new_key": "plain_text_value"
            }
        }"##),
    };

    munge_secrets(Some(&from), &mut to).unwrap();

    // stringData keys that exist in data should be removed
    let result_data = &to.data;
    assert_eq!(
        member_of(result_data, "data").unwrap(),
        &json(r##"{"password": "b2xkX3NlY3JldA=="}"##)
    );
    assert_eq!(
        member_of(result_data, "stringData").unwrap(),
        &json(r##"{"new_key": "plain_text_value"}"##)
    );
}

#[test]
fn test_munge_secrets_empty_string_data_removed() {
    let from = DynamicObject {
        types: Some(TypeMeta {
            api_version: "v1".to_string(),
            kind: "Secret".to_string(),
        }),
        metadata: ObjectMeta::default(),
        data: json(r##"{
            "data": {
                "password": "b2xkX3NlY3JldA=="
            }
        }"##),
    };

    let mut to = DynamicObject {
        types: Some(TypeMeta {
            api_version: "v1".to_string(),
            kind: "Secret".to_string(),
        }),
        metadata: ObjectMeta::default(),
        data: json(r##"{
            "data": {
                "password": "bmV3X3NlY3JldA=="
            },
            "stringData": {
                "password": "plain_text_password"
            }
        }"##),
    };

    munge_secrets(Some(&from), &mut to).unwrap();

    // stringData should be removed entirely if empty after removing overlapping keys
    let result_data = &to.data;
    assert!(member_of(result_data, "stringData").is_none());
}

#[test]
fn test_munge_secrets_no_from_data() {
    let mut to = DynamicObject {
        types: Some(TypeMeta {
            api_version: "v1".to_string(),
            kind: "Secret".to_string(),
        }),
        metadata: ObjectMeta::default(),
        data: json(r##"{
            "data": {
                "password": "c2VjcmV0",
                "username": "YWRtaW4="
            }
        }"##),
    };

    munge_secrets(None, &mut to).unwrap();

    // All data should be replaced with placeholder when there's no 'from'
    assert_eq!(
        to.data,
        json(r##"{
            "data": {
                "password": "c29tZSBzdHVmZg==",
                "username": "c29tZSBzdHVmZg=="
            }
        }"##)
    );
}
