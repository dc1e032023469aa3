use sisyphus::diff::{generate_diff, DiffAction};
use sisyphus::json::Json;
use sisyphus::key::KubernetesKey;
use sisyphus::resources::{put_object, DynamicObject, KubernetesResources, ObjectMeta, TypeMeta};

fn from_value(value: &serde_json::Value) -> Json {
    match value {
        serde_json::Value::Null => Json::Null,
        serde_json::Value::Bool(b) => Json::Bool(*b),
        serde_json::Value::Number(n) => Json::Number(n.to_string()),
        serde_json::Value::String(s) => Json::String(s.clone()),
        serde_json::Value::Array(items) => Json::Array(items.iter().map(from_value).collect()),
        serde_json::Value::Object(map) => {
            Json::Object(map.iter().map(|(k, v)| (k.clone(), from_value(v))).collect())
        }
    }
}

fn json(text: &str) -> Json {
    from_value(&serde_json::from_str(text).unwrap())
}

#[test]
fn test_generate_diff_no_changes() {
    let key = KubernetesKey {
        api_version: "v1".to_string(),
        cluster: "prod".to_string(),
        kind: "ConfigMap".to_string(),
        name: "my-config".to_string(),
        namespace: Some("default".to_string()),
    };

    let object = DynamicObject {
        types: Some(TypeMeta {
            api_version: "v1".to_string(),
            kind: "ConfigMap".to_string(),
        }),
        metadata: ObjectMeta::default(),
        data: json(r##"{"key": "value"}"##),
    };

    let have = KubernetesResources {
        by_key: vec![(key.clone(), object.clone())],
        namespaces: Vec::new(),
    };
    let want = KubernetesResources {
        by_key: vec![(key, object)],
        namespaces: Vec::new(),
    };
    let diff = generate_diff(have, want).unwrap();

    assert_eq!(diff.len(), 0);

}

#[test]
fn test_generate_diff_create_object() {
    let key = KubernetesKey {
        api_version: "v1".to_string(),
        cluster: "prod".to_string(),
        kind: "ConfigMap".to_string(),
        name: "new-config".to_string(),
        namespace: Some("default".to_string()),
    };

    let object = DynamicObject {
        types: Some(TypeMeta {
            api_version: "v1".to_string(),
            kind: "ConfigMap".to_string(),
        }),
        metadata: ObjectMeta::default(),
        data: json(r##"{"key": "value"}"##),
    };

    let have = KubernetesResources {
        by_key: Vec::new(),
        namespaces: Vec::new(),
    };
    let want = KubernetesResources {
        by_key: vec![(key.clone(), object)],
        namespaces: Vec::new(),
    };
    let diff = generate_diff(have, want).unwrap();

    assert_eq!(diff.len(), 1);
    assert_eq!(diff[0].0, key);
    assert!(matches!(diff[0].1, DiffAction::Create(_)));

}

#[test]
fn test_generate_diff_delete_object() {
    let key = KubernetesKey {
        api_version: "v1".to_string(),
        cluster: "prod".to_string(),
        kind: "ConfigMap".to_string(),
        name: "old-config".to_string(),
        namespace: Some("default".to_string()),
    };

    let object = DynamicObject {
        types: Some(TypeMeta {
            api_version: "v1".to_string(),
            kind: "ConfigMap".to_string(),
        }),
        metadata: ObjectMeta::default(),
        data: json(r##"{"key": "value"}"##),
    };

    let have = KubernetesResources {
        by_key: vec![(key.clone(), object)],
        namespaces: Vec::new(),
    };
    let want = KubernetesResources {
        by_key: Vec::new(),
        namespaces: Vec::new(),
    };
    let diff = generate_diff(have, want).unwrap();

    assert_eq!(diff.len(), 1);
    assert_eq!(diff[0].0, key);
    assert!(matches!(diff[0].1, DiffAction::Delete));

}

#[test]
fn test_generate_diff_update_object() {
    let key = KubernetesKey {
        api_version: "v1".to_string(),
        cluster: "prod".to_string(),
        kind: "ConfigMap".to_string(),
        name: "my-config".to_string(),
        namespace: Some("default".to_string()),
    };

    let old_object = DynamicObject {
        types: Some(TypeMeta {
            api_version: "v1".to_string(),
            kind: "ConfigMap".to_string(),
        }),
        metadata: ObjectMeta::default(),
        data: json(r##"{"key": "old-value"}"##),
    };

    let new_object = DynamicObject {
        types: Some(TypeMeta {
            api_version: "v1".to_string(),
            kind: "ConfigMap".to_string(),
        }),
        metadata: ObjectMeta::default(),
        data: json(r##"{"key": "new-value"}"##),
    };

    let have = KubernetesResources {
        by_key: vec![(key.clone(), old_object)],
        namespaces: Vec::new(),
    };
    let want = KubernetesResources {
        by_key: vec![(key.clone(), new_object)],
        namespaces: Vec::new(),
    };
    let diff = generate_diff(have, want).unwrap();

    assert_eq!(diff.len(), 1);
    assert_eq!(diff[0].0, key);
    assert!(matches!(diff[0].1, DiffAction::Patch { .. }));

}

#[test]
fn test_generate_diff_mixed_operations() {
    // Key for object to keep (no change)
    let keep_key = KubernetesKey {
        api_version: "v1".to_string(),
        cluster: "prod".to_string(),
        kind: "ConfigMap".to_string(),
        name: "keep-config".to_string(),
        namespace: Some("default".to_string()),
    };

    // Key for object to delete
    let delete_key = KubernetesKey {
        api_version: "v1".to_string(),
        cluster: "prod".to_string(),
        kind: "ConfigMap".to_string(),
        name: "delete-config".to_string(),
        namespace: Some("default".to_string()),
    };

    // Key for object to create
    let create_key = KubernetesKey {
        api_version: "v1".to_string(),
        cluster: "prod".to_string(),
        kind: "ConfigMap".to_string(),
        name: "create-config".to_string(),
        namespace: Some("default".to_string()),
    };

    // Key for object to update
    let update_key = KubernetesKey {
        api_version: "v1".to_string(),
        cluster: "prod".to_string(),
        kind: "ConfigMap".to_string(),
        name: "update-config".to_string(),
        namespace: Some("default".to_string()),
    };

    let keep_object = DynamicObject {
        types: Some(TypeMeta {
            api_version: "v1".to_string(),
            kind: "ConfigMap".to_string(),
        }),
        metadata: ObjectMeta::default(),
        data: json(r##"{"key": "value"}"##),
    };

    let delete_object = DynamicObject {
        types: Some(TypeMeta {
            api_version: "v1".to_string(),
            kind: "ConfigMap".to_string(),
        }),
        metadata: ObjectMeta::default(),
        data: json(r##"{"key": "delete-me"}"##),
    };

    let update_object_old = DynamicObject {
        types: Some(TypeMeta {
            api_version: "v1".to_string(),
            kind: "ConfigMap".to_string(),
        }),
        metadata: ObjectMeta::default(),
        data: json(r##"{"key": "old"}"##),
    };

    let update_object_new = DynamicObject {
        types: Some(TypeMeta {
            api_version: "v1".to_string(),
            kind: "ConfigMap".to_string(),
        }),
        metadata: ObjectMeta::default(),
        data: json(r##"{"key": "new"}"##),
    };

    let create_object = DynamicObject {
        types: Some(TypeMeta {
            api_version: "v1".to_string(),
            kind: "ConfigMap".to_string(),
        }),
        metadata: ObjectMeta::default(),
        data: json(r##"{"key": "created"}"##),
    };

    let mut have = KubernetesResources {
        by_key: Vec::new(),
        namespaces: Vec::new(),
    };
    put_object(&mut have.by_key, keep_key.clone(), keep_object.clone());
    put_object(&mut have.by_key, delete_key.clone(), delete_object);
    put_object(&mut have.by_key, update_key.clone(), update_object_old);

    let mut want = KubernetesResources {
        by_key: Vec::new(),
        namespaces: Vec::new(),
    };
    put_object(&mut want.by_key, keep_key, keep_object);
    put_object(&mut want.by_key, create_key.clone(), create_object);
    put_object(&mut want.by_key, update_key.clone(), update_object_new);

    let diff = generate_diff(have, want).unwrap();

    // Should have 3 changes: create, delete, update (keep is not in diff)
    assert_eq!(diff.len(), 3);

    // Verify we have one of each action type
    let mut has_create = false;
    let mut has_delete = false;
    let mut has_update = false;

    for (key, action) in &diff {
        match action {
            DiffAction::Create(_) => {
                assert_eq!(key, &create_key);
                has_create = true;
            }
            DiffAction::Delete => {
                assert_eq!(key, &delete_key);
                has_delete = true;
            }
            DiffAction::Patch { .. } => {
                assert_eq!(key, &update_key);
                has_update = true;
            }
            _ => {}
        }
    }

    assert!(has_create);
    assert!(has_delete);
    assert!(has_update);

}

#[test]
fn test_generate_diff_namespace_operations() {
    let ns_key = KubernetesKey {
        api_version: "v1".to_string(),
        cluster: "prod".to_string(),
        kind: "Namespace".to_string(),
        name: "my-namespace".to_string(),
        namespace: None,
    };

    let ns_object = DynamicObject {
        types: Some(TypeMeta {
            api_version: "v1".to_string(),
            kind: "Namespace".to_string(),
        }),
        metadata: ObjectMeta::default(),
        data: json(r##"{}"##),
    };

    let have = KubernetesResources {
        by_key: Vec::new(),
        namespaces: Vec::new(),
    };
    let want = KubernetesResources {
        by_key: vec![(ns_key.clone(), ns_object)],
        namespaces: Vec::new(),
    };
    let diff = generate_diff(have, want).unwrap();

    assert_eq!(diff.len(), 1);
    assert_eq!(diff[0].0, ns_key);
    assert!(matches!(diff[0].1, DiffAction::Create(_)));

}

#[test]
fn test_deployment_selector_change_triggers_recreate() {
    let key = KubernetesKey {
        api_version: "apps/v1".to_string(),
        cluster: "prod".to_string(),
        kind: "Deployment".to_string(),
        name: "my-deployment".to_string(),
        namespace: Some("default".to_string()),
    };

    let old_object = DynamicObject {
        types: Some(TypeMeta {
            api_version: "apps/v1".to_string(),
            kind: "Deployment".to_string(),
        }),
        metadata: ObjectMeta::default(),
        data: json(r##"{
            "spec": {
                "selector": {
                    "matchLabels": {
                        "app": "old-app"
                    }
                }
            }
        }"##),
    };

    let new_object = DynamicObject {
        types: Some(TypeMeta {
            api_version: "apps/v1".to_string(),
            kind: "Deployment".to_string(),
        }),
        metadata: ObjectMeta::default(),
        data: json(r##"{
            "spec": {
                "selector": {
                    "matchLabels": {
                        "app": "new-app"
                    }
                }
            }
        }"##),
    };

    let have = KubernetesResources {
        by_key: vec![(key.clone(), old_object)],
        namespaces: Vec::new(),
    };
    let want = KubernetesResources {
        by_key: vec![(key.clone(), new_object)],
        namespaces: Vec::new(),
    };
    let diff = generate_diff(have, want).unwrap();

    assert_eq!(diff.len(), 1);
    assert_eq!(diff[0].0, key);
    assert!(matches!(diff[0].1, DiffAction::Recreate(_)));

}

#[test]
fn test_deployment_non_selector_change_triggers_patch() {
    let key = KubernetesKey {
        api_version: "apps/v1".to_string(),
        cluster: "prod".to_string(),
        kind: "Deployment".to_string(),
        name: "my-deployment".to_string(),
        namespace: Some("default".to_string()),
    };

    let old_object = DynamicObject {
        types: Some(TypeMeta {
            api_version: "apps/v1".to_string(),
            kind: "Deployment".to_string(),
        }),
        metadata: ObjectMeta::default(),
        data: json(r##"{
            "spec": {
                "replicas": 1,
                "selector": {
                    "matchLabels": {
                        "app": "my-app"
                    }
                }
            }
        }"##),
    };

    let new_object = DynamicObject {
        types: Some(TypeMeta {
            api_version: "apps/v1".to_string(),
            kind: "Deployment".to_string(),
        }),
        metadata: ObjectMeta::default(),
        data: json(r##"{
            "spec": {
                "replicas": 3,
                "selector": {
                    "matchLabels": {
                        "app": "my-app"
                    }
                }
            }
        }"##),
    };

    let have = KubernetesResources {
        by_key: vec![(key.clone(), old_object)],
        namespaces: Vec::new(),
    };
    let want = KubernetesResources {
        by_key: vec![(key.clone(), new_object)],
        namespaces: Vec::new(),
    };
    let diff = generate_diff(have, want).unwrap();

    assert_eq!(diff.len(), 1);
    assert_eq!(diff[0].0, key);
    assert!(matches!(diff[0].1, DiffAction::Patch { .. }));

}

#[test]
fn test_job_template_change_triggers_recreate() {
    let key = KubernetesKey {
        api_version: "batch/v1".to_string(),
        cluster: "prod".to_string(),
        kind: "Job".to_string(),
        name: "my-job".to_string(),
        namespace: Some("default".to_string()),
    };

    let old_object = DynamicObject {
        types: Some(TypeMeta {
            api_version: "batch/v1".to_string(),
            kind: "Job".to_string(),
        }),
        metadata: ObjectMeta::default(),
        data: json(r##"{
            "spec": {
                "template": {
                    "spec": {
                        "containers": [{
                            "name": "job",
                            "image": "busybox:1.0"
                        }]
                    }
                }
            }
        }"##),
    };

    let new_object = DynamicObject {
        types: Some(TypeMeta {
            api_version: "batch/v1".to_string(),
            kind: "Job".to_string(),
        }),
        metadata: ObjectMeta::default(),
        data: json(r##"{
            "spec": {
                "template": {
                    "spec": {
                        "containers": [{
                            "name": "job",
                            "image": "busybox:2.0"
                        }]
                    }
                }
            }
        }"##),
    };

    let have = KubernetesResources {
        by_key: vec![(key.clone(), old_object)],
        namespaces: Vec::new(),
    };
    let want = KubernetesResources {
        by_key: vec![(key.clone(), new_object)],
        namespaces: Vec::new(),
    };
    let diff = generate_diff(have, want).unwrap();

    assert_eq!(diff.len(), 1);
    assert_eq!(diff[0].0, key);
    assert!(matches!(diff[0].1, DiffAction::Recreate(_)));

}

#[test]
fn test_job_non_template_change_triggers_patch() {
    let key = KubernetesKey {
        api_version: "batch/v1".to_string(),
        cluster: "prod".to_string(),
        kind: "Job".to_string(),
        name: "my-job".to_string(),
        namespace: Some("default".to_string()),
    };

    let old_object = DynamicObject {
        types: Some(TypeMeta {
            api_version: "batch/v1".to_string(),
            kind: "Job".to_string(),
        }),
        metadata: ObjectMeta::default(),
        data: json(r##"{
            "meta": {
                "labels": {
                    "dog": "red"
                },
                "template": {
                    "spec": {
                        "containers": [{
                            "name": "job",
                            "image": "busybox:1.0"
                        }]
                    }
                }
            }
        }"##),
    };

    let new_object = DynamicObject {
        types: Some(TypeMeta {
            api_version: "batch/v1".to_string(),
            kind: "Job".to_string(),
        }),
        metadata: ObjectMeta::default(),
        data: json(r##"{
            "spec": {
                "labels": {
                    "dog": "blue"
                },
                "template": {
                    "spec": {
                        "containers": [{
                            "name": "job",
                            "image": "busybox:1.0"
                        }]
                    }
                }
            }
        }"##),
    };

    let have = KubernetesResources {
        by_key: vec![(key.clone(), old_object)],
        namespaces: Vec::new(),
    };
    let want = KubernetesResources {
        by_key: vec![(key.clone(), new_object)],
        namespaces: Vec::new(),
    };
    let diff = generate_diff(have, want).unwrap();

    assert_eq!(diff.len(), 1);
    assert_eq!(diff[0].0, key);
    assert!(matches!(diff[0].1, DiffAction::Patch { .. }));

}
