use sisyphus::key::{key_matches_filter, KubernetesKey, PartialKey};

#[test]
fn test_key_matches_filter_empty_filter() {
    let key = KubernetesKey {
        api_version: "v1".to_string(),
        cluster: "prod".to_string(),
        kind: "Pod".to_string(),
        name: "my-pod".to_string(),
        namespace: Some("default".to_string()),
    };
    let filter = PartialKey {
        api_version: None,
        cluster: None,
        kind: None,
        name: None,
        namespace: None,
    };

    assert!(key_matches_filter(&key, &filter));
}

#[test]
fn test_key_matches_filter_api_version_mismatch() {
    let key = KubernetesKey {
        api_version: "v1".to_string(),
        cluster: "prod".to_string(),
        kind: "Pod".to_string(),
        name: "my-pod".to_string(),
        namespace: Some("default".to_string()),
    };
    let filter = PartialKey {
        api_version: Some("apps/v1".to_string()),
        cluster: None,
        kind: None,
        name: None,
        namespace: None,
    };

    assert!(!key_matches_filter(&key, &filter));
}

#[test]
fn test_key_matches_filter_cluster_mismatch() {
    let key = KubernetesKey {
        api_version: "v1".to_string(),
        cluster: "prod".to_string(),
        kind: "Pod".to_string(),
        name: "my-pod".to_string(),
        namespace: Some("default".to_string()),
    };
    let filter = PartialKey {
        api_version: None,
        cluster: Some("dev".to_string()),
        kind: None,
        name: None,
        namespace: None,
    };

    assert!(!key_matches_filter(&key, &filter));
}

#[test]
fn test_key_matches_filter_kind_mismatch() {
    let key = KubernetesKey {
        api_version: "v1".to_string(),
        cluster: "prod".to_string(),
        kind: "Pod".to_string(),
        name: "my-pod".to_string(),
        namespace: Some("default".to_string()),
    };
    let filter = PartialKey {
        api_version: None,
        cluster: None,
        kind: Some("Deployment".to_string()),
        name: None,
        namespace: None,
    };

    assert!(!key_matches_filter(&key, &filter));
}

#[test]
fn test_key_matches_filter_name_mismatch() {
    let key = KubernetesKey {
        api_version: "v1".to_string(),
        cluster: "prod".to_string(),
        kind: "Pod".to_string(),
        name: "my-pod".to_string(),
        namespace: Some("default".to_string()),
    };
    let filter = PartialKey {
        api_version: None,
        cluster: None,
        kind: None,
        name: Some("other-pod".to_string()),
        namespace: None,
    };

    assert!(!key_matches_filter(&key, &filter));
}

#[test]
fn test_key_matches_filter_namespace_mismatch() {
    let key = KubernetesKey {
        api_version: "v1".to_string(),
        cluster: "prod".to_string(),
        kind: "Pod".to_string(),
        name: "my-pod".to_string(),
        namespace: Some("default".to_string()),
    };
    let filter = PartialKey {
        api_version: None,
        cluster: None,
        kind: None,
        name: None,
        namespace: Some("production".to_string()),
    };

    assert!(!key_matches_filter(&key, &filter));
}

#[test]
fn test_key_matches_filter_partial_match() {
    let key = KubernetesKey {
        api_version: "v1".to_string(),
        cluster: "prod".to_string(),
        kind: "Pod".to_string(),
        name: "my-pod".to_string(),
        namespace: Some("default".to_string()),
    };
    let filter = PartialKey {
        api_version: Some("v1".to_string()),
        cluster: Some("prod".to_string()),
        kind: None,
        name: None,
        namespace: None,
    };

    assert!(key_matches_filter(&key, &filter));
}

#[test]
fn test_key_matches_filter_none_namespace_key() {
    let key = KubernetesKey {
        api_version: "v1".to_string(),
        cluster: "prod".to_string(),
        kind: "Namespace".to_string(),
        name: "default".to_string(),
        namespace: None,
    };
    let filter = PartialKey {
        api_version: None,
        cluster: None,
        kind: None,
        name: None,
        namespace: None,
    };

    assert!(key_matches_filter(&key, &filter));
}
