use sisyphus::apply_diff::{
    api_namespace, apply_diff, apply_single_diff, refresh_step, validate_plan, validate_scope,
    ApplyStep, KnownType, Scope, ScopeError,
};
use sisyphus::comparable::{copy_single_unspecified_data, make_comparable, own_fields};
use sisyphus::config_image::{
    Application, Argument, ArgumentValues, ConfigImageIndex, FileVariable, Port, Protocol,
    Resources, StringVariable,
};
use sisyphus::diff::{
    decide_action, generate_diff, generate_single_diff, requires_recreate, DiffAction, DiffError,
    PatchOp,
};
use sisyphus::ingest::{adopt_objects, ask_for_user_permission, folder_scope, is_blank};
use sisyphus::json::Json;
use sisyphus::key::{key_matches_filter, namespace_or_default, FullKey, KubernetesKey, PartialKey};
use sisyphus::kubernetes_rendering::{
    build_container_config, render_argument, render_sisyphus_resource, RenderError, Rendered,
    RenderedArgument,
};
use sisyphus::merge::{build_selectors, copy_unmanaged_fields, MergeError};
use sisyphus::orchestrate::{
    database_key, diff, import, insert_database_object, refresh, split_namespaces,
    synthesize_namespaces,
};
use sisyphus::registry_clients::{
    get_client, get_reference_and_registry, resolve_image_tag, Credential, RegistryError,
};
use sisyphus::resources::{
    put_object, DynamicObject, KubernetesResources, ObjectMeta, TypeMeta,
};
use sisyphus::run_config::{as_env_key, build_config_local, resolve_argument_local, RunError};
use sisyphus::run_image::{binary_image, build_config_container, podman_arguments};
use sisyphus::secrets::{munge_secrets, SecretError};
use sisyphus::sisyphus_yaml::{
    insert_sisyphus_resource, DeploymentConfig, DeploymentFootprintEntry, HasConfigImage, HasKind,
    IngestError, KubernetesSecretKeyRef, KubernetesYaml, Metadata, SisyphusDeployment,
    SisyphusResource, SisyphusYaml, VariableSource,
};
use sisyphus::sql_types::decode;

fn from_value(value: &serde_json::Value) -> Json {
    match value {
        serde_json::Value::Null => Json::Null,
        serde_json::Value::Bool(b) => Json::Bool(*b),
        serde_json::Value::Number(n) => Json::Number(n.to_string()),
        serde_json::Value::String(s) => Json::String(s.clone()),
        serde_json::Value::Array(items) => Json::Array(items.iter().map(from_value).collect()),
        serde_json::Value::Object(map) => {
            Json::Object(map.iter().map(|(k, v)| (k.clone(), from_value(v))).collect())
        }
    }
}

fn json(text: &str) -> Json {
    from_value(&serde_json::from_str(text).unwrap())
}

fn members(text: &str) -> Vec<(String, Json)> {
    match json(text) {
        Json::Object(members) => members,
        other => panic!("Expected an object, got {:?}", other),
    }
}

fn merge_with_removals(have: &Json, want: &Json, managed: &Json) -> (Json, Vec<String>) {
    let mut path = vec!["".to_string()];
    let mut remove_patches = Vec::new();
    let merged =
        copy_unmanaged_fields(have, want, managed, &mut path, &mut remove_patches).unwrap();
    assert_eq!(path, vec!["".to_string()]);
    (merged, remove_patches)
}

fn merge_error(have: &Json, want: &Json, managed: &Json) -> MergeError {
    let mut path = vec!["".to_string()];
    let mut remove_patches = Vec::new();
    copy_unmanaged_fields(have, want, managed, &mut path, &mut remove_patches).unwrap_err()
}

fn key(api_version: &str, kind: &str, name: &str, namespace: Option<&str>) -> KubernetesKey {
    KubernetesKey {
        api_version: api_version.to_string(),
        cluster: "prod".to_string(),
        kind: kind.to_string(),
        name: name.to_string(),
        namespace: namespace.map(|n| n.to_string()),
    }
}

fn object(api_version: &str, kind: &str, metadata: &str, data: &str) -> DynamicObject {
    DynamicObject {
        types: Some(TypeMeta { api_version: api_version.to_string(), kind: kind.to_string() }),
        metadata: ObjectMeta { fields: members(metadata) },
        data: json(data),
    }
}

fn resources(
    by_key: Vec<(KubernetesKey, DynamicObject)>,
    namespaces: Vec<(KubernetesKey, DynamicObject)>,
) -> KubernetesResources {
    let mut made = KubernetesResources { by_key: Vec::new(), namespaces: Vec::new() };
    for (k, o) in by_key {
        put_object(&mut made.by_key, k, o);
    }
    for (k, o) in namespaces {
        put_object(&mut made.namespaces, k, o);
    }
    made
}

// The merge

#[test]
fn merging_twice_equals_merging_once() {
    let have = json(
        r#"{"spec": {"replicas": "3", "clusterIP": "10.0.0.1", "ports": [1, 2]}, "kept": true}"#,
    );
    let want = json(r#"{"spec": {"replicas": 5, "ports": [1, 3, 4]}, "added": {"a": null}}"#);
    let managed = json(r#"{"f:spec": {"f:replicas": {}}}"#);
    let (once, _) = merge_with_removals(&have, &want, &managed);
    let (twice, removals) = merge_with_removals(&have, &once, &managed);
    assert_eq!(twice, once);
    assert!(removals.is_empty());
    assert_eq!(
        once,
        json(
            r#"{"added": {"a": null}, "kept": true,
                "spec": {"clusterIP": "10.0.0.1", "ports": [1, 3, 4], "replicas": "5"}}"#
        )
    );
}

#[test]
fn merging_twice_can_differ_once_an_element_was_removed() {
    let have = json(r#"[{"a": 1}, 2]"#);
    let want = json(r#"[null, {"b": 2}]"#);
    let (once, removals) = merge_with_removals(&have, &want, &Json::Null);
    assert_eq!(once, json(r#"[{"b": 2}]"#));
    assert_eq!(removals, vec!["/0".to_string()]);
    let (twice, _) = merge_with_removals(&have, &once, &Json::Null);
    assert_eq!(twice, json(r#"[{"a": 1, "b": 2}]"#));
}

#[test]
fn merging_a_document_into_itself_changes_nothing() {
    let document = json(r#"{"a": [1, null, {"b": "c"}], "d": {"e": 1.5, "f": null}}"#);
    let (merged, removals) = merge_with_removals(&document, &document, &Json::Null);
    assert_eq!(merged, document);
    assert!(removals.is_empty());
}

#[test]
fn unowned_values_are_preserved_at_nested_paths() {
    let have = json(r#"{"spec": {"template": {"nodeName": "n1", "image": "old"}}}"#);
    let want = json(r#"{"spec": {"template": {"image": "new"}}}"#);
    let managed = json(r#"{"f:spec": {"f:template": {"f:image": {}}}}"#);
    let (merged, _) = merge_with_removals(&have, &want, &managed);
    assert_eq!(merged, json(r#"{"spec": {"template": {"nodeName": "n1", "image": "new"}}}"#));
}

#[test]
fn a_wanted_value_replaces_an_unowned_one() {
    let (merged, _) =
        merge_with_removals(&json(r#"{"a": 1}"#), &json(r#"{"a": 2}"#), &Json::Null);
    assert_eq!(merged, json(r#"{"a": 2}"#));
}

#[test]
fn replace_env_var_preserve_sibling() {
    let have = json(r#"[{"name": "A", "value": "old"}, {"name": "B", "value": "old"}]"#);
    let want = json(
        r#"[{"name": "A", "valueFrom": {"secretKeyRef": {"key": "k", "name": "s"}}},
            {"name": "B", "value": "old"}]"#,
    );
    let managed = json(r#"{"k:{\"name\":\"A\"}": {".": {}, "f:name": {}, "f:value": {}}}"#);
    let (merged, removals) = merge_with_removals(&have, &want, &managed);
    assert_eq!(
        merged,
        json(
            r#"[{"name": "A", "valueFrom": {"secretKeyRef": {"key": "k", "name": "s"}}},
                {"name": "B", "value": "old"}]"#
        )
    );
    assert!(removals.is_empty());
}

#[test]
fn array_null_removes_unowned_element() {
    let (merged, removals) =
        merge_with_removals(&json("[1, 2, 3]"), &json("[1, null, 3]"), &Json::Null);
    assert_eq!(merged, json("[1, 3]"));
    assert_eq!(removals, vec!["/1".to_string()]);
}

#[test]
fn removal_paths_name_the_place_of_the_element() {
    let have = json(r#"{"spec": {"ports": [0, 1, 2, 3, 4, 5, 6, 7, 8, 9, 10, 11]}}"#);
    let want = json(r#"{"spec": {"ports": [0, 1, 2, 3, 4, 5, 6, 7, 8, 9, 10, null]}}"#);
    let (merged, removals) = merge_with_removals(&have, &want, &Json::Null);
    assert_eq!(merged, json(r#"{"spec": {"ports": [0, 1, 2, 3, 4, 5, 6, 7, 8, 9, 10]}}"#));
    assert_eq!(removals, vec!["/spec/ports/11".to_string()]);
}

#[test]
fn a_null_element_under_a_selector_is_kept() {
    let have = json(r#"[1, {"name": "a"}]"#);
    let want = json(r#"[null, null]"#);
    let managed = json(r#"{"k:{}": {"f:x": {}}}"#);
    let (merged, removals) = merge_with_removals(&have, &want, &managed);
    // The empty selector matches the first element; the second has no selector left.
    assert_eq!(merged, json("[null]"));
    assert_eq!(removals, vec!["/1".to_string()]);
}

#[test]
fn string_number_coercion() {
    let (merged, _) = merge_with_removals(&json(r#""123""#), &json("456"), &Json::Null);
    assert_eq!(merged, json(r#""456""#));
    let (owned, _) = merge_with_removals(&json(r#""1""#), &json("2.5"), &json("{}"));
    assert_eq!(owned, json(r#""2.5""#));
}

#[test]
fn selector_errors() {
    let have = json("[1]");
    let want = json("[2]");
    match merge_error(&have, &want, &json(r#"{"selector": {}}"#)) {
        MergeError::UnknownSelector(key) => assert_eq!(key, "selector"),
        other => panic!("Unexpected {:?}", other),
    }
    match merge_error(&have, &want, &json(r#"{"f:name": {}}"#)) {
        MergeError::UnknownSelectorType(kind) => assert_eq!(kind, "f"),
        other => panic!("Unexpected {:?}", other),
    }
    match merge_error(&have, &want, &json(r#"{"k:[1]": {}}"#)) {
        MergeError::InvalidSelector(body) => assert_eq!(body, "[1]"),
        other => panic!("Unexpected {:?}", other),
    }
    assert_eq!(
        merge_error(&have, &want, &json(r#"{"selector": {}}"#)).message(),
        "Unknown selector selector"
    );
    assert_eq!(
        merge_error(&have, &want, &json(r#"{"f:name": {}}"#)).message(),
        "Unknown type of selector f"
    );
    assert_eq!(
        merge_error(&have, &want, &json(r#"{"k:[1]": {}}"#)).message(),
        "Invalid selector [1]"
    );
}

#[test]
fn selectors_are_read_in_key_order() {
    let managed = members(r#"{"k:{\"name\":\"b\"}": {"f:b": {}}, "k:{\"name\":\"a\",\"port\":80}": 1}"#);
    let selectors = build_selectors(&managed).unwrap();
    assert_eq!(selectors.len(), 2);
    assert_eq!(selectors[0].matcher, members(r#"{"name": "a", "port": 80}"#));
    assert_eq!(selectors[0].data, json("1"));
    assert_eq!(selectors[1].matcher, members(r#"{"name": "b"}"#));
    assert_eq!(selectors[1].data, json(r#"{"f:b": {}}"#));
}

// Keys and filters

#[test]
fn key_text_and_order() {
    let namespaced = key("v1", "Pod", "web", Some("default"));
    let global = key("v1", "Namespace", "default", None);
    assert_eq!(namespaced.to_text(), "Pod default/web (prod)");
    assert_eq!(global.to_text(), "Namespace default (prod)");
    assert!(global.before(&namespaced));
    assert!(!namespaced.before(&global));
    assert!(!namespaced.before(&namespaced));
    assert!(key("v1", "Pod", "web", None).before(&key("v1", "Pod", "web", Some(""))));
    assert!(key("v1", "Pod", "a", Some("z")).before(&key("v1", "Pod", "b", Some("a"))));
    assert!(namespaced.same(&namespaced.duplicate()));
    assert!(global.is_namespace());
    assert!(!namespaced.is_namespace());
}

#[test]
fn filter_on_every_field() {
    let k = key("v1", "Pod", "web", Some("default"));
    let filter = PartialKey {
        api_version: Some("v1".to_string()),
        cluster: Some("prod".to_string()),
        kind: Some("Pod".to_string()),
        name: Some("web".to_string()),
        namespace: Some("default".to_string()),
    };
    assert!(key_matches_filter(&k, &filter));
    assert!(!key_matches_filter(&key("v1", "Pod", "web", None), &filter));
}

#[test]
fn full_key_and_stored_namespace() {
    let full = FullKey {
        api_version: "v1".to_string(),
        cluster: "prod".to_string(),
        kind: "Pod".to_string(),
        name: "web".to_string(),
        namespace: None,
    };
    assert_eq!(full.into_key(), key("v1", "Pod", "web", None));
    assert_eq!(namespace_or_default(None), "");
    assert_eq!(namespace_or_default(Some("ns".to_string())), "ns");
    assert_eq!(
        database_key(
            "v1".to_string(),
            "prod".to_string(),
            "Pod".to_string(),
            "".to_string(),
            "web".to_string()
        ),
        key("v1", "Pod", "web", None)
    );
    assert_eq!(
        database_key(
            "v1".to_string(),
            "prod".to_string(),
            "Pod".to_string(),
            "ns".to_string(),
            "web".to_string()
        ),
        key("v1", "Pod", "web", Some("ns"))
    );
}

// The diff engine

#[test]
fn selector_change_forces_recreate() {
    let k = key("apps/v1", "Deployment", "web", Some("default"));
    let old = object(
        "apps/v1",
        "Deployment",
        r#"{"name": "web", "resourceVersion": "41", "uid": "abc"}"#,
        r#"{"spec": {"selector": {"matchLabels": {"app": "old"}}}}"#,
    );
    let new = object(
        "apps/v1",
        "Deployment",
        r#"{"name": "web", "resourceVersion": "41", "uid": "abc"}"#,
        r#"{"spec": {"selector": {"matchLabels": {"app": "new"}}}}"#,
    );
    let plan = generate_diff(
        resources(vec![(k.clone(), old)], vec![]),
        resources(vec![(k.clone(), new)], vec![]),
    )
    .unwrap();
    assert_eq!(plan.len(), 1);
    assert_eq!(plan[0].0, k);
    match &plan[0].1 {
        DiffAction::Recreate(payload) => {
            assert_eq!(payload.metadata.text("resourceVersion"), None);
            assert_eq!(payload.metadata.text("uid"), None);
            assert_eq!(payload.metadata.text("name"), Some("web".to_string()));
            assert_eq!(payload.data, json(r#"{"spec": {"selector": {"matchLabels": {"app": "new"}}}}"#));
        }
        other => panic!("Expected a recreation, got {:?}", other),
    }
}

#[test]
fn a_patch_holds_the_operations_of_the_difference() {
    let k = key("v1", "ConfigMap", "settings", Some("default"));
    let old = object("v1", "ConfigMap", "{}", r#"{"data": {"a": "1", "b": "2"}, "list": [1, 2]}"#);
    let new = object("v1", "ConfigMap", "{}", r#"{"data": {"a": "3", "c": "4"}, "list": [1]}"#);
    let plan = generate_diff(
        resources(vec![(k.clone(), old)], vec![]),
        resources(vec![(k.clone(), new.clone())], vec![]),
    )
    .unwrap();
    match &plan[0].1 {
        DiffAction::Patch { after, patch } => {
            assert!(after.equals(&new));
            let shown: Vec<String> = patch
                .iter()
                .map(|op| match op {
                    PatchOp::Add { path, value } => format!("add {} {:?}", path, value),
                    PatchOp::Remove { path } => format!("remove {}", path),
                    PatchOp::Replace { path, value } => format!("replace {} {:?}", path, value),
                    other => format!("{:?}", other),
                })
                .collect();
            assert_eq!(
                shown,
                vec![
                    "replace /data/a String(\"3\")".to_string(),
                    "add /data/c String(\"4\")".to_string(),
                    "remove /data/b".to_string(),
                    "remove /list/1".to_string(),
                ]
            );
        }
        other => panic!("Expected a patch, got {:?}", other),
    }
}

#[test]
fn recreate_only_below_the_prefix_of_the_kind() {
    let deployment = TypeMeta { api_version: "apps/v1".to_string(), kind: "Deployment".to_string() };
    let job = TypeMeta { api_version: "batch/v1".to_string(), kind: "Job".to_string() };
    let pod = TypeMeta { api_version: "v1".to_string(), kind: "Pod".to_string() };
    let at = |path: &str| vec![PatchOp::Remove { path: path.to_string() }];
    assert!(requires_recreate(&deployment, &at("/spec/selector/matchLabels/app")));
    assert!(!requires_recreate(&deployment, &at("/spec/selector")));
    assert!(!requires_recreate(&deployment, &at("/spec/template/spec")));
    assert!(requires_recreate(&job, &at("/spec/template/spec")));
    assert!(!requires_recreate(&job, &at("/spec/selector/matchLabels")));
    assert!(!requires_recreate(&pod, &at("/spec/selector/x")));
    assert!(requires_recreate(
        &deployment,
        &vec![
            PatchOp::Add { path: "/metadata/labels/a".to_string(), value: Json::Null },
            PatchOp::Replace { path: "/spec/selector/x".to_string(), value: Json::Null },
        ]
    ));
    assert!(!requires_recreate(
        &deployment,
        &vec![PatchOp::Test { path: "/spec/selector/x".to_string(), value: Json::Null }]
    ));
    assert!(!requires_recreate(
        &deployment,
        &vec![PatchOp::Move { from: "/a".to_string(), path: "/spec/selector/x".to_string() }]
    ));
    assert!(!requires_recreate(&deployment, &Vec::new()));
}

#[test]
fn diff_errors() {
    assert_eq!(generate_single_diff(None, None).unwrap_err(), DiffError::NoDifference);
    let typed = object("v1", "ConfigMap", "{}", r#"{"a": 1}"#);
    let mut untyped = object("v1", "ConfigMap", "{}", r#"{"a": 2}"#);
    untyped.types = None;
    assert_eq!(
        generate_single_diff(Some(typed.clone()), Some(untyped.clone())).unwrap_err(),
        DiffError::MissingTypes
    );
    assert_eq!(decide_action(untyped, Vec::new()).unwrap_err(), DiffError::MissingTypes);
    let mut broken = typed.clone();
    broken.data = Json::Object(vec![("a".to_string(), Json::Number("one".to_string()))]);
    assert_eq!(
        generate_single_diff(Some(typed), Some(broken)).unwrap_err(),
        DiffError::InvalidDocument
    );
    assert_eq!(DiffError::NoDifference.message(), "Expected a difference");
    assert_eq!(DiffError::MissingTypes.message(), "Expected types");
}

#[test]
fn verbs_of_actions() {
    let o = object("v1", "ConfigMap", "{}", "{}");
    assert_eq!(DiffAction::Create(o.clone()).verb(), "create");
    assert_eq!(DiffAction::Delete.verb(), "delete");
    assert_eq!(DiffAction::Recreate(o.clone()).verb(), "delete and recreate");
    assert_eq!(DiffAction::Patch { after: o, patch: Vec::new() }.verb(), "patch");
}

#[test]
fn namespaces_are_created_first_and_deleted_last() {
    let ns_new = key("v1", "Namespace", "fresh", None);
    let ns_old = key("v1", "Namespace", "stale", None);
    let pod_new = key("v1", "Pod", "a-new", Some("fresh"));
    let pod_old = key("v1", "Pod", "z-old", Some("stale"));
    let namespace = |name: &str| object("v1", "Namespace", &format!(r#"{{"name": "{}"}}"#, name), "{}");
    let pod = |name: &str| object("v1", "Pod", &format!(r#"{{"name": "{}"}}"#, name), "{}");
    let have = resources(
        vec![(pod_old.clone(), pod("z-old"))],
        vec![(ns_old.clone(), namespace("stale"))],
    );
    let want = resources(
        vec![(pod_new.clone(), pod("a-new"))],
        vec![(ns_new.clone(), namespace("fresh"))],
    );
    let plan = generate_diff(have, want).unwrap();
    let keys: Vec<KubernetesKey> = plan.iter().map(|(k, _)| k.clone()).collect();
    assert_eq!(keys, vec![ns_new, pod_new, pod_old, ns_old]);
    assert!(matches!(plan[0].1, DiffAction::Create(_)));
    assert!(matches!(plan[1].1, DiffAction::Create(_)));
    assert!(matches!(plan[2].1, DiffAction::Delete));
    assert!(matches!(plan[3].1, DiffAction::Delete));
}

#[test]
fn a_set_compared_with_itself_needs_nothing() {
    let make = || {
        resources(
            vec![
                (key("v1", "Pod", "b", Some("ns")), object("v1", "Pod", r#"{"name": "b"}"#, "{}")),
                (key("v1", "Pod", "a", Some("ns")), object("v1", "Pod", r#"{"name": "a"}"#, r#"{"x": [1]}"#)),
            ],
            vec![(key("v1", "Namespace", "ns", None), object("v1", "Namespace", "{}", "{}"))],
        )
    };
    assert_eq!(generate_diff(make(), make()).unwrap().len(), 0);
}

// Secrets

#[test]
fn secret_scrub_on_import_with_no_prior() {
    let mut secret =
        object("v1", "Secret", "{}", r#"{"data": {"password": "c2VjcmV0", "user": "YWRtaW4="}}"#);
    munge_secrets(None, &mut secret).unwrap();
    assert_eq!(
        secret.data,
        json(r#"{"data": {"password": "c29tZSBzdHVmZg==", "user": "c29tZSBzdHVmZg=="}}"#)
    );
}

#[test]
fn secret_scrub_on_refresh_with_prior() {
    let prior = object("v1", "Secret", "{}", r#"{"data": {"password": "OLD"}}"#);
    let mut secret = object("v1", "Secret", "{}", r#"{"data": {"password": "NEW", "api_key": "NEW"}}"#);
    munge_secrets(Some(&prior), &mut secret).unwrap();
    assert_eq!(
        secret.data,
        json(r#"{"data": {"password": "OLD", "api_key": "c29tZSBzdHVmZg=="}}"#)
    );
}

#[test]
fn secret_scrub_errors_and_edges() {
    let mut odd = object("v1", "Secret", "{}", "[1]");
    assert_eq!(munge_secrets(None, &mut odd), Err(SecretError::DataNotObject));
    assert_eq!(odd.data, json("[1]"));
    let prior = object("v1", "Secret", "{}", r#"{"data": {"a": "1"}}"#);
    let mut wrong = object("v1", "Secret", "{}", r#"{"data": "text"}"#);
    assert_eq!(munge_secrets(Some(&prior), &mut wrong), Err(SecretError::DataNotObject));
    assert_eq!(wrong.data, json(r#"{"data": "text"}"#));
    assert_eq!(SecretError::DataNotObject.message(), "data must be an object");
    // Without an earlier version, data that is no object is left alone.
    let mut lone = object("v1", "Secret", "{}", r#"{"data": "text", "stringData": {"a": "b"}}"#);
    munge_secrets(None, &mut lone).unwrap();
    assert_eq!(lone.data, json(r#"{"data": "text", "stringData": {"a": "b"}}"#));
    // With an earlier version, missing data is made.
    let mut bare = object("v1", "Secret", "{}", "{}");
    munge_secrets(Some(&prior), &mut bare).unwrap();
    assert_eq!(bare.data, json(r#"{"data": {"a": "1"}}"#));
    // Another API version is no secret.
    let mut other = object("v2", "Secret", "{}", r#"{"data": {"a": "1"}}"#);
    munge_secrets(None, &mut other).unwrap();
    assert_eq!(other.data, json(r#"{"data": {"a": "1"}}"#));
}

// Comparable objects

#[test]
fn own_fields_are_those_of_this_manager() {
    let metadata = members(
        r#"{"managedFields": [
            {"manager": "kubectl", "fieldsV1": {"f:a": {}}},
            {"manager": "sisyphus", "fieldsV1": {"f:b": {}}},
            {"manager": "sisyphus", "fieldsV1": {"f:c": {}}}
        ]}"#,
    );
    assert_eq!(own_fields(&metadata, &Some("sisyphus".to_string())), json(r#"{"f:b": {}}"#));
    assert_eq!(own_fields(&metadata, &Some("other".to_string())), Json::Null);
    assert_eq!(own_fields(&metadata, &None), Json::Null);
    assert_eq!(own_fields(&members("{}"), &Some("sisyphus".to_string())), Json::Null);
    let bare = members(r#"{"managedFields": [{"manager": "sisyphus"}]}"#);
    assert_eq!(own_fields(&bare, &Some("sisyphus".to_string())), Json::Null);
}

#[test]
fn comparable_objects_carry_what_is_not_owned() {
    let mut have = object(
        "v1",
        "Service",
        r#"{"name": "web", "namespace": "default", "uid": "u1",
            "managedFields": [{"manager": "sisyphus", "fieldsV1": {"f:spec": {"f:ports": {}}}}]}"#,
        r#"{"spec": {"clusterIP": "10.0.0.1", "ports": [80]}}"#,
    );
    let mut want = object("v1", "Service", r#"{"name": "web"}"#, r#"{"spec": {"ports": [81]}}"#);
    let mut path = vec!["".to_string()];
    let mut removals = Vec::new();
    copy_single_unspecified_data(
        &mut have,
        &mut want,
        &mut path,
        &mut removals,
        &Some("sisyphus".to_string()),
    )
    .unwrap();
    assert_eq!(want.data, json(r#"{"spec": {"clusterIP": "10.0.0.1", "ports": [81]}}"#));
    assert_eq!(want.metadata.fields, members(r#"{"name": "web", "namespace": "default", "uid": "u1"}"#));
    assert_eq!(have.metadata.fields, members(r#"{"name": "web", "namespace": "default", "uid": "u1"}"#));
    assert!(removals.is_empty());
    assert_eq!(want.types.as_ref().unwrap().kind, "Service");
}

#[test]
fn make_comparable_collects_removals_by_key() {
    let k = key("v1", "ConfigMap", "settings", Some("default"));
    let lonely = key("v1", "ConfigMap", "new", Some("default"));
    let have = resources(
        vec![(k.clone(), object("v1", "ConfigMap", r#"{"name": "settings"}"#, r#"{"list": [1, 2]}"#))],
        vec![],
    );
    let want = resources(
        vec![
            (k.clone(), object("v1", "ConfigMap", r#"{"name": "settings"}"#, r#"{"list": [null, 2]}"#)),
            (lonely.clone(), object("v1", "ConfigMap", r#"{"name": "new"}"#, r#"{"list": [null]}"#)),
        ],
        vec![],
    );
    let (live, wanted, removals) = make_comparable(have, want).unwrap();
    assert_eq!(live.by_key.len(), 1);
    assert_eq!(wanted.by_key.len(), 2);
    assert_eq!(removals, vec![(k.clone(), vec!["/list/0".to_string()])]);
    let settled = wanted.by_key.iter().find(|(found, _)| found == &k).unwrap();
    assert_eq!(settled.1.data, json(r#"{"list": [2]}"#));
    let untouched = wanted.by_key.iter().find(|(found, _)| found == &lonely).unwrap();
    assert_eq!(untouched.1.data, json(r#"{"list": [null]}"#));
}

#[test]
fn documents_and_objects() {
    let o = object("v1", "Pod", r#"{"name": "a"}"#, r#"{"spec": {"x": 1}}"#);
    let document = o.to_document();
    assert_eq!(
        document,
        json(r#"{"apiVersion": "v1", "kind": "Pod", "metadata": {"name": "a"}, "spec": {"x": 1}}"#)
    );
    let back = DynamicObject::from_document(&document).unwrap();
    assert!(back.equals(&o));
    assert!(DynamicObject::from_document(&json("[1]")).is_none());
    let untyped = DynamicObject::from_document(&json(r#"{"kind": "Pod", "a": 1}"#)).unwrap();
    assert!(untyped.types.is_none());
    assert_eq!(untyped.data, json(r#"{"kind": "Pod", "a": 1}"#));
    assert!(untyped.metadata.fields.is_empty());
    assert!(is_blank(&DynamicObject::from_document(&json("{}")).unwrap()));
    assert!(!is_blank(&o));
}

// The pipelines

#[test]
fn diff_prepares_filters_and_compares() {
    let pod = key("v1", "Pod", "web", Some("default"));
    let secret = key("v1", "Secret", "creds", Some("default"));
    let other = key("v1", "Pod", "web", Some("elsewhere"));
    let from_files = resources(
        vec![
            (pod.clone(), object("v1", "Pod", r#"{"name": "web"}"#, r#"{"spec": {"image": "b"}}"#)),
            (secret.clone(), object("v1", "Secret", r#"{"name": "creds"}"#, r#"{"data": {"k": "TkVX"}}"#)),
            (other.clone(), object("v1", "Pod", r#"{"name": "web"}"#, "{}")),
        ],
        vec![],
    );
    let from_database = resources(
        vec![
            (
                pod.clone(),
                object(
                    "v1",
                    "Pod",
                    r#"{"name": "web", "resourceVersion": "7", "uid": "u"}"#,
                    r#"{"spec": {"image": "a", "nodeName": "n1"}}"#,
                ),
            ),
            (secret.clone(), object("v1", "Secret", r#"{"name": "creds"}"#, r#"{"data": {"k": "T0xE"}}"#)),
        ],
        vec![],
    );
    let filter = PartialKey {
        api_version: None,
        cluster: None,
        kind: None,
        name: None,
        namespace: Some("default".to_string()),
    };
    let plan = diff(&filter, from_files, from_database).unwrap();
    assert_eq!(plan.len(), 1);
    assert_eq!(plan[0].0, pod);
    match &plan[0].1 {
        DiffAction::Patch { after, patch } => {
            assert_eq!(after.metadata.text("resourceVersion"), Some("7".to_string()));
            assert_eq!(after.metadata.text("uid"), Some("u".to_string()));
            assert_eq!(after.data, json(r#"{"spec": {"image": "b", "nodeName": "n1"}}"#));
            assert_eq!(patch.len(), 1);
        }
        other => panic!("Expected a patch, got {:?}", other),
    }
}

#[test]
fn refresh_scrubs_what_the_cluster_shows() {
    let secret = key("v1", "Secret", "creds", Some("default"));
    let gone = key("v1", "Pod", "gone", Some("default"));
    let from_database = resources(
        vec![
            (secret.clone(), object("v1", "Secret", "{}", r#"{"data": {"k": "T0xE"}}"#)),
            (gone.clone(), object("v1", "Pod", "{}", "{}")),
        ],
        vec![],
    );
    let from_kubernetes = resources(
        vec![(secret.clone(), object("v1", "Secret", "{}", r#"{"data": {"k": "TkVX"}}"#))],
        vec![],
    );
    let plan = refresh(from_database, from_kubernetes).unwrap();
    assert_eq!(plan.len(), 1);
    assert_eq!(plan[0].0, gone);
    assert!(matches!(plan[0].1, DiffAction::Delete));
    assert_eq!(refresh_step(&plan[0].1), ApplyStep::DatabaseDelete);
}

#[test]
fn namespaces_are_split_and_synthesized() {
    let mut set = KubernetesResources { by_key: Vec::new(), namespaces: Vec::new() };
    insert_database_object(
        &mut set,
        key("v1", "Namespace", "declared", None),
        object("v1", "Namespace", r#"{"name": "declared", "labels": {"a": "b"}}"#, "{}"),
    );
    assert_eq!(set.namespaces.len(), 1);
    let mut mixed = KubernetesResources {
        by_key: vec![
            (key("v1", "Namespace", "late", None), object("v1", "Namespace", r#"{"name": "late"}"#, "{}")),
            (key("v1", "Pod", "web", Some("declared")), object("v1", "Pod", "{}", "{}")),
            (key("v1", "Pod", "web", Some("implied")), object("v1", "Pod", "{}", "{}")),
            (key("rbac/v1", "ClusterRole", "admin", None), object("rbac/v1", "ClusterRole", "{}", "{}")),
        ],
        namespaces: set.namespaces,
    };
    split_namespaces(&mut mixed);
    assert_eq!(mixed.by_key.len(), 3);
    assert_eq!(mixed.namespaces.len(), 2);
    synthesize_namespaces(&mut mixed);
    let names: Vec<&str> = mixed.namespaces.iter().map(|(k, _)| k.name.as_str()).collect();
    assert_eq!(names, vec!["declared", "implied", "late"]);
    let declared = &mixed.namespaces[0].1;
    assert_eq!(declared.metadata.fields, members(r#"{"name": "declared", "labels": {"a": "b"}}"#));
    let implied = &mixed.namespaces[1];
    assert_eq!(implied.0, key("v1", "Namespace", "implied", None));
    assert_eq!(
        implied.1.to_document(),
        json(r#"{"apiVersion": "v1", "kind": "Namespace", "metadata": {"name": "implied"}}"#)
    );
}

#[test]
fn import_scrubs_and_drops_managed_fields() {
    let mut secret = object(
        "v1",
        "Secret",
        r#"{"name": "creds", "managedFields": [{"manager": "kubectl"}]}"#,
        r#"{"data": {"k": "c2VjcmV0"}}"#,
    );
    import(&mut secret).unwrap();
    assert_eq!(secret.metadata.fields, members(r#"{"name": "creds"}"#));
    assert_eq!(secret.data, json(r#"{"data": {"k": "c29tZSBzdHVmZg=="}}"#));
}

// The apply executor

#[test]
fn steps_of_each_action() {
    let o = object("v1", "ConfigMap", "{}", "{}");
    assert_eq!(
        apply_single_diff(&DiffAction::Create(o.clone())),
        vec![ApplyStep::ServerSideApply { force: true }, ApplyStep::DatabaseInsert]
    );
    assert_eq!(
        apply_single_diff(&DiffAction::Patch { after: o.clone(), patch: Vec::new() }),
        vec![ApplyStep::JsonPatch, ApplyStep::DatabaseUpdate]
    );
    assert_eq!(
        apply_single_diff(&DiffAction::Delete),
        vec![ApplyStep::Delete, ApplyStep::DatabaseDelete]
    );
    assert_eq!(
        apply_single_diff(&DiffAction::Recreate(o.clone())),
        vec![
            ApplyStep::Delete,
            ApplyStep::AwaitTombstone,
            ApplyStep::ServerSideApply { force: true },
            ApplyStep::DatabaseUpdate
        ]
    );
    assert_eq!(refresh_step(&DiffAction::Create(o)), ApplyStep::DatabaseUpdate);
}

#[test]
fn tombstones_are_awaited_after_all_actions() {
    let o = object("v1", "ConfigMap", "{}", "{}");
    let plan = vec![
        (key("v1", "ConfigMap", "a", Some("ns")), DiffAction::Delete),
        (key("v1", "ConfigMap", "b", Some("ns")), DiffAction::Create(o)),
        (key("v1", "ConfigMap", "c", Some("ns")), DiffAction::Delete),
    ];
    assert_eq!(
        apply_diff(&plan),
        vec![
            (0, ApplyStep::Delete),
            (0, ApplyStep::DatabaseDelete),
            (1, ApplyStep::ServerSideApply { force: true }),
            (1, ApplyStep::DatabaseInsert),
            (2, ApplyStep::Delete),
            (2, ApplyStep::DatabaseDelete),
            (0, ApplyStep::AwaitTombstone),
            (2, ApplyStep::AwaitTombstone),
        ]
    );
    assert!(apply_diff(&Vec::new()).is_empty());
}

#[test]
fn scope_is_checked_before_anything_is_applied() {
    let types = vec![
        KnownType { api_version: "v1".to_string(), kind: "Pod".to_string(), scope: Scope::Namespaced },
        KnownType { api_version: "v1".to_string(), kind: "Namespace".to_string(), scope: Scope::Cluster },
    ];
    assert_eq!(validate_scope(&key("v1", "Pod", "a", Some("ns")), &types), Ok(()));
    assert_eq!(
        validate_scope(&key("v1", "Pod", "a", None), &types),
        Err(ScopeError::NamespaceMissing)
    );
    assert_eq!(validate_scope(&key("v1", "Namespace", "ns", None), &types), Ok(()));
    assert_eq!(
        validate_scope(&key("v1", "Namespace", "ns", Some("x")), &types),
        Err(ScopeError::ClusterScoped)
    );
    assert_eq!(
        validate_scope(&key("v2", "Pod", "a", Some("ns")), &types),
        Err(ScopeError::UnknownType)
    );
    let plan = vec![
        (key("v1", "Pod", "a", Some("ns")), DiffAction::Delete),
        (key("v1", "Pod", "b", None), DiffAction::Delete),
        (key("v9", "Pod", "c", None), DiffAction::Delete),
    ];
    assert_eq!(validate_plan(&plan, &types), Err((1, ScopeError::NamespaceMissing)));
    assert_eq!(validate_plan(&plan[..1].to_vec(), &types), Ok(()));
    assert_eq!(
        api_namespace(&key("v1", "Pod", "a", Some("ns")), Scope::Namespaced),
        Some("ns".to_string())
    );
    assert_eq!(
        api_namespace(&key("v1", "Pod", "a", None), Scope::Namespaced),
        Some("default".to_string())
    );
    assert_eq!(api_namespace(&key("v1", "Namespace", "a", Some("ns")), Scope::Cluster), None);
}

// Rendering

fn application() -> Application {
    Application {
        args: vec![
            ArgumentValues::Uniform(Argument::String("--serve".to_string())),
            ArgumentValues::Varying(vec![("prod".to_string(), Argument::String("x".to_string()))]),
            ArgumentValues::Uniform(Argument::Port(Port {
                name: "http".to_string(),
                number: 8080,
                protocol: Protocol::TCP,
            })),
            ArgumentValues::Uniform(Argument::FileVariable(FileVariable {
                name: "tls".to_string(),
                path: "/etc/tls/cert.pem".to_string(),
            })),
        ],
        env: vec![
            (
                "ONLY_PROD".to_string(),
                ArgumentValues::Varying(vec![("prod".to_string(), Argument::String("x".to_string()))]),
            ),
            (
                "TOKEN".to_string(),
                ArgumentValues::Uniform(Argument::StringVariable(StringVariable {
                    name: "token".to_string(),
                })),
            ),
        ],
        resources: Resources {
            requests: vec![("cpu".to_string(), ArgumentValues::Uniform(Argument::String("100m".to_string())))],
            limits: Vec::new(),
        },
    }
}

fn variables() -> Vec<(String, VariableSource)> {
    vec![
        (
            "tls".to_string(),
            VariableSource::SecretKeyRef(KubernetesSecretKeyRef {
                name: "certs".to_string(),
                key: "cert".to_string(),
            }),
        ),
        (
            "token".to_string(),
            VariableSource::SecretKeyRef(KubernetesSecretKeyRef {
                name: "tokens".to_string(),
                key: "api".to_string(),
            }),
        ),
    ]
}

fn index() -> ConfigImageIndex {
    ConfigImageIndex {
        binary_digest: "sha256:abcd".to_string(),
        binary_repository: "registry.example/app".to_string(),
        config_entrypoint: "config.star".to_string(),
    }
}

#[test]
fn varying_argument_missing_selector() {
    let (container, ports, volumes) =
        build_container_config("web", &index(), &application(), "dev", &variables()).unwrap();
    assert_eq!(
        container.args,
        Some(vec!["--serve".to_string(), "8080".to_string(), "/etc/tls/cert.pem".to_string()])
    );
    let env = container.env.unwrap();
    assert_eq!(env.len(), 1);
    assert_eq!(env[0].name, "TOKEN");
    assert_eq!(env[0].value, None);
    let reference = env[0].value_from.as_ref().unwrap().secret_key_ref.as_ref().unwrap();
    assert_eq!((reference.name.as_str(), reference.key.as_str()), ("tokens", "api"));
    assert_eq!(container.name, "web");
    assert_eq!(container.image, Some("registry.example/app@sha256:abcd".to_string()));
    assert_eq!(container.image_pull_policy, Some("IfNotPresent".to_string()));
    assert_eq!(container.termination_message_path, Some("/dev/termination-log".to_string()));
    assert_eq!(container.termination_message_policy, Some("File".to_string()));
    let needs = container.resources.unwrap();
    assert_eq!(needs.requests.unwrap()[0].1 .0, "100m");
    assert_eq!(needs.limits, None);
    assert_eq!(ports.len(), 1);
    assert_eq!(ports[0].1.container_port, 8080);
    assert_eq!(ports[0].1.protocol, Some("TCP".to_string()));
    assert_eq!(container.ports.unwrap().len(), 1);
    assert_eq!(volumes.len(), 1);
    assert_eq!(volumes[0].name, "tls");
    let secret = volumes[0].secret.as_ref().unwrap();
    assert_eq!(secret.secret_name, Some("certs".to_string()));
    assert_eq!(secret.default_mode, Some(420));
    let items = secret.items.as_ref().unwrap();
    assert_eq!(items.len(), 1);
    assert_eq!((items[0].key.as_str(), items[0].path.as_str()), ("cert", "cert.pem"));
    let mounts = container.volume_mounts.unwrap();
    assert_eq!(mounts.len(), 1);
    assert_eq!(mounts[0].mount_path, "/etc/tls");
    assert_eq!(mounts[0].name, "tls");
    assert_eq!(mounts[0].read_only, Some(true));
}

#[test]
fn files_of_one_secret_share_a_volume() {
    let file = |name: &str, path: &str| {
        ArgumentValues::Uniform(Argument::FileVariable(FileVariable {
            name: name.to_string(),
            path: path.to_string(),
        }))
    };
    let source = |key: &str| {
        VariableSource::SecretKeyRef(KubernetesSecretKeyRef {
            name: "certs".to_string(),
            key: key.to_string(),
        })
    };
    let known =
        vec![("a".to_string(), source("cert")), ("b".to_string(), source("key")), ("c".to_string(), source("cert"))];
    let mut ports = Vec::new();
    let mut volumes = Vec::new();
    let mut mounts = Vec::new();
    for arg in
        [file("a", "/etc/tls/cert.pem"), file("b", "/etc/tls/key.pem"), file("c", "/var/run/cert.pem"), file("a", "/etc/tls/cert.pem")]
    {
        render_argument(&arg, "prod", &mut ports, &known, &mut volumes, &mut mounts).unwrap();
    }
    assert_eq!(volumes.len(), 1);
    assert_eq!(volumes[0].name, "a");
    let items = volumes[0].secret.as_ref().unwrap().items.as_ref().unwrap();
    let shown: Vec<(&str, &str)> = items.iter().map(|i| (i.key.as_str(), i.path.as_str())).collect();
    assert_eq!(shown, vec![("cert", "cert.pem"), ("key", "key.pem")]);
    let paths: Vec<&str> = mounts.iter().map(|m| m.mount_path.as_str()).collect();
    assert_eq!(paths, vec!["/etc/tls", "/var/run"]);
}

#[test]
fn render_errors() {
    let mut ports = Vec::new();
    let mut volumes = Vec::new();
    let mut mounts = Vec::new();
    let unset = ArgumentValues::Uniform(Argument::StringVariable(StringVariable { name: "missing".to_string() }));
    match render_argument(&unset, "prod", &mut ports, &Vec::new(), &mut volumes, &mut mounts) {
        Err(RenderError::VariableNotSet(name)) => assert_eq!(name, "missing"),
        other => panic!("Unexpected {:?}", other),
    }
    let rootless = ArgumentValues::Uniform(Argument::FileVariable(FileVariable {
        name: "tls".to_string(),
        path: "/".to_string(),
    }));
    assert!(matches!(
        render_argument(&rootless, "prod", &mut ports, &variables(), &mut volumes, &mut mounts),
        Err(RenderError::NoFileName)
    ));
    assert!(volumes.is_empty() && mounts.is_empty());
    let mut bad_args = application();
    bad_args.args = vec![ArgumentValues::Uniform(Argument::StringVariable(StringVariable {
        name: "token".to_string(),
    }))];
    assert!(matches!(
        build_container_config("web", &index(), &bad_args, "dev", &variables()),
        Err(RenderError::NonStringArgument)
    ));
    let mut bad_needs = application();
    bad_needs.resources.limits = vec![(
        "cpu".to_string(),
        ArgumentValues::Uniform(Argument::StringVariable(StringVariable { name: "token".to_string() })),
    )];
    assert!(matches!(
        build_container_config("web", &index(), &bad_needs, "dev", &variables()),
        Err(RenderError::NonStringResource)
    ));
    assert_eq!(RenderError::VariableNotSet("x".to_string()).message(), "Variable x isn't set");
    assert_eq!(
        RenderError::UnknownPort("http".to_string()).message(),
        "The config doesn't define a port named http"
    );
    assert_eq!(RenderError::TypeFree("a".to_string()).message(), "Object a is type-free");
    assert_eq!(RenderError::NoParent.message(), "Variable path has no parent");
}

fn deployment_document() -> SisyphusDeployment {
    SisyphusDeployment {
        api_version: "sisyphus/v1".to_string(),
        metadata: Metadata {
            name: "web".to_string(),
            labels: vec![("team".to_string(), "core".to_string())],
            annotations: Vec::new(),
        },
        config: DeploymentConfig {
            env: "prod".to_string(),
            image: "registry.example/config:latest".to_string(),
            service: None,
            variables: variables(),
        },
        footprint: vec![
            ("c1".to_string(), DeploymentFootprintEntry { replicas: 3 }),
            ("c2".to_string(), DeploymentFootprintEntry { replicas: 5 }),
        ],
    }
}

#[test]
fn clusters_split() {
    let document = SisyphusResource::SisyphusDeployment(deployment_document());
    let mut by_key = Vec::new();
    render_sisyphus_resource(
        &document,
        false,
        "april.dev",
        &Some("default".to_string()),
        &mut by_key,
        Some((&index(), &application())),
    )
    .unwrap();
    assert_eq!(by_key.len(), 2);
    let (first_key, first) = &by_key[0];
    let (second_key, second) = &by_key[1];
    assert_eq!((first_key.api_version.as_str(), first_key.kind.as_str()), ("apps/v1", "Deployment"));
    assert_eq!((first_key.cluster.as_str(), second_key.cluster.as_str()), ("c1", "c2"));
    let mut relabelled = second_key.clone();
    relabelled.cluster = "c1".to_string();
    assert_eq!(&relabelled, first_key);
    let (Rendered::Deployment(a), Rendered::Deployment(b)) = (first, second) else {
        panic!("Expected two deployments");
    };
    assert_eq!(a.spec.as_ref().unwrap().replicas, Some(3));
    assert_eq!(b.spec.as_ref().unwrap().replicas, Some(5));
    let mut same = b.clone();
    same.spec.as_mut().unwrap().replicas = Some(3);
    assert_eq!(&same, a);
    assert_eq!(
        a.metadata.labels,
        Some(vec![
            ("april.dev/app".to_string(), "web".to_string()),
            ("team".to_string(), "core".to_string())
        ])
    );
    let spec = a.spec.as_ref().unwrap();
    assert_eq!(spec.selector.match_labels, a.metadata.labels);
    assert_eq!(spec.template.metadata.as_ref().unwrap().labels, a.metadata.labels);
    let pod = spec.template.spec.as_ref().unwrap();
    assert_eq!(pod.containers[0].args.as_ref().unwrap()[1], "x");
    assert_eq!(
        first.cleared_paths(),
        vec!["/spec/template/metadata/creationTimestamp".to_string()]
    );
}

#[test]
fn rendering_needs_a_namespace_and_an_image() {
    let document = SisyphusResource::SisyphusDeployment(deployment_document());
    let mut by_key = Vec::new();
    assert!(matches!(
        render_sisyphus_resource(&document, true, "april.dev", &None, &mut by_key, Some((&index(), &application()))),
        Err(RenderError::NamespaceMissing)
    ));
    assert!(matches!(
        render_sisyphus_resource(&document, true, "april.dev", &Some("ns".to_string()), &mut by_key, None),
        Err(RenderError::ImageMissing)
    ));
    let pointer = SisyphusResource::SisyphusYaml(SisyphusYaml {
        api_version: "sisyphus/v1".to_string(),
        metadata: Metadata { name: "more".to_string(), labels: Vec::new(), annotations: Vec::new() },
        sources: Vec::new(),
    });
    assert!(matches!(
        render_sisyphus_resource(&pointer, true, "april.dev", &None, &mut by_key, None),
        Err(RenderError::Unresolved)
    ));
    assert!(by_key.is_empty());
}

fn raw_document(objects: Vec<DynamicObject>) -> KubernetesYaml {
    KubernetesYaml {
        api_version: "sisyphus/v1".to_string(),
        metadata: Metadata { name: "raw".to_string(), labels: Vec::new(), annotations: Vec::new() },
        clusters: vec!["c1".to_string(), "c2".to_string()],
        objects,
        sources: vec!["more.yaml".to_string()],
    }
}

#[test]
fn raw_manifests_are_keyed_for_each_cluster() {
    let document = SisyphusResource::KubernetesYaml(raw_document(vec![
        object("v1", "ConfigMap", r#"{"name": "settings"}"#, "{}"),
        object("v1", "ConfigMap", r#"{"generateName": "gen-", "namespace": "own"}"#, "{}"),
    ]));
    let mut by_key = Vec::new();
    render_sisyphus_resource(
        &document,
        false,
        "april.dev",
        &Some("folder".to_string()),
        &mut by_key,
        None,
    )
    .unwrap();
    let shown: Vec<String> = by_key.iter().map(|(k, _)| k.to_text()).collect();
    assert_eq!(
        shown,
        vec![
            "ConfigMap own/gen- (c1)",
            "ConfigMap own/gen- (c2)",
            "ConfigMap folder/settings (c1)",
            "ConfigMap folder/settings (c2)",
        ]
    );
    assert!(by_key[0].1.cleared_paths().is_empty());
    let forbidden = SisyphusResource::KubernetesYaml(raw_document(vec![object("v1", "Namespace", "{}", "{}")]));
    assert!(matches!(
        render_sisyphus_resource(&forbidden, false, "april.dev", &None, &mut by_key, None),
        Err(RenderError::NamespaceForbidden)
    ));
    assert!(render_sisyphus_resource(&forbidden, true, "april.dev", &None, &mut by_key, None).is_ok());
    let mut untyped = object("v1", "ConfigMap", r#"{"name": "loose"}"#, "{}");
    untyped.types = None;
    let loose = SisyphusResource::KubernetesYaml(raw_document(vec![untyped]));
    match render_sisyphus_resource(&loose, true, "april.dev", &None, &mut by_key, None) {
        Err(RenderError::TypeFree(name)) => assert_eq!(name, "loose"),
        other => panic!("Unexpected {:?}", other),
    }
}

// Ingestion

#[test]
fn documents_are_held_once() {
    let mut held = Vec::new();
    insert_sisyphus_resource(SisyphusResource::SisyphusDeployment(deployment_document()), &mut held)
        .unwrap();
    insert_sisyphus_resource(SisyphusResource::KubernetesYaml(raw_document(Vec::new())), &mut held)
        .unwrap();
    assert_eq!(held.len(), 2);
    assert_eq!(held[0].0.kind, "SisyphusDeployment");
    assert_eq!(held[1].0.kind, "KubernetesYaml");
    match insert_sisyphus_resource(SisyphusResource::SisyphusDeployment(deployment_document()), &mut held) {
        Err(IngestError::Duplicate(k)) => assert_eq!((k.kind.as_str(), k.name.as_str()), ("SisyphusDeployment", "web")),
        other => panic!("Unexpected {:?}", other),
    }
    assert_eq!(held.len(), 2);
    let mut document = deployment_document();
    assert_eq!(document.kind(), "SisyphusDeployment");
    assert_eq!(document.config_image(), "registry.example/config:latest");
    document.set_config_image("registry.example/config@sha256:1".to_string());
    assert_eq!(document.config_image(), "registry.example/config@sha256:1");
    assert_eq!(raw_document(Vec::new()).kind(), "KubernetesYaml");
}

#[test]
fn folders_and_their_manifests() {
    assert_eq!(folder_scope("global"), (true, None));
    assert_eq!(folder_scope("team-a"), (false, Some("team-a".to_string())));
    let mut document = raw_document(vec![object("v1", "ConfigMap", r#"{"name": "own"}"#, "{}")]);
    adopt_objects(
        &mut document,
        vec![object("v1", "ConfigMap", r#"{"name": "from-file"}"#, "{}")],
        false,
        &Some("team-a".to_string()),
    )
    .unwrap();
    assert!(document.sources.is_empty());
    let placed: Vec<(Option<String>, Option<String>)> =
        document.objects.iter().map(|o| (o.metadata.name(), o.metadata.namespace())).collect();
    assert_eq!(
        placed,
        vec![
            (Some("own".to_string()), Some("team-a".to_string())),
            (Some("from-file".to_string()), Some("team-a".to_string()))
        ]
    );
    let mut strict = raw_document(Vec::new());
    let error = adopt_objects(
        &mut strict,
        vec![object("v1", "ConfigMap", r#"{"name": "stray", "namespace": "other"}"#, "{}")],
        false,
        &Some("team-a".to_string()),
    )
    .unwrap_err();
    assert_eq!(
        error.message("team-a/index.yaml"),
        "v1/ConfigMap/stray referenced by raw in team-a/index.yaml should not specify namespace other"
    );
    let mut global = raw_document(Vec::new());
    adopt_objects(
        &mut global,
        vec![object("v1", "ConfigMap", r#"{"name": "stray", "namespace": "other"}"#, "{}")],
        true,
        &None,
    )
    .unwrap();
    assert_eq!(global.objects[0].metadata.namespace(), Some("other".to_string()));
}

#[test]
fn only_y_is_permission() {
    assert!(ask_for_user_permission("y\n"));
    assert!(ask_for_user_permission("  Y  "));
    assert!(!ask_for_user_permission("yes"));
    assert!(!ask_for_user_permission(""));
    assert!(!ask_for_user_permission("n"));
}

// Registries

#[test]
fn schemes_and_credentials() {
    assert_eq!(get_reference_and_registry("http://localhost:5000/app:1"), (false, "localhost:5000/app:1".to_string()));
    assert_eq!(get_reference_and_registry("https://registry.example/app"), (true, "registry.example/app".to_string()));
    assert_eq!(get_reference_and_registry("registry.example/app@sha256:1"), (true, "registry.example/app@sha256:1".to_string()));
    assert_eq!(get_reference_and_registry("http:/odd"), (true, "http:/odd".to_string()));
    assert_eq!(
        get_client(Credential::UsernamePassword("u".to_string(), "p".to_string())).unwrap(),
        Some(("u".to_string(), "p".to_string()))
    );
    assert_eq!(get_client(Credential::NotConfigured).unwrap(), None);
    assert!(matches!(
        get_client(Credential::IdentityToken("t".to_string())),
        Err(RegistryError::TokensUnsupported)
    ));
    let failed = get_client(Credential::Failed("helper missing".to_string())).unwrap_err();
    assert_eq!(failed.message(), "Error fetching credential: helper missing");
    assert_eq!(RegistryError::TokensUnsupported.message(), "Cannot handle tokens");
    assert_eq!(
        resolve_image_tag(&vec!["sha256:aa".to_string(), "sha256:bb".to_string()]),
        Some("@sha256:aa".to_string())
    );
    assert_eq!(resolve_image_tag(&Vec::new()), None);
}

#[test]
fn stored_times() {
    assert_eq!(decode(0), Some((0, 0)));
    assert_eq!(decode(1_700_000_000_123), Some((1_700_000_000, 123)));
    assert_eq!(decode(999), Some((0, 999)));
    assert_eq!(decode(-2000), Some((-2, 0)));
    assert_eq!(decode(-1), None);
    assert_eq!(decode(i64::MIN), None);
}

// Local and container runs

#[test]
fn environment_keys() {
    assert_eq!(as_env_key("db-password"), "DB_PASSWORD");
    assert_eq!(as_env_key("a-b-c"), "A_B_C");
    assert_eq!(as_env_key("plain"), "PLAIN");
    assert_eq!(as_env_key(""), "");
}

fn machine() -> Vec<(String, String)> {
    vec![
        ("PORT_HTTP".to_string(), "9090".to_string()),
        ("TLS".to_string(), "/home/me/cert.pem".to_string()),
        ("TOKEN".to_string(), "secret".to_string()),
    ]
}

#[test]
fn local_configuration() {
    let (args, env) = build_config_local(&application(), "dev", &machine()).unwrap();
    assert_eq!(args, vec!["--serve".to_string(), "9090".to_string(), "/home/me/cert.pem".to_string()]);
    assert_eq!(env, vec![("TOKEN".to_string(), "secret".to_string())]);
    let (prod_args, prod_env) = build_config_local(&application(), "prod", &machine()).unwrap();
    assert_eq!(prod_args[1], "x");
    assert_eq!(prod_env[0], ("ONLY_PROD".to_string(), "x".to_string()));
    let port = ArgumentValues::Uniform(Argument::Port(Port {
        name: "grpc".to_string(),
        number: 50051,
        protocol: Protocol::TCP,
    }));
    let (_, text) = resolve_argument_local(&port, "dev", &machine()).unwrap().unwrap();
    assert_eq!(text, "50051");
    match build_config_local(&application(), "dev", &Vec::new()) {
        Err(RunError::FileVariableNotSet(key)) => assert_eq!(key, "TLS"),
        other => panic!("Unexpected {:?}", other),
    }
    let mut without_file = application();
    without_file.args.truncate(3);
    match build_config_local(&without_file, "dev", &Vec::new()) {
        Err(e @ RunError::StringVariableNotSet(_)) => {
            assert_eq!(e.message(), "Environment string variable TOKEN not set")
        }
        other => panic!("Unexpected {:?}", other),
    }
    assert_eq!(
        RunError::FileVariableNotSet("TLS".to_string()).message(),
        "Environment file variable TLS not set"
    );
}

#[test]
fn container_configuration_and_command() {
    let config = build_config_container(&application(), "dev", &machine()).unwrap();
    assert_eq!(config.args, vec!["--serve".to_string(), "9090".to_string(), "/etc/tls/cert.pem".to_string()]);
    assert_eq!(config.env, vec![("TOKEN".to_string(), "secret".to_string())]);
    assert_eq!(config.mounts, vec![("/home/me/cert.pem".to_string(), "/etc/tls/cert.pem".to_string())]);
    assert_eq!(config.ports, vec!["9090".to_string()]);
    let image = binary_image(&index());
    assert_eq!(image, "registry.example/app@sha256:abcd");
    assert_eq!(
        podman_arguments(&image, &config),
        vec![
            "run",
            "--rm",
            "--env",
            "TOKEN=secret",
            "--mount",
            "type=bind,src=/home/me/cert.pem,dst=/etc/tls/cert.pem,readonly",
            "--publish",
            "9090:9090",
            "registry.example/app@sha256:abcd",
            "--serve",
            "9090",
            "/etc/tls/cert.pem",
        ]
    );
    let plain = podman_arguments("http://localhost:5000/app", &config);
    assert_eq!(plain[2], "--tls-verify=false");
}
