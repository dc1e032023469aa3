use sisyphus::config_image::{Argument, ArgumentValues, Port, Protocol};
use sisyphus::key::KubernetesKey;
use sisyphus::kubernetes_objects::{
    Container, ContainerPort, ObjectMeta, ServicePort, ServiceSpec, Volume,
};
use sisyphus::kubernetes_rendering::{
    build_base_deployment_spec, build_pod_spec, build_service_spec, process_cronjob_footprint,
    process_deployment_footprint, render_argument, render_deployment_metadata, Rendered,
    RenderedArgument,
};
use sisyphus::sisyphus_yaml::{
    CronJobConfig, CronJobFootprintEntry, DeploymentConfig, DeploymentFootprintEntry,
    DeploymentServiceConfig, Metadata, ServicePort as SisyphusServicePort, SisyphusCronJob,
    SisyphusDeployment,
};

fn labels(entries: &[(&str, &str)]) -> Vec<(String, String)> {
    entries.iter().map(|(k, v)| (k.to_string(), v.to_string())).collect()
}

#[test]
fn test_process_cronjob_footprint() {
    let cronjob = SisyphusCronJob {
        api_version: "sisyphus/v1".to_string(),
        metadata: Metadata {
            name: "test-cronjob".to_string(),
            labels: Vec::new(),
            annotations: Vec::new(),
        },
        config: CronJobConfig {
            concurrency_policy: None,
            env: "prod".to_string(),
            image: "test-image".to_string(),
            schedule: "0 0 * * *".to_string(),
            variables: Vec::new(),
        },
        footprint: vec![
            ("cluster1".to_string(), CronJobFootprintEntry {}),
            ("cluster2".to_string(), CronJobFootprintEntry {}),
        ],
    };

    let metadata = ObjectMeta {
        name: Some("test-cronjob".to_string()),
        namespace: Some("default".to_string()),
        labels: Some(labels(&[("app", "test-cronjob")])),
        ..Default::default()
    };

    let mut container = Container::default();
    container.name = "test-cronjob".to_string();
    container.image = Some("test-image:latest".to_string());

    let pod_spec = build_pod_spec(container, Vec::new());

    let mut by_key = Vec::new();

    process_cronjob_footprint(
        &cronjob,
        &metadata,
        &None,
        "0 0 * * *",
        &pod_spec,
        "default",
        &mut by_key,
    )
    .unwrap();

    // Verify two CronJobs were created (one per cluster)
    assert_eq!(by_key.len(), 2);

    // Verify both clusters have their CronJobs
    let cluster1_keys: Vec<&KubernetesKey> =
        by_key.iter().map(|(k, _)| k).filter(|k| k.cluster == "cluster1").collect();
    assert_eq!(cluster1_keys.len(), 1);
    assert_eq!(cluster1_keys[0].kind, "CronJob");
    assert_eq!(cluster1_keys[0].api_version, "batch/v1");

    let cluster2_keys: Vec<&KubernetesKey> =
        by_key.iter().map(|(k, _)| k).filter(|k| k.cluster == "cluster2").collect();
    assert_eq!(cluster2_keys.len(), 1);
    assert_eq!(cluster2_keys[0].kind, "CronJob");
}

#[test]
fn test_cronjob_spec_structure() {
    let cronjob = SisyphusCronJob {
        api_version: "sisyphus/v1".to_string(),
        metadata: Metadata {
            name: "test-cronjob".to_string(),
            labels: Vec::new(),
            annotations: Vec::new(),
        },
        config: CronJobConfig {
            concurrency_policy: None,
            env: "prod".to_string(),
            image: "test-image".to_string(),
            schedule: "*/5 * * * *".to_string(),
            variables: Vec::new(),
        },
        footprint: vec![("cluster1".to_string(), CronJobFootprintEntry {})],
    };

    let metadata = ObjectMeta {
        name: Some("test-cronjob".to_string()),
        namespace: Some("default".to_string()),
        ..Default::default()
    };

    let mut container = Container::default();
    container.name = "test-cronjob".to_string();
    container.image = Some("test-image:latest".to_string());

    let pod_spec = build_pod_spec(container, Vec::new());

    let mut by_key = Vec::new();

    process_cronjob_footprint(
        &cronjob,
        &metadata,
        &None,
        "*/5 * * * *",
        &pod_spec,
        "default",
        &mut by_key,
    )
    .unwrap();

    // Get the created CronJob
    let cronjob_obj = match &by_key.iter().next().unwrap().1 {
        Rendered::CronJob(made) => made,
        other => panic!("Expected a CronJob, got {:?}", other),
    };

    // Verify the schedule is set correctly
    let spec = cronjob_obj.spec.as_ref().unwrap();
    assert_eq!(spec.schedule, "*/5 * * * *");

    // Verify jobTemplate structure exists
    let job_template = &spec.job_template;
    assert!(job_template.spec.is_some());

    // Verify pod template structure
    let job_spec = job_template.spec.as_ref().unwrap();
    let pod_template = &job_spec.template;
    assert!(pod_template.spec.is_some());
}

#[test]
fn test_cronjob_concurrency_policy() {
    let cronjob = SisyphusCronJob {
        api_version: "sisyphus/v1".to_string(),
        metadata: Metadata {
            name: "test-cronjob".to_string(),
            labels: Vec::new(),
            annotations: Vec::new(),
        },
        config: CronJobConfig {
            concurrency_policy: Some("Forbid".to_string()),
            env: "prod".to_string(),
            image: "test-image".to_string(),
            schedule: "0 * * * *".to_string(),
            variables: Vec::new(),
        },
        footprint: vec![("cluster1".to_string(), CronJobFootprintEntry {})],
    };

    let metadata = ObjectMeta {
        name: Some("test-cronjob".to_string()),
        namespace: Some("default".to_string()),
        ..Default::default()
    };

    let mut container = Container::default();
    container.name = "test-cronjob".to_string();
    container.image = Some("test-image:latest".to_string());

    let pod_spec = build_pod_spec(container, Vec::new());

    let mut by_key = Vec::new();

    process_cronjob_footprint(
        &cronjob,
        &metadata,
        &Some("Forbid".to_string()),
        "0 * * * *",
        &pod_spec,
        "default",
        &mut by_key,
    )
    .unwrap();

    let cronjob_obj = match &by_key.iter().next().unwrap().1 {
        Rendered::CronJob(made) => made,
        other => panic!("Expected a CronJob, got {:?}", other),
    };
    let spec = cronjob_obj.spec.as_ref().unwrap();
    let concurrency_policy = spec.concurrency_policy.as_ref().unwrap();
    assert_eq!(concurrency_policy, "Forbid");
}

fn replicas_of(by_key: &[(KubernetesKey, Rendered)], key: &KubernetesKey) -> i64 {
    let (_, rendered) = by_key.iter().find(|(k, _)| k == key).unwrap();
    match rendered {
        Rendered::Deployment(made) => made.spec.as_ref().and_then(|s| s.replicas).unwrap() as i64,
        other => panic!("Expected a Deployment, got {:?}", other),
    }
}

#[test]
fn test_process_deployment_footprint() {
    let deployment = SisyphusDeployment {
        api_version: "sisyphus/v1".to_string(),
        metadata: Metadata {
            name: "test-deployment".to_string(),
            labels: Vec::new(),
            annotations: Vec::new(),
        },
        config: DeploymentConfig {
            env: "prod".to_string(),
            image: "test-image".to_string(),
            service: None,
            variables: Vec::new(),
        },
        footprint: vec![
            ("cluster1".to_string(), DeploymentFootprintEntry { replicas: 3 }),
            ("cluster2".to_string(), DeploymentFootprintEntry { replicas: 5 }),
        ],
    };

    let metadata = ObjectMeta {
        name: Some("test-deployment".to_string()),
        namespace: Some("default".to_string()),
        labels: Some(labels(&[("app", "test-deployment")])),
        ..Default::default()
    };

    let deployment_spec = build_base_deployment_spec(labels(&[("app", "test-deployment")]));

    let mut by_key = Vec::new();

    process_deployment_footprint(
        &deployment,
        &metadata,
        &deployment_spec,
        &None,
        "default",
        &mut by_key,
    )
    .unwrap();

    // Verify two Deployments were created (one per cluster)
    assert_eq!(by_key.len(), 2);

    // Verify cluster1 has correct replicas
    let cluster1_keys: Vec<&KubernetesKey> =
        by_key.iter().map(|(k, _)| k).filter(|k| k.cluster == "cluster1").collect();
    assert_eq!(cluster1_keys.len(), 1);
    assert_eq!(cluster1_keys[0].kind, "Deployment");
    assert_eq!(cluster1_keys[0].api_version, "apps/v1");

    let cluster1_replicas = replicas_of(&by_key, cluster1_keys[0]);
    assert_eq!(cluster1_replicas, 3);

    // Verify cluster2 has correct replicas
    let cluster2_keys: Vec<&KubernetesKey> =
        by_key.iter().map(|(k, _)| k).filter(|k| k.cluster == "cluster2").collect();
    assert_eq!(cluster2_keys.len(), 1);
    assert_eq!(cluster2_keys[0].kind, "Deployment");

    let cluster2_replicas = replicas_of(&by_key, cluster2_keys[0]);
    assert_eq!(cluster2_replicas, 5);
}

#[test]
fn test_process_deployment_footprint_with_service() {
    let deployment = SisyphusDeployment {
        api_version: "sisyphus/v1".to_string(),
        metadata: Metadata {
            name: "test-deployment".to_string(),
            labels: Vec::new(),
            annotations: Vec::new(),
        },
        config: DeploymentConfig {
            env: "prod".to_string(),
            image: "test-image".to_string(),
            service: None,
            variables: Vec::new(),
        },
        footprint: vec![("cluster1".to_string(), DeploymentFootprintEntry { replicas: 2 })],
    };

    let metadata = ObjectMeta {
        name: Some("test-deployment".to_string()),
        namespace: Some("default".to_string()),
        ..Default::default()
    };

    let selected = labels(&[("app", "test-deployment")]);
    let deployment_spec = build_base_deployment_spec(selected.clone());

    // Create a service spec
    let mut service_spec = ServiceSpec::default();
    service_spec.selector = Some(selected);
    service_spec.ports = Some(vec![ServicePort {
        name: Some("http".to_string()),
        port: 80,
        ..Default::default()
    }]);

    let mut by_key = Vec::new();

    process_deployment_footprint(
        &deployment,
        &metadata,
        &deployment_spec,
        &Some(service_spec),
        "default",
        &mut by_key,
    )
    .unwrap();

    // Verify both Deployment and Service were created
    assert_eq!(by_key.len(), 2);

    // Verify Deployment exists
    let deployment_keys: Vec<&KubernetesKey> =
        by_key.iter().map(|(k, _)| k).filter(|k| k.kind == "Deployment").collect();
    assert_eq!(deployment_keys.len(), 1);

    // Verify Service exists
    let service_keys: Vec<&KubernetesKey> =
        by_key.iter().map(|(k, _)| k).filter(|k| k.kind == "Service").collect();
    assert_eq!(service_keys.len(), 1);
    assert_eq!(service_keys[0].api_version, "v1");
}

#[test]
fn test_build_base_deployment_spec() {
    let selected = labels(&[("app", "test-app"), ("env", "prod")]);

    let spec = build_base_deployment_spec(selected.clone());

    // Verify selector
    assert_eq!(spec.selector.match_labels, Some(selected.clone()));

    // Verify defaults
    assert_eq!(spec.progress_deadline_seconds, Some(600));
    assert_eq!(spec.revision_history_limit, Some(10));

    // Verify strategy
    assert!(spec.strategy.is_some());
    let strategy = spec.strategy.unwrap();
    assert_eq!(strategy.type_, Some("RollingUpdate".to_string()));
    assert!(strategy.rolling_update.is_some());

    // Verify template metadata
    let Some(template_metadata) = spec.template.metadata else {
        panic!("Expected metadata")
    };
    assert_eq!(template_metadata.labels, Some(selected));
}

#[test]
fn test_build_pod_spec() {
    let mut container = Container::default();
    container.name = "test-container".to_string();
    container.image = Some("test-image:latest".to_string());

    let mut volume = Volume::default();
    volume.name = "test-volume".to_string();
    let volumes = vec![volume.clone()];

    let pod_spec = build_pod_spec(container.clone(), volumes.clone());

    // Verify container
    assert_eq!(pod_spec.containers.len(), 1);
    assert_eq!(pod_spec.containers[0].name, "test-container");

    // Verify volumes
    assert_eq!(pod_spec.volumes, Some(volumes));

    // Verify defaults
    assert_eq!(pod_spec.dns_policy, Some("ClusterFirst".to_string()));
    assert_eq!(pod_spec.restart_policy, Some("Always".to_string()));
    assert_eq!(pod_spec.scheduler_name, Some("default-scheduler".to_string()));
    assert!(pod_spec.security_context.is_some());
    assert_eq!(pod_spec.termination_grace_period_seconds, Some(30));
}

#[test]
fn test_build_pod_spec_empty_volumes() {
    let mut container = Container::default();
    container.name = "test-container".to_string();

    let pod_spec = build_pod_spec(container, Vec::new());
    assert_eq!(pod_spec.volumes, None);
}

#[test]
fn test_render_deployment_metadata() {
    let deployment_name = "my-deployment".to_string();
    let label_namespace = "myapp.io";
    let deployment_labels = labels(&[("custom", "label")]);
    let deployment_annotations = labels(&[("annotation-key", "annotation-value")]);
    let namespace = Some("production".to_string());

    let metadata = render_deployment_metadata(
        &deployment_name,
        label_namespace,
        &deployment_labels,
        &deployment_annotations,
        &namespace,
    )
    .unwrap();

    assert_eq!(metadata.name, Some(deployment_name.clone()));
    assert_eq!(metadata.namespace, namespace);

    let made_labels = metadata.labels.unwrap();
    assert_eq!(
        made_labels,
        vec![
            ("custom".to_string(), "label".to_string()),
            ("myapp.io/app".to_string(), deployment_name),
        ]
    );

    let annotations = metadata.annotations.unwrap();
    assert_eq!(annotations, deployment_annotations);
}

#[test]
fn test_render_deployment_metadata_no_namespace() {
    let result =
        render_deployment_metadata("my-deployment", "myapp.io", &Vec::new(), &Vec::new(), &None);

    assert!(result.is_err());
    assert!(result.unwrap_err().message().contains("Namespace must be explicit"));
}

#[test]
fn test_build_service_spec_no_ports() {
    let config_service = None;
    let ports = Vec::new();
    let selected = Vec::new();

    let result = build_service_spec(&config_service, &ports, selected).unwrap();

    assert!(result.is_none());
}

#[test]
fn test_build_service_spec_with_ports() {
    let service_ports = vec![(
        "http".to_string(),
        SisyphusServicePort { name: Some("web".to_string()), number: 80 },
    )];

    let config_service = Some(DeploymentServiceConfig { ports: service_ports });

    let mut container_port = ContainerPort::default();
    container_port.name = Some("http".to_string());
    container_port.container_port = 8080;
    container_port.protocol = Some("TCP".to_string());
    let container_ports = vec![("http".to_string(), container_port)];

    let selected = labels(&[("app", "test")]);

    let result = build_service_spec(&config_service, &container_ports, selected.clone()).unwrap();

    assert!(result.is_some());
    let service_spec = result.unwrap();

    // Verify selector
    assert_eq!(service_spec.selector, Some(selected));

    // Verify ports
    assert!(service_spec.ports.is_some());
    let ports = service_spec.ports.unwrap();
    assert_eq!(ports.len(), 1);
    assert_eq!(ports[0].name, Some("web".to_string()));
    assert_eq!(ports[0].port, 80);
    assert_eq!(ports[0].protocol, Some("TCP".to_string()));
}

#[test]
fn test_render_argument_string() {
    let arg = ArgumentValues::Uniform(Argument::String("test-value".to_string()));
    let selector = "prod";
    let mut ports = Vec::new();
    let variables = Vec::new();
    let mut volumes = Vec::new();
    let mut volume_mounts = Vec::new();

    let result =
        render_argument(&arg, selector, &mut ports, &variables, &mut volumes, &mut volume_mounts)
            .unwrap();

    let Some(RenderedArgument::String(s)) = result else {
        panic!("Expected String variant");
    };
    assert_eq!(s, "test-value");
}

#[test]
fn test_render_argument_port() {
    let port = Port { name: "http".to_string(), number: 8080, protocol: Protocol::TCP };
    let arg = ArgumentValues::Uniform(Argument::Port(port));
    let selector = "prod";
    let mut ports = Vec::new();
    let variables = Vec::new();
    let mut volumes = Vec::new();
    let mut volume_mounts = Vec::new();

    let result =
        render_argument(&arg, selector, &mut ports, &variables, &mut volumes, &mut volume_mounts)
            .unwrap();

    // Verify port was added to ports map
    assert_eq!(ports.len(), 1);
    assert!(ports.iter().any(|(name, _)| name == "http"));

    let Some(RenderedArgument::String(s)) = result else {
        panic!("Expected String variant");
    };
    assert_eq!(s, "8080");
}

#[test]
fn test_render_argument_varying() {
    let varying_map = vec![
        ("dev".to_string(), Argument::String("dev-value".to_string())),
        ("prod".to_string(), Argument::String("prod-value".to_string())),
    ];

    let arg = ArgumentValues::Varying(varying_map);
    let selector = "prod";
    let mut ports = Vec::new();
    let variables = Vec::new();
    let mut volumes = Vec::new();
    let mut volume_mounts = Vec::new();

    let result =
        render_argument(&arg, selector, &mut ports, &variables, &mut volumes, &mut volume_mounts)
            .unwrap();

    let Some(RenderedArgument::String(s)) = result else {
        panic!("Expected String variant");
    };
    assert_eq!(s, "prod-value");
}

#[test]
fn test_render_argument_varying_not_found() {
    let varying_map = vec![("prod".to_string(), Argument::String("prod-value".to_string()))];

    let arg = ArgumentValues::Varying(varying_map);
    let selector = "dev"; // Not in the map
    let mut ports = Vec::new();
    let variables = Vec::new();
    let mut volumes = Vec::new();
    let mut volume_mounts = Vec::new();

    let result =
        render_argument(&arg, selector, &mut ports, &variables, &mut volumes, &mut volume_mounts)
            .unwrap();

    assert!(result.is_none());
}
