//! The renderer: an application, as its configuration image describes it,
//! lowered to the Deployment, the CronJob and the Service that run it.
use crate::assoc::{lookup, put, value_of, viewed, with_entry};
use crate::config_image::{
    protocol_name, values_view, Application, ApplicationView, Argument, ArgumentValues,
    ArgumentValuesView, ArgumentView, ConfigImageIndex, FileVariable,
};
use crate::kubernetes_objects::{
    Container, ContainerPort, ContainerPortView, ContainerView, DeploymentSpec,
    DeploymentSpecView, DeploymentStrategy, DeploymentStrategyView, EnvVar, EnvVarSource,
    EnvVarSourceView, EnvVarView, IntOrString, IntOrStringView, KeyToPath, KeyToPathView,
    LabelSelector, ObjectMeta, ObjectMetaView, PodSecurityContext, PodSpec, PodSpecView,
    PodTemplateSpec, PodTemplateSpecView, Quantity, ResourceRequirements,
    ResourceRequirementsView, RollingUpdateDeployment, SecretKeySelector, SecretVolumeSource,
    SecretVolumeSourceView, ServicePort, ServicePortView, ServiceSpec, ServiceSpecView, Volume,
    VolumeMount, VolumeMountView, VolumeView,
};
use crate::key::{KeyView, KubernetesKey};
use crate::keymap::{put as put_keyed, viewed as viewed_keyed, with_entry as with_keyed};
use crate::kubernetes_objects::{
    CronJob, CronJobSpec, CronJobSpecView, Deployment, JobSpec, JobTemplateSpec, Service,
};
use crate::resources::{text_member, DynamicObject, DynamicObjectView};
use crate::run_config::{choose_argument, chosen};
use crate::sisyphus_yaml::{
    DeploymentServiceConfig, KubernetesYaml, ServicePort as ServicePortConfig, SisyphusCronJob,
    SisyphusDeployment, SisyphusResource, VariableSource, VariableSourceView,
};
use crate::text::{
    concat2, decimal, text_eq, file_name_of, owned, parent_of, path_file_name, path_parent, port_text,
};
use crate::views::{copy_map, optional, push_view, views, Duplicate};
use vstd::prelude::*;

verus! {

/// Why a document could not be rendered.
#[derive(Debug, Clone)]
pub enum RenderError {
    /// A deployment or a cron job is rendered outside any namespace.
    NamespaceMissing,
    /// The document gives no source for a variable of the application.
    VariableNotSet(String),
    /// The path of a file variable has no file name.
    NoFileName,
    /// The path of a file variable has no parent directory.
    NoParent,
    /// An argument of the command line is no text.
    NonStringArgument,
    /// A resource request or limit is no text.
    NonStringResource,
    /// A service port names a port that the application does not define.
    UnknownPort(String),
    /// A raw manifest has no type header.
    TypeFree(String),
    /// A raw manifest in a namespace folder is a Namespace.
    NamespaceForbidden,
    /// A document that only names files was handed to the renderer.
    Unresolved,
    /// A deployment or a cron job came without what its image describes.
    ImageMissing,
}

/// The mathematical value of a `RenderError`.
pub enum RenderErrorView {
    NamespaceMissing,
    VariableNotSet(Seq<char>),
    NoFileName,
    NoParent,
    NonStringArgument,
    NonStringResource,
    UnknownPort(Seq<char>),
    TypeFree(Seq<char>),
    NamespaceForbidden,
    Unresolved,
    ImageMissing,
}

impl View for RenderError {
    type V = RenderErrorView;

    open spec fn view(&self) -> RenderErrorView {
        match self {
            RenderError::NamespaceMissing => RenderErrorView::NamespaceMissing,
            RenderError::VariableNotSet(name) => RenderErrorView::VariableNotSet(name@),
            RenderError::NoFileName => RenderErrorView::NoFileName,
            RenderError::NoParent => RenderErrorView::NoParent,
            RenderError::NonStringArgument => RenderErrorView::NonStringArgument,
            RenderError::NonStringResource => RenderErrorView::NonStringResource,
            RenderError::UnknownPort(name) => RenderErrorView::UnknownPort(name@),
            RenderError::TypeFree(name) => RenderErrorView::TypeFree(name@),
            RenderError::NamespaceForbidden => RenderErrorView::NamespaceForbidden,
            RenderError::Unresolved => RenderErrorView::Unresolved,
            RenderError::ImageMissing => RenderErrorView::ImageMissing,
        }
    }
}

impl RenderError {
    /// The error as a sentence.
    pub fn message(&self) -> (r: String)
        ensures
            r@ == match self@ {
                RenderErrorView::NamespaceMissing => "Namespace must be explicit"@,
                RenderErrorView::VariableNotSet(name) => "Variable "@ + name + " isn't set"@,
                RenderErrorView::NoFileName => "Unable to get file name"@,
                RenderErrorView::NoParent => "Variable path has no parent"@,
                RenderErrorView::NonStringArgument => "Unexpected non-string argument"@,
                RenderErrorView::NonStringResource => "Unexpected resource request type"@,
                RenderErrorView::UnknownPort(name) => "The config doesn't define a port named "@
                    + name,
                RenderErrorView::TypeFree(name) => "Object "@ + name + " is type-free"@,
                RenderErrorView::NamespaceForbidden => "Cannot specify a namespace"@,
                RenderErrorView::Unresolved => "These should already have been resolved"@,
                RenderErrorView::ImageMissing => "Expected the configuration of the image"@,
            },
    {
        match self {
            RenderError::NamespaceMissing => owned("Namespace must be explicit"),
            RenderError::VariableNotSet(name) => {
                let mut out = concat2("Variable ", name.as_str());
                out.append(" isn't set");
                out
            },
            RenderError::NoFileName => owned("Unable to get file name"),
            RenderError::NoParent => owned("Variable path has no parent"),
            RenderError::NonStringArgument => owned("Unexpected non-string argument"),
            RenderError::NonStringResource => owned("Unexpected resource request type"),
            RenderError::UnknownPort(name) => concat2(
                "The config doesn't define a port named ",
                name.as_str(),
            ),
            RenderError::TypeFree(name) => {
                let mut out = concat2("Object ", name.as_str());
                out.append(" is type-free");
                out
            },
            RenderError::NamespaceForbidden => owned("Cannot specify a namespace"),
            RenderError::Unresolved => owned("These should already have been resolved"),
            RenderError::ImageMissing => owned("Expected the configuration of the image"),
        }
    }
}

/// A copy of a map from texts to texts.
pub fn copy_text_map(entries: &Vec<(String, String)>) -> (r: Vec<(String, String)>)
    ensures
        viewed(r@) == viewed(entries@),
{
    let mut out: Vec<(String, String)> = Vec::new();
    let mut i: usize = 0;
    while i < entries.len()
        invariant
            0 <= i <= entries@.len(),
            out@.len() == i,
            forall|j: int| 0 <= j < i ==> (#[trigger] out@[j]).0@ == entries@[j].0@ && out@[j].1@
                == entries@[j].1@,
        decreases entries@.len() - i,
    {
        out.push((entries[i].0.clone(), entries[i].1.clone()));
        i += 1;
    }
    proof {
        assert(viewed(out@) =~= viewed(entries@));
    }
    out
}

/// The labels of a workload: those of the document, and the name of the
/// workload under `app` in the label namespace.
pub open spec fn workload_labels(
    name: Seq<char>,
    label_namespace: Seq<char>,
    labels: Seq<(Seq<char>, Seq<char>)>,
) -> Seq<(Seq<char>, Seq<char>)> {
    with_entry(labels, label_namespace + "/app"@, name)
}

/// The metadata of a workload: its name, its namespace, its labels, and its
/// annotations where it has some. Outside any namespace there is none.
pub open spec fn deployment_metadata(
    name: Seq<char>,
    label_namespace: Seq<char>,
    labels: Seq<(Seq<char>, Seq<char>)>,
    annotations: Seq<(Seq<char>, Seq<char>)>,
    namespace: Option<Seq<char>>,
) -> Result<ObjectMetaView, RenderErrorView> {
    match namespace {
        None => Err(RenderErrorView::NamespaceMissing),
        Some(ns) => Ok(
            ObjectMetaView {
                annotations: if annotations.len() > 0 {
                    Some(annotations)
                } else {
                    None
                },
                labels: Some(workload_labels(name, label_namespace, labels)),
                name: Some(name),
                namespace: Some(ns),
            },
        ),
    }
}

/// Builds the metadata of a workload.
pub fn render_deployment_metadata(
    deployment_name: &str,
    label_namespace: &str,
    deployment_labels: &Vec<(String, String)>,
    deployment_annotations: &Vec<(String, String)>,
    maybe_namespace: &Option<String>,
) -> (r: Result<ObjectMeta, RenderError>)
    ensures
        match deployment_metadata(
            deployment_name@,
            label_namespace@,
            viewed(deployment_labels@),
            viewed(deployment_annotations@),
            optional(*maybe_namespace),
        ) {
            Ok(metadata) => r matches Ok(made) && made@ == metadata,
            Err(e) => r matches Err(error) && error@ == e,
        },
{
    let mut labels = copy_text_map(deployment_labels);
    put(&mut labels, concat2(label_namespace, "/app"), owned(deployment_name));
    let annotations = if deployment_annotations.len() > 0 {
        Some(copy_text_map(deployment_annotations))
    } else {
        None
    };
    proof {
        assert(viewed(deployment_annotations@).len() == deployment_annotations@.len());
        crate::assoc::lemma_rank_of(
            viewed(deployment_labels@),
            label_namespace@ + "/app"@,
        );
    }
    let namespace = match maybe_namespace {
        None => {
            return Err(RenderError::NamespaceMissing);
        },
        Some(ns) => ns.clone(),
    };
    Ok(
        ObjectMeta {
            annotations,
            labels: Some(labels),
            name: Some(owned(deployment_name)),
            namespace: Some(namespace),
        },
    )
}

/// The strategy of every deployment: a rolling update by a quarter.
pub open spec fn rolling_strategy() -> DeploymentStrategyView {
    DeploymentStrategyView {
        rolling_update: Some(
            (Some(IntOrStringView::String("25%"@)), Some(IntOrStringView::String("25%"@))),
        ),
        type_: Some("RollingUpdate"@),
    }
}

/// The metadata that only holds labels.
pub open spec fn label_metadata(labels: Seq<(Seq<char>, Seq<char>)>) -> ObjectMetaView {
    ObjectMetaView { annotations: None, labels: Some(labels), name: None, namespace: None }
}

/// What every deployment with these labels has before its pods and its
/// replicas are known: the labels select its pods and are on them, its
/// progress deadline is 600 seconds, it keeps 10 revisions, and it is rolled
/// out by a quarter.
pub open spec fn base_deployment_spec(labels: Seq<(Seq<char>, Seq<char>)>) -> DeploymentSpecView {
    DeploymentSpecView {
        progress_deadline_seconds: Some(600i32),
        replicas: None,
        revision_history_limit: Some(10i32),
        match_labels: Some(labels),
        strategy: Some(rolling_strategy()),
        template: PodTemplateSpecView { metadata: Some(label_metadata(labels)), spec: None },
    }
}

/// Builds what every deployment with these labels has.
pub fn build_base_deployment_spec(labels: Vec<(String, String)>) -> (r: DeploymentSpec)
    ensures
        r@ == base_deployment_spec(viewed(labels@)),
{
    let selected = copy_text_map(&labels);
    DeploymentSpec {
        progress_deadline_seconds: Some(600),
        replicas: None,
        revision_history_limit: Some(10),
        selector: LabelSelector { match_labels: Some(selected) },
        strategy: Some(
            DeploymentStrategy {
                type_: Some(owned("RollingUpdate")),
                rolling_update: Some(
                    RollingUpdateDeployment {
                        max_surge: Some(IntOrString::String(owned("25%"))),
                        max_unavailable: Some(IntOrString::String(owned("25%"))),
                    },
                ),
            },
        ),
        template: PodTemplateSpec {
            metadata: Some(
                ObjectMeta { annotations: None, labels: Some(labels), name: None, namespace: None },
            ),
            spec: None,
        },
    }
}

/// The pod of a workload: the one container, the volumes where there are
/// some, the cluster's DNS first, always restarted, scheduled by the default
/// scheduler, an empty security context, and 30 seconds to terminate.
pub open spec fn pod_spec(
    container: crate::kubernetes_objects::ContainerView,
    volumes: Seq<VolumeView>,
) -> PodSpecView {
    PodSpecView {
        containers: seq![container],
        dns_policy: Some("ClusterFirst"@),
        restart_policy: Some("Always"@),
        scheduler_name: Some("default-scheduler"@),
        security_context: true,
        termination_grace_period_seconds: Some(30i64),
        volumes: if volumes.len() > 0 {
            Some(volumes)
        } else {
            None
        },
    }
}

/// Builds the pod of a workload.
pub fn build_pod_spec(container: Container, volumes: Vec<Volume>) -> (r: PodSpec)
    ensures
        r@ == pod_spec(container@, views(volumes@)),
{
    let mut containers: Vec<Container> = Vec::new();
    containers.push(container);
    proof {
        assert(views(containers@) =~= seq![container@]);
        assert(views(volumes@).len() == volumes@.len());
    }
    let volumes = if volumes.len() > 0 {
        Some(volumes)
    } else {
        None
    };
    PodSpec {
        containers,
        dns_policy: Some(owned("ClusterFirst")),
        restart_policy: Some(owned("Always")),
        scheduler_name: Some(owned("default-scheduler")),
        security_context: Some(PodSecurityContext {  }),
        termination_grace_period_seconds: Some(30),
        volumes,
    }
}

/// The ports of a service from the configured port `at` on, after `so_far`:
/// each leads to the container port of its key by name and takes that port's
/// protocol; its name is the configured one, or else its key.
pub open spec fn service_ports_from(
    configured: Seq<(Seq<char>, crate::sisyphus_yaml::ServicePortView)>,
    at: int,
    ports: Seq<(Seq<char>, ContainerPortView)>,
    so_far: Seq<ServicePortView>,
) -> Result<Seq<ServicePortView>, RenderErrorView>
    decreases configured.len() - at,
{
    if at < 0 || at >= configured.len() {
        Ok(so_far)
    } else {
        let target = configured[at].0;
        match value_of(ports, target) {
            None => Err(RenderErrorView::UnknownPort(target)),
            Some(references) => service_ports_from(
                configured,
                at + 1,
                ports,
                so_far.push(
                    ServicePortView {
                        name: Some(
                            match configured[at].1.name {
                                Some(name) => name,
                                None => target,
                            },
                        ),
                        port: configured[at].1.number,
                        protocol: references.protocol,
                        target_port: Some(IntOrStringView::String(target)),
                    },
                ),
            ),
        }
    }
}

/// The service of a deployment: none without configured ports, else one that
/// selects the pods by the labels and has the configured ports.
pub open spec fn service_spec(
    configured: Option<Seq<(Seq<char>, crate::sisyphus_yaml::ServicePortView)>>,
    ports: Seq<(Seq<char>, ContainerPortView)>,
    labels: Seq<(Seq<char>, Seq<char>)>,
) -> Result<Option<ServiceSpecView>, RenderErrorView> {
    match configured {
        None => Ok(None),
        Some(entries) => match service_ports_from(entries, 0, ports, Seq::empty()) {
            Err(e) => Err(e),
            Ok(made) => if made.len() == 0 {
                Ok(None)
            } else {
                Ok(Some(ServiceSpecView { ports: Some(made), selector: Some(labels) }))
            },
        },
    }
}

/// The configured ports of a service, where there is a configuration.
pub open spec fn configured_ports(config: Option<DeploymentServiceConfig>) -> Option<
    Seq<(Seq<char>, crate::sisyphus_yaml::ServicePortView)>,
> {
    match config {
        Some(service) => Some(viewed(service.ports@)),
        None => None,
    }
}

/// Builds the service of a deployment. `ports` are the container ports by name.
pub fn build_service_spec(
    config_service: &Option<DeploymentServiceConfig>,
    ports: &Vec<(String, ContainerPort)>,
    labels: Vec<(String, String)>,
) -> (r: Result<Option<ServiceSpec>, RenderError>)
    ensures
        match service_spec(configured_ports(*config_service), viewed(ports@), viewed(labels@)) {
            Ok(Some(spec)) => r matches Ok(Some(made)) && made@ == spec,
            Ok(None) => r matches Ok(None),
            Err(e) => r matches Err(error) && error@ == e,
        },
{
    let service = match config_service {
        None => {
            return Ok(None);
        },
        Some(service) => service,
    };
    let ghost configured = viewed(service.ports@);
    let mut made: Vec<ServicePort> = Vec::new();
    let mut i: usize = 0;
    proof {
        assert(views(made@) =~= Seq::empty());
    }
    while i < service.ports.len()
        invariant
            0 <= i <= service.ports@.len(),
            configured == viewed(service.ports@),
            configured_ports(*config_service) == Some(configured),
            service_ports_from(configured, 0, viewed(ports@), Seq::empty()) == service_ports_from(
                configured,
                i as int,
                viewed(ports@),
                views(made@),
            ),
        decreases service.ports@.len() - i,
    {
        let target = &service.ports[i].0;
        let port: &ServicePortConfig = &service.ports[i].1;
        proof {
            assert(configured[i as int] == (target@, port@));
        }
        let references = match lookup(ports, target.as_str()) {
            None => {
                return Err(RenderError::UnknownPort(target.clone()));
            },
            Some(references) => references,
        };
        let name = match &port.name {
            Some(name) => name.clone(),
            None => target.clone(),
        };
        let protocol = match &references.protocol {
            Some(protocol) => Some(protocol.clone()),
            None => None,
        };
        push_view(
            &mut made,
            ServicePort {
                name: Some(name),
                port: port.number,
                protocol,
                target_port: Some(IntOrString::String(target.clone())),
            },
        );
        i += 1;
    }
    proof {
        assert(views(made@).len() == made@.len());
    }
    if made.len() == 0 {
        Ok(None)
    } else {
        Ok(Some(ServiceSpec { ports: Some(made), selector: Some(labels) }))
    }
}

/// An argument as the container takes it: a text, or a reference to where the
/// value comes from.
#[derive(Debug, Clone)]
pub enum RenderedArgument {
    String(String),
    ValueFrom(EnvVarSource),
}

/// The mathematical value of a `RenderedArgument`.
pub enum RenderedArgumentView {
    String(Seq<char>),
    ValueFrom(EnvVarSourceView),
}

impl View for RenderedArgument {
    type V = RenderedArgumentView;

    open spec fn view(&self) -> RenderedArgumentView {
        match self {
            RenderedArgument::String(text) => RenderedArgumentView::String(text@),
            RenderedArgument::ValueFrom(source) => RenderedArgumentView::ValueFrom(source@),
        }
    }
}

/// What rendering arguments builds up: the container ports by name, the
/// volumes of the pod and the mounts of the container.
pub struct RenderState {
    pub ports: Seq<(Seq<char>, ContainerPortView)>,
    pub volumes: Seq<VolumeView>,
    pub mounts: Seq<VolumeMountView>,
}

/// The state that the three collections hold.
pub open spec fn state_of(
    ports: Seq<(String, ContainerPort)>,
    volumes: Seq<Volume>,
    mounts: Seq<VolumeMount>,
) -> RenderState {
    RenderState { ports: viewed(ports), volumes: views(volumes), mounts: views(mounts) }
}

/// The index of the first volume from `at` on that is backed by the secret,
/// or the number of volumes.
pub open spec fn volume_index(volumes: Seq<VolumeView>, secret_name: Seq<char>, at: int) -> int
    decreases volumes.len() - at,
{
    if at < 0 || at >= volumes.len() {
        volumes.len() as int
    } else if volumes[at].secret matches Some(secret) && secret.secret_name == Some(secret_name) {
        at
    } else {
        volume_index(volumes, secret_name, at + 1)
    }
}

/// The volume that is made for a secret: named after the variable, with mode
/// 420 and no items yet.
pub open spec fn fresh_volume(variable_name: Seq<char>, secret_name: Seq<char>) -> VolumeView {
    VolumeView {
        name: variable_name,
        secret: Some(
            SecretVolumeSourceView {
                default_mode: Some(420i32),
                items: Some(Seq::empty()),
                secret_name: Some(secret_name),
            },
        ),
    }
}

/// Some mount puts the volume at the path.
pub open spec fn has_mount(mounts: Seq<VolumeMountView>, volume_name: Seq<char>, path: Seq<char>) -> bool {
    exists|i: int|
        0 <= i < mounts.len() && (#[trigger] mounts[i]).name == volume_name && mounts[i].mount_path
            == path
}

/// Some item makes the key the file.
pub open spec fn has_item(items: Seq<KeyToPathView>, key: Seq<char>, file: Seq<char>) -> bool {
    exists|i: int| 0 <= i < items.len() && (#[trigger] items[i]).key == key && items[i].path == file
}

/// The items of a secret source with one that makes the key the file.
pub open spec fn with_item(source: SecretVolumeSourceView, key: Seq<char>, file: Seq<char>) -> SecretVolumeSourceView {
    let items = match source.items {
        Some(items) => items,
        None => Seq::empty(),
    };
    SecretVolumeSourceView {
        default_mode: source.default_mode,
        items: Some(
            if has_item(items, key, file) {
                items
            } else {
                items.push(KeyToPathView { key, mode: None, path: file })
            },
        ),
        secret_name: source.secret_name,
    }
}

/// The volumes and the mounts after a file variable is mounted: the volume of
/// its secret is there (made where it was not), it is mounted read-only at the
/// parent directory of the file (once), and it has the item that makes the key
/// of the secret the file (once).
pub open spec fn mounted(
    variable_name: Seq<char>,
    source: VariableSourceView,
    file: Seq<char>,
    parent: Seq<char>,
    volumes: Seq<VolumeView>,
    mounts: Seq<VolumeMountView>,
) -> (Seq<VolumeView>, Seq<VolumeMountView>) {
    let at = volume_index(volumes, source.name, 0);
    let with_volume = if at < volumes.len() {
        volumes
    } else {
        volumes.push(fresh_volume(variable_name, source.name))
    };
    let volume = with_volume[at];
    let with_mount = if has_mount(mounts, volume.name, parent) {
        mounts
    } else {
        mounts.push(VolumeMountView { mount_path: parent, name: volume.name, read_only: Some(true) })
    };
    let secret = match volume.secret {
        Some(secret) => Some(with_item(secret, source.key, file)),
        None => None,
    };
    (with_volume.update(at, VolumeView { name: volume.name, secret }), with_mount)
}

/// Finds the first volume that is backed by the secret.
fn find_volume(volumes: &Vec<Volume>, secret_name: &String) -> (r: usize)
    ensures
        r == volume_index(views(volumes@), secret_name@, 0),
        r <= volumes@.len(),
{
    let ghost all = views(volumes@);
    let mut i: usize = 0;
    while i < volumes.len()
        invariant
            0 <= i <= volumes@.len(),
            all == views(volumes@),
            volume_index(all, secret_name@, 0) == volume_index(all, secret_name@, i as int),
        decreases volumes@.len() - i,
    {
        proof {
            assert(all[i as int] == volumes@[i as int]@);
        }
        let found = match &volumes[i].secret {
            Some(secret) => match &secret.secret_name {
                Some(name) => *name == *secret_name,
                None => false,
            },
            None => false,
        };
        if found {
            return i;
        }
        i += 1;
    }
    i
}

/// Whether some mount puts the volume at the path.
fn mount_exists(mounts: &Vec<VolumeMount>, volume_name: &String, path: &String) -> (r: bool)
    ensures
        r == has_mount(views(mounts@), volume_name@, path@),
{
    let ghost all = views(mounts@);
    let mut i: usize = 0;
    while i < mounts.len()
        invariant
            0 <= i <= mounts@.len(),
            all == views(mounts@),
            forall|j: int|
                0 <= j < i ==> !((#[trigger] all[j]).name == volume_name@ && all[j].mount_path
                    == path@),
        decreases mounts@.len() - i,
    {
        proof {
            assert(all[i as int] == mounts@[i as int]@);
        }
        if mounts[i].name == *volume_name && mounts[i].mount_path == *path {
            return true;
        }
        i += 1;
    }
    false
}

/// Whether some item makes the key the file.
fn item_exists(items: &Vec<KeyToPath>, key: &String, file: &String) -> (r: bool)
    ensures
        r == has_item(views(items@), key@, file@),
{
    let ghost all = views(items@);
    let mut i: usize = 0;
    while i < items.len()
        invariant
            0 <= i <= items@.len(),
            all == views(items@),
            forall|j: int|
                0 <= j < i ==> !((#[trigger] all[j]).key == key@ && all[j].path == file@),
        decreases items@.len() - i,
    {
        proof {
            assert(all[i as int] == items@[i as int]@);
        }
        if items[i].key == *key && items[i].path == *file {
            return true;
        }
        i += 1;
    }
    false
}

/// Mounts the file of a file variable: `file` is the name of the file and
/// `parent` the directory that holds it.
pub fn mount_file(
    variable: &FileVariable,
    source: &VariableSource,
    file: String,
    parent: String,
    volumes: &mut Vec<Volume>,
    volume_mounts: &mut Vec<VolumeMount>,
)
    ensures
        (views(final(volumes)@), views(final(volume_mounts)@)) == mounted(
            variable.name@,
            source@,
            file@,
            parent@,
            views(old(volumes)@),
            views(old(volume_mounts)@),
        ),
{
    let (secret_name, key) = match source {
        VariableSource::SecretKeyRef(reference) => (reference.name.clone(), reference.key.clone()),
    };
    let at = find_volume(volumes, &secret_name);
    if at >= volumes.len() {
        let items: Vec<KeyToPath> = Vec::new();
        proof {
            assert(views(items@) =~= Seq::empty());
        }
        push_view(
            volumes,
            Volume {
                name: variable.name.clone(),
                secret: Some(
                    SecretVolumeSource {
                        default_mode: Some(420),
                        items: Some(items),
                        secret_name: Some(secret_name),
                    },
                ),
            },
        );
    }
    let ghost with_volume = views(volumes@);
    proof {
        assert(with_volume.len() == volumes@.len());
    }
    let volume = volumes.remove(at);
    proof {
        assert(with_volume[at as int] == volume@);
    }
    if !mount_exists(volume_mounts, &volume.name, &parent) {
        push_view(
            volume_mounts,
            VolumeMount { mount_path: parent, name: volume.name.clone(), read_only: Some(true) },
        );
    }
    let Volume { name, secret } = volume;
    let secret = match secret {
        Some(source) => {
            let SecretVolumeSource { default_mode, items, secret_name } = source;
            let mut items = match items {
                Some(items) => items,
                None => {
                    let none: Vec<KeyToPath> = Vec::new();
                    proof {
                        assert(views(none@) =~= Seq::empty());
                    }
                    none
                },
            };
            if !item_exists(&items, &key, &file) {
                push_view(&mut items, KeyToPath { key, mode: None, path: file });
            }
            Some(SecretVolumeSource { default_mode, items: Some(items), secret_name })
        },
        None => None,
    };
    let updated = Volume { name, secret };
    let ghost updated_view = updated@;
    volumes.insert(at, updated);
    proof {
        assert(views(volumes@) =~= with_volume.update(at as int, updated_view));
    }
}

/// What rendering one argument gives and how it leaves the state: nothing for
/// an argument that varies and has no value for the environment; a text as it
/// is; a port as its number, with the container port under its name; a file
/// variable as its path, with its file mounted; a string variable as a
/// reference to the key of its secret.
pub open spec fn rendered_argument(
    arg: ArgumentValuesView,
    selector: Seq<char>,
    variables: Seq<(Seq<char>, VariableSourceView)>,
    state: RenderState,
) -> Result<(Option<RenderedArgumentView>, RenderState), RenderErrorView> {
    match chosen(arg, selector) {
        None => Ok((None, state)),
        Some(ArgumentView::String(text)) => Ok((Some(RenderedArgumentView::String(text)), state)),
        Some(ArgumentView::Port { name, number, protocol }) => Ok(
            (
                Some(RenderedArgumentView::String(decimal(number as nat))),
                RenderState {
                    ports: with_entry(
                        state.ports,
                        name,
                        ContainerPortView {
                            container_port: number as i32,
                            name: Some(name),
                            protocol: Some(protocol_name(protocol)),
                        },
                    ),
                    ..state
                },
            ),
        ),
        Some(ArgumentView::StringVariable { name }) => match value_of(variables, name) {
            None => Err(RenderErrorView::VariableNotSet(name)),
            Some(source) => Ok(
                (
                    Some(
                        RenderedArgumentView::ValueFrom(
                            EnvVarSourceView {
                                secret_key_ref: Some((source.key, source.name, None)),
                            },
                        ),
                    ),
                    state,
                ),
            ),
        },
        Some(ArgumentView::FileVariable { name, path }) => match value_of(variables, name) {
            None => Err(RenderErrorView::VariableNotSet(name)),
            Some(source) => match file_name_of(path) {
                None => Err(RenderErrorView::NoFileName),
                Some(file) => match parent_of(path) {
                    None => Err(RenderErrorView::NoParent),
                    Some(parent) => {
                        let after = mounted(name, source, file, parent, state.volumes, state.mounts);
                        Ok(
                            (
                                Some(RenderedArgumentView::String(path)),
                                RenderState { ports: state.ports, volumes: after.0, mounts: after.1 },
                            ),
                        )
                    },
                },
            },
        },
    }
}

/// Renders a file variable whose source is known: its file is mounted, and
/// its path is what the container is given.
pub fn render_file_variable(
    variable: &FileVariable,
    source: &VariableSource,
    volumes: &mut Vec<Volume>,
    volume_mounts: &mut Vec<VolumeMount>,
) -> (r: Result<RenderedArgument, RenderError>)
    ensures
        match (file_name_of(variable.path@), parent_of(variable.path@)) {
            (Some(file), Some(parent)) => {
                &&& r matches Ok(RenderedArgument::String(text))
                &&& text@ == variable.path@
                &&& (views(final(volumes)@), views(final(volume_mounts)@)) == mounted(
                    variable.name@,
                    source@,
                    file,
                    parent,
                    views(old(volumes)@),
                    views(old(volume_mounts)@),
                )
            },
            (None, _) => r matches Err(RenderError::NoFileName) && final(volumes)@ == old(
                volumes,
            )@ && final(volume_mounts)@ == old(volume_mounts)@,
            (Some(_), None) => r matches Err(RenderError::NoParent) && final(volumes)@ == old(
                volumes,
            )@ && final(volume_mounts)@ == old(volume_mounts)@,
        },
{
    let file = match path_file_name(variable.path.as_str()) {
        None => {
            return Err(RenderError::NoFileName);
        },
        Some(file) => file,
    };
    let parent = match path_parent(variable.path.as_str()) {
        None => {
            return Err(RenderError::NoParent);
        },
        Some(parent) => parent,
    };
    mount_file(variable, source, file, parent, volumes, volume_mounts);
    Ok(RenderedArgument::String(variable.path.clone()))
}

/// Renders one argument for the environment `selector`. On an error the three
/// collections are as they were.
pub fn render_argument(
    arg: &ArgumentValues,
    selector: &str,
    ports: &mut Vec<(String, ContainerPort)>,
    variables: &Vec<(String, VariableSource)>,
    volumes: &mut Vec<Volume>,
    volume_mounts: &mut Vec<VolumeMount>,
) -> (r: Result<Option<RenderedArgument>, RenderError>)
    ensures
        match rendered_argument(
            arg@,
            selector@,
            viewed(variables@),
            state_of(old(ports)@, old(volumes)@, old(volume_mounts)@),
        ) {
            Ok((rendered, after)) => {
                &&& r matches Ok(made)
                &&& optional(made) == rendered
                &&& state_of(final(ports)@, final(volumes)@, final(volume_mounts)@) == after
            },
            Err(e) => {
                &&& r matches Err(error)
                &&& error@ == e
                &&& state_of(final(ports)@, final(volumes)@, final(volume_mounts)@) == state_of(
                    old(ports)@,
                    old(volumes)@,
                    old(volume_mounts)@,
                )
            },
        },
{
    let single = match choose_argument(arg, selector) {
        None => {
            return Ok(None);
        },
        Some(single) => single,
    };
    match single {
        Argument::FileVariable(variable) => {
            let source = match lookup(variables, variable.name.as_str()) {
                None => {
                    return Err(RenderError::VariableNotSet(variable.name.clone()));
                },
                Some(source) => source,
            };
            match render_file_variable(variable, source, volumes, volume_mounts) {
                Err(e) => Err(e),
                Ok(rendered) => Ok(Some(rendered)),
            }
        },
        Argument::Port(port) => {
            put(
                ports,
                port.name.clone(),
                ContainerPort {
                    container_port: port.number as i32,
                    name: Some(port.name.clone()),
                    protocol: Some(port.protocol.to_text()),
                },
            );
            Ok(Some(RenderedArgument::String(port_text(port.number))))
        },
        Argument::String(text) => Ok(Some(RenderedArgument::String(text.clone()))),
        Argument::StringVariable(variable) => {
            let source = match lookup(variables, variable.name.as_str()) {
                None => {
                    return Err(RenderError::VariableNotSet(variable.name.clone()));
                },
                Some(source) => source,
            };
            match source {
                VariableSource::SecretKeyRef(reference) => Ok(
                    Some(
                        RenderedArgument::ValueFrom(
                            EnvVarSource {
                                secret_key_ref: Some(
                                    SecretKeySelector {
                                        key: reference.key.clone(),
                                        name: reference.name.clone(),
                                        optional: None,
                                    },
                                ),
                            },
                        ),
                    ),
                ),
            }
        },
    }
}

/// The texts of the arguments from `at` on, after `so_far`, and the state that
/// rendering them leaves. An argument that is no text is an error.
pub open spec fn container_args_from(
    args: Seq<ArgumentValuesView>,
    at: int,
    selector: Seq<char>,
    variables: Seq<(Seq<char>, VariableSourceView)>,
    state: RenderState,
    so_far: Seq<Seq<char>>,
) -> Result<(Seq<Seq<char>>, RenderState), RenderErrorView>
    decreases args.len() - at,
{
    if at < 0 || at >= args.len() {
        Ok((so_far, state))
    } else {
        match rendered_argument(args[at], selector, variables, state) {
            Err(e) => Err(e),
            Ok((None, after)) => container_args_from(
                args,
                at + 1,
                selector,
                variables,
                after,
                so_far,
            ),
            Ok((Some(RenderedArgumentView::String(text)), after)) => container_args_from(
                args,
                at + 1,
                selector,
                variables,
                after,
                so_far.push(text),
            ),
            Ok((Some(_), _)) => Err(RenderErrorView::NonStringArgument),
        }
    }
}

/// Renders the arguments of the command line.
pub fn render_container_args(
    application_args: &Vec<ArgumentValues>,
    config_env: &str,
    ports: &mut Vec<(String, ContainerPort)>,
    config_vars: &Vec<(String, VariableSource)>,
    volumes: &mut Vec<Volume>,
    volume_mounts: &mut Vec<VolumeMount>,
) -> (r: Result<Vec<String>, RenderError>)
    ensures
        match container_args_from(
            values_view(application_args@),
            0,
            config_env@,
            viewed(config_vars@),
            state_of(old(ports)@, old(volumes)@, old(volume_mounts)@),
            Seq::empty(),
        ) {
            Ok((args, after)) => {
                &&& r matches Ok(made)
                &&& views(made@) == args
                &&& state_of(final(ports)@, final(volumes)@, final(volume_mounts)@) == after
            },
            Err(e) => r matches Err(error) && error@ == e,
        },
{
    let ghost all = values_view(application_args@);
    let ghost goal = container_args_from(
        all,
        0,
        config_env@,
        viewed(config_vars@),
        state_of(ports@, volumes@, volume_mounts@),
        Seq::empty(),
    );
    let mut args: Vec<String> = Vec::new();
    let mut i: usize = 0;
    proof {
        assert(views(args@) =~= Seq::empty());
    }
    while i < application_args.len()
        invariant
            0 <= i <= application_args@.len(),
            all == values_view(application_args@),
            goal == container_args_from(
                all,
                0,
                config_env@,
                viewed(config_vars@),
                state_of(old(ports)@, old(volumes)@, old(volume_mounts)@),
                Seq::empty(),
            ),
            goal == container_args_from(
                all,
                i as int,
                config_env@,
                viewed(config_vars@),
                state_of(ports@, volumes@, volume_mounts@),
                views(args@),
            ),
        decreases application_args@.len() - i,
    {
        proof {
            assert(all[i as int] == application_args@[i as int]@);
        }
        match render_argument(
            &application_args[i],
            config_env,
            ports,
            config_vars,
            volumes,
            volume_mounts,
        ) {
            Err(e) => {
                return Err(e);
            },
            Ok(None) => {},
            Ok(Some(RenderedArgument::String(text))) => {
                push_view(&mut args, text);
            },
            Ok(Some(_)) => {
                return Err(RenderError::NonStringArgument);
            },
        }
        i += 1;
    }
    Ok(args)
}

/// The environment variable that a rendered argument gives.
pub open spec fn env_var(name: Seq<char>, rendered: RenderedArgumentView) -> EnvVarView {
    match rendered {
        RenderedArgumentView::String(text) => EnvVarView {
            name,
            value: Some(text),
            value_from: None,
        },
        RenderedArgumentView::ValueFrom(source) => EnvVarView {
            name,
            value: None,
            value_from: Some(source),
        },
    }
}

/// The environment variables of the entries from `at` on, after `so_far`, and
/// the state that rendering them leaves.
pub open spec fn container_env_from(
    env: Seq<(Seq<char>, ArgumentValuesView)>,
    at: int,
    selector: Seq<char>,
    variables: Seq<(Seq<char>, VariableSourceView)>,
    state: RenderState,
    so_far: Seq<EnvVarView>,
) -> Result<(Seq<EnvVarView>, RenderState), RenderErrorView>
    decreases env.len() - at,
{
    if at < 0 || at >= env.len() {
        Ok((so_far, state))
    } else {
        match rendered_argument(env[at].1, selector, variables, state) {
            Err(e) => Err(e),
            Ok((None, after)) => container_env_from(env, at + 1, selector, variables, after, so_far),
            Ok((Some(rendered), after)) => container_env_from(
                env,
                at + 1,
                selector,
                variables,
                after,
                so_far.push(env_var(env[at].0, rendered)),
            ),
        }
    }
}

/// Renders the environment variables of the container.
pub fn render_container_env_vars(
    application_env: &Vec<(String, ArgumentValues)>,
    config_env: &str,
    ports: &mut Vec<(String, ContainerPort)>,
    config_vars: &Vec<(String, VariableSource)>,
    volumes: &mut Vec<Volume>,
    volume_mounts: &mut Vec<VolumeMount>,
) -> (r: Result<Vec<EnvVar>, RenderError>)
    ensures
        match container_env_from(
            viewed(application_env@),
            0,
            config_env@,
            viewed(config_vars@),
            state_of(old(ports)@, old(volumes)@, old(volume_mounts)@),
            Seq::empty(),
        ) {
            Ok((env, after)) => {
                &&& r matches Ok(made)
                &&& views(made@) == env
                &&& state_of(final(ports)@, final(volumes)@, final(volume_mounts)@) == after
            },
            Err(e) => r matches Err(error) && error@ == e,
        },
{
    let ghost all = viewed(application_env@);
    let ghost goal = container_env_from(
        all,
        0,
        config_env@,
        viewed(config_vars@),
        state_of(ports@, volumes@, volume_mounts@),
        Seq::empty(),
    );
    let mut env_vars: Vec<EnvVar> = Vec::new();
    let mut i: usize = 0;
    proof {
        assert(views(env_vars@) =~= Seq::empty());
    }
    while i < application_env.len()
        invariant
            0 <= i <= application_env@.len(),
            all == viewed(application_env@),
            goal == container_env_from(
                all,
                0,
                config_env@,
                viewed(config_vars@),
                state_of(old(ports)@, old(volumes)@, old(volume_mounts)@),
                Seq::empty(),
            ),
            goal == container_env_from(
                all,
                i as int,
                config_env@,
                viewed(config_vars@),
                state_of(ports@, volumes@, volume_mounts@),
                views(env_vars@),
            ),
        decreases application_env@.len() - i,
    {
        proof {
            assert(all[i as int] == (application_env@[i as int].0@, application_env@[i as int].1@));
        }
        match render_argument(
            &application_env[i].1,
            config_env,
            ports,
            config_vars,
            volumes,
            volume_mounts,
        ) {
            Err(e) => {
                return Err(e);
            },
            Ok(None) => {},
            Ok(Some(rendered)) => {
                let name = application_env[i].0.clone();
                let var = match rendered {
                    RenderedArgument::String(text) => EnvVar {
                        name,
                        value: Some(text),
                        value_from: None,
                    },
                    RenderedArgument::ValueFrom(source) => EnvVar {
                        name,
                        value: None,
                        value_from: Some(source),
                    },
                };
                push_view(&mut env_vars, var);
            },
        }
        i += 1;
    }
    Ok(env_vars)
}

/// The quantities of the entries from `at` on, bound in `so_far` by resource,
/// and the state that rendering them leaves. A quantity that is no text is an
/// error.
pub open spec fn quantities_from(
    resources: Seq<(Seq<char>, ArgumentValuesView)>,
    at: int,
    selector: Seq<char>,
    variables: Seq<(Seq<char>, VariableSourceView)>,
    state: RenderState,
    so_far: Seq<(Seq<char>, Seq<char>)>,
) -> Result<(Seq<(Seq<char>, Seq<char>)>, RenderState), RenderErrorView>
    decreases resources.len() - at,
{
    if at < 0 || at >= resources.len() {
        Ok((so_far, state))
    } else {
        match rendered_argument(resources[at].1, selector, variables, state) {
            Err(e) => Err(e),
            Ok((None, after)) => quantities_from(
                resources,
                at + 1,
                selector,
                variables,
                after,
                so_far,
            ),
            Ok((Some(RenderedArgumentView::String(text)), after)) => quantities_from(
                resources,
                at + 1,
                selector,
                variables,
                after,
                with_entry(so_far, resources[at].0, text),
            ),
            Ok((Some(_), _)) => Err(RenderErrorView::NonStringResource),
        }
    }
}

/// Renders the requests or the limits of the container.
pub fn render_resource_requirements_map(
    resource_map: &Vec<(String, ArgumentValues)>,
    config_env: &str,
    ports: &mut Vec<(String, ContainerPort)>,
    config_vars: &Vec<(String, VariableSource)>,
    volumes: &mut Vec<Volume>,
    volume_mounts: &mut Vec<VolumeMount>,
) -> (r: Result<Vec<(String, Quantity)>, RenderError>)
    ensures
        match quantities_from(
            viewed(resource_map@),
            0,
            config_env@,
            viewed(config_vars@),
            state_of(old(ports)@, old(volumes)@, old(volume_mounts)@),
            Seq::empty(),
        ) {
            Ok((quantities, after)) => {
                &&& r matches Ok(made)
                &&& viewed(made@) == quantities
                &&& state_of(final(ports)@, final(volumes)@, final(volume_mounts)@) == after
            },
            Err(e) => r matches Err(error) && error@ == e,
        },
{
    let ghost all = viewed(resource_map@);
    let ghost goal = quantities_from(
        all,
        0,
        config_env@,
        viewed(config_vars@),
        state_of(ports@, volumes@, volume_mounts@),
        Seq::empty(),
    );
    let mut copy: Vec<(String, Quantity)> = Vec::new();
    let mut i: usize = 0;
    proof {
        assert(viewed(copy@) =~= Seq::empty());
    }
    while i < resource_map.len()
        invariant
            0 <= i <= resource_map@.len(),
            all == viewed(resource_map@),
            goal == quantities_from(
                all,
                0,
                config_env@,
                viewed(config_vars@),
                state_of(old(ports)@, old(volumes)@, old(volume_mounts)@),
                Seq::empty(),
            ),
            goal == quantities_from(
                all,
                i as int,
                config_env@,
                viewed(config_vars@),
                state_of(ports@, volumes@, volume_mounts@),
                viewed(copy@),
            ),
        decreases resource_map@.len() - i,
    {
        proof {
            assert(all[i as int] == (resource_map@[i as int].0@, resource_map@[i as int].1@));
        }
        match render_argument(
            &resource_map[i].1,
            config_env,
            ports,
            config_vars,
            volumes,
            volume_mounts,
        ) {
            Err(e) => {
                return Err(e);
            },
            Ok(None) => {},
            Ok(Some(RenderedArgument::String(text))) => {
                put(&mut copy, resource_map[i].0.clone(), Quantity(text));
            },
            Ok(Some(_)) => {
                return Err(RenderError::NonStringResource);
            },
        }
        i += 1;
    }
    Ok(copy)
}

/// The values of a map, in the order of its keys.
pub open spec fn map_values<T>(entries: Seq<(Seq<char>, T)>) -> Seq<T> {
    Seq::new(entries.len(), |i: int| entries[i].1)
}

/// A sequence, or nothing where it is empty.
pub open spec fn non_empty<T>(items: Seq<T>) -> Option<Seq<T>> {
    if items.len() > 0 {
        Some(items)
    } else {
        None
    }
}

/// The requests or the limits of the application, rendered where it has some.
pub open spec fn optional_quantities(
    resources: Seq<(Seq<char>, ArgumentValuesView)>,
    selector: Seq<char>,
    variables: Seq<(Seq<char>, VariableSourceView)>,
    state: RenderState,
) -> Result<(Option<Seq<(Seq<char>, Seq<char>)>>, RenderState), RenderErrorView> {
    if resources.len() > 0 {
        match quantities_from(resources, 0, selector, variables, state, Seq::empty()) {
            Err(e) => Err(e),
            Ok((quantities, after)) => Ok((Some(quantities), after)),
        }
    } else {
        Ok((None, state))
    }
}

/// The container of a workload with the container ports by name and the
/// volumes of the pod. The container is named after the workload and runs the
/// binary of the image at its digest; its arguments, its environment, its
/// requests and its limits are rendered in that order; it is pulled only where
/// it is not present, and its termination message is the file
/// `/dev/termination-log`.
pub open spec fn container_config(
    name: Seq<char>,
    repository: Seq<char>,
    digest: Seq<char>,
    application: ApplicationView,
    selector: Seq<char>,
    variables: Seq<(Seq<char>, VariableSourceView)>,
) -> Result<(ContainerView, Seq<(Seq<char>, ContainerPortView)>, Seq<VolumeView>), RenderErrorView> {
    let start = RenderState { ports: Seq::empty(), volumes: Seq::empty(), mounts: Seq::empty() };
    match container_args_from(application.args, 0, selector, variables, start, Seq::empty()) {
        Err(e) => Err(e),
        Ok((args, after_args)) => match container_env_from(
            application.env,
            0,
            selector,
            variables,
            after_args,
            Seq::empty(),
        ) {
            Err(e) => Err(e),
            Ok((env, after_env)) => match optional_quantities(
                application.resources.requests,
                selector,
                variables,
                after_env,
            ) {
                Err(e) => Err(e),
                Ok((requests, after_requests)) => match optional_quantities(
                    application.resources.limits,
                    selector,
                    variables,
                    after_requests,
                ) {
                    Err(e) => Err(e),
                    Ok((limits, last)) => Ok(
                        (
                            ContainerView {
                                args: non_empty(args),
                                env: non_empty(env),
                                image: Some(repository + "@"@ + digest),
                                image_pull_policy: Some("IfNotPresent"@),
                                name,
                                ports: non_empty(map_values(last.ports)),
                                resources: Some(ResourceRequirementsView { limits, requests }),
                                termination_message_path: Some("/dev/termination-log"@),
                                termination_message_policy: Some("File"@),
                                volume_mounts: non_empty(last.mounts),
                            },
                            last.ports,
                            last.volumes,
                        ),
                    ),
                },
            },
        },
    }
}

/// A vector, or nothing where it is empty.
fn some_if_any<T: View>(items: Vec<T>) -> (r: Option<Vec<T>>)
    ensures
        crate::views::optional_views(r) == non_empty(views(items@)),
{
    proof {
        assert(views(items@).len() == items@.len());
    }
    if items.len() > 0 {
        Some(items)
    } else {
        None
    }
}

/// Copies of the container ports of a map, in the order of its keys.
fn port_values(ports: &Vec<(String, ContainerPort)>) -> (r: Vec<ContainerPort>)
    ensures
        views(r@) == map_values(viewed(ports@)),
{
    let mut out: Vec<ContainerPort> = Vec::new();
    let mut i: usize = 0;
    while i < ports.len()
        invariant
            0 <= i <= ports@.len(),
            out@.len() == i,
            forall|j: int| 0 <= j < i ==> (#[trigger] out@[j])@ == ports@[j].1@,
        decreases ports@.len() - i,
    {
        let port = &ports[i].1;
        out.push(
            ContainerPort {
                container_port: port.container_port,
                name: match &port.name {
                    Some(name) => Some(name.clone()),
                    None => None,
                },
                protocol: match &port.protocol {
                    Some(protocol) => Some(protocol.clone()),
                    None => None,
                },
            },
        );
        i += 1;
    }
    proof {
        assert(views(out@) =~= map_values(viewed(ports@)));
    }
    out
}

/// Builds the container of a workload, with the container ports by name and
/// the volumes of the pod.
pub fn build_container_config(
    deployment_name: &str,
    index: &ConfigImageIndex,
    application: &Application,
    config_env: &str,
    config_vars: &Vec<(String, VariableSource)>,
) -> (r: Result<(Container, Vec<(String, ContainerPort)>, Vec<Volume>), RenderError>)
    ensures
        match container_config(
            deployment_name@,
            index.binary_repository@,
            index.binary_digest@,
            application@,
            config_env@,
            viewed(config_vars@),
        ) {
            Ok((container, ports, volumes)) => {
                &&& r matches Ok(made)
                &&& made.0@ == container
                &&& viewed(made.1@) == ports
                &&& views(made.2@) == volumes
            },
            Err(e) => r matches Err(error) && error@ == e,
        },
{
    let mut image = concat2(index.binary_repository.as_str(), "@");
    image.append(index.binary_digest.as_str());
    let mut ports: Vec<(String, ContainerPort)> = Vec::new();
    let mut volumes: Vec<Volume> = Vec::new();
    let mut volume_mounts: Vec<VolumeMount> = Vec::new();
    proof {
        assert(viewed(ports@) =~= Seq::empty());
        assert(views(volumes@) =~= Seq::empty());
        assert(views(volume_mounts@) =~= Seq::empty());
    }
    let args = match render_container_args(
        &application.args,
        config_env,
        &mut ports,
        config_vars,
        &mut volumes,
        &mut volume_mounts,
    ) {
        Err(e) => {
            return Err(e);
        },
        Ok(args) => args,
    };
    let env_vars = match render_container_env_vars(
        &application.env,
        config_env,
        &mut ports,
        config_vars,
        &mut volumes,
        &mut volume_mounts,
    ) {
        Err(e) => {
            return Err(e);
        },
        Ok(env_vars) => env_vars,
    };
    proof {
        assert(viewed(application.resources.requests@).len()
            == application.resources.requests@.len());
        assert(viewed(application.resources.limits@).len() == application.resources.limits@.len());
    }
    let requests = if application.resources.requests.len() > 0 {
        match render_resource_requirements_map(
            &application.resources.requests,
            config_env,
            &mut ports,
            config_vars,
            &mut volumes,
            &mut volume_mounts,
        ) {
            Err(e) => {
                return Err(e);
            },
            Ok(quantities) => Some(quantities),
        }
    } else {
        None
    };
    let limits = if application.resources.limits.len() > 0 {
        match render_resource_requirements_map(
            &application.resources.limits,
            config_env,
            &mut ports,
            config_vars,
            &mut volumes,
            &mut volume_mounts,
        ) {
            Err(e) => {
                return Err(e);
            },
            Ok(quantities) => Some(quantities),
        }
    } else {
        None
    };
    let container = Container {
        args: some_if_any(args),
        env: some_if_any(env_vars),
        image: Some(image),
        image_pull_policy: Some(owned("IfNotPresent")),
        name: owned(deployment_name),
        ports: some_if_any(port_values(&ports)),
        resources: Some(ResourceRequirements { limits, requests }),
        termination_message_path: Some(owned("/dev/termination-log")),
        termination_message_policy: Some(owned("File")),
        volume_mounts: some_if_any(volume_mounts),
    };
    Ok((container, ports, volumes))
}

/// An object that the renderer made, or a raw manifest that it passes on.
#[derive(Debug, Clone)]
pub enum Rendered {
    Raw(DynamicObject),
    Deployment(Deployment),
    CronJob(CronJob),
    Service(Service),
}

/// The mathematical value of a `Rendered`.
pub enum RenderedView {
    Raw(DynamicObjectView),
    Deployment { metadata: ObjectMetaView, spec: Option<DeploymentSpecView> },
    CronJob { metadata: ObjectMetaView, spec: Option<CronJobSpecView> },
    Service { metadata: ObjectMetaView, spec: Option<ServiceSpecView> },
}

impl View for Rendered {
    type V = RenderedView;

    open spec fn view(&self) -> RenderedView {
        match self {
            Rendered::Raw(object) => RenderedView::Raw(object@),
            Rendered::Deployment(d) => RenderedView::Deployment {
                metadata: d.metadata@,
                spec: optional(d.spec),
            },
            Rendered::CronJob(c) => RenderedView::CronJob {
                metadata: c.metadata@,
                spec: optional(c.spec),
            },
            Rendered::Service(s) => RenderedView::Service {
                metadata: s.metadata@,
                spec: optional(s.spec),
            },
        }
    }
}

/// The JSON Pointers of the fields that are set to `null` once a rendered
/// object is a document: the creation timestamps that its pod and job
/// templates would otherwise carry.
pub open spec fn cleared_fields(rendered: RenderedView) -> Seq<Seq<char>> {
    match rendered {
        RenderedView::Deployment { .. } => seq!["/spec/template/metadata/creationTimestamp"@],
        RenderedView::CronJob { .. } => seq![
            "/spec/jobTemplate/metadata/creationTimestamp"@,
            "/spec/jobTemplate/spec/template/metadata/creationTimestamp"@,
        ],
        _ => Seq::empty(),
    }
}

impl Rendered {
    /// The JSON Pointers of the fields that are set to `null` once the object
    /// is a document.
    pub fn cleared_paths(&self) -> (r: Vec<String>)
        ensures
            views(r@) == cleared_fields(self@),
    {
        let mut out: Vec<String> = Vec::new();
        proof {
            assert(views(out@) =~= Seq::empty());
        }
        match self {
            Rendered::Deployment(_) => {
                push_view(&mut out, owned("/spec/template/metadata/creationTimestamp"));
            },
            Rendered::CronJob(_) => {
                push_view(&mut out, owned("/spec/jobTemplate/metadata/creationTimestamp"));
                push_view(
                    &mut out,
                    owned("/spec/jobTemplate/spec/template/metadata/creationTimestamp"),
                );
            },
            _ => {},
        }
        proof {
            assert(views(out@) =~= cleared_fields(self@));
        }
        out
    }
}

/// The key of a rendered object.
pub open spec fn workload_key(
    api_version: Seq<char>,
    kind: Seq<char>,
    cluster: Seq<char>,
    name: Seq<char>,
    namespace: Seq<char>,
) -> KeyView {
    KeyView { name, kind, api_version, namespace: Some(namespace), cluster }
}

/// Makes the key of a rendered object.
fn make_key(api_version: &str, kind: &str, cluster: &String, name: &String, namespace: &str) -> (r:
    KubernetesKey)
    ensures
        r@ == workload_key(api_version@, kind@, cluster@, name@, namespace@),
{
    KubernetesKey {
        api_version: owned(api_version),
        cluster: cluster.clone(),
        kind: owned(kind),
        name: name.clone(),
        namespace: Some(owned(namespace)),
    }
}

/// The cron job of every cluster.
pub open spec fn cron_job(
    metadata: ObjectMetaView,
    concurrency_policy: Option<Seq<char>>,
    schedule: Seq<char>,
    pod: PodSpecView,
) -> RenderedView {
    RenderedView::CronJob {
        metadata,
        spec: Some(
            CronJobSpecView {
                concurrency_policy,
                job_metadata: None,
                job_pods: Some(PodTemplateSpecView { metadata: None, spec: Some(pod) }),
                schedule,
            },
        ),
    }
}

/// The objects by key after the cron job is put under its key for each
/// cluster of the footprint from `at` on.
pub open spec fn cron_jobs_from<T>(
    footprint: Seq<(Seq<char>, T)>,
    at: int,
    name: Seq<char>,
    namespace: Seq<char>,
    job: RenderedView,
    by_key: Seq<(KeyView, RenderedView)>,
) -> Seq<(KeyView, RenderedView)>
    decreases footprint.len() - at,
{
    if at < 0 || at >= footprint.len() {
        by_key
    } else {
        cron_jobs_from(
            footprint,
            at + 1,
            name,
            namespace,
            job,
            with_keyed(
                by_key,
                workload_key("batch/v1"@, "CronJob"@, footprint[at].0, name, namespace),
                job,
            ),
        )
    }
}

/// Puts the cron job of the document under its key for each cluster of its
/// footprint.
pub fn process_cronjob_footprint(
    sisyphus_cronjob: &SisyphusCronJob,
    metadata: &ObjectMeta,
    concurrency_policy: &Option<String>,
    schedule: &str,
    pod_spec: &PodSpec,
    namespace: &str,
    by_key: &mut Vec<(KubernetesKey, Rendered)>,
) -> (r: Result<(), RenderError>)
    ensures
        r is Ok,
        viewed_keyed(final(by_key)@) == cron_jobs_from(
            viewed(sisyphus_cronjob.footprint@),
            0,
            sisyphus_cronjob.metadata.name@,
            namespace@,
            cron_job(metadata@, optional(*concurrency_policy), schedule@, pod_spec@),
            viewed_keyed(old(by_key)@),
        ),
{
    let ghost footprint = viewed(sisyphus_cronjob.footprint@);
    let ghost job = cron_job(metadata@, optional(*concurrency_policy), schedule@, pod_spec@);
    let mut i: usize = 0;
    while i < sisyphus_cronjob.footprint.len()
        invariant
            0 <= i <= sisyphus_cronjob.footprint@.len(),
            footprint == viewed(sisyphus_cronjob.footprint@),
            job == cron_job(metadata@, optional(*concurrency_policy), schedule@, pod_spec@),
            cron_jobs_from(
                footprint,
                0,
                sisyphus_cronjob.metadata.name@,
                namespace@,
                job,
                viewed_keyed(old(by_key)@),
            ) == cron_jobs_from(
                footprint,
                i as int,
                sisyphus_cronjob.metadata.name@,
                namespace@,
                job,
                viewed_keyed(by_key@),
            ),
        decreases sisyphus_cronjob.footprint@.len() - i,
    {
        let cluster = &sisyphus_cronjob.footprint[i].0;
        proof {
            assert(footprint[i as int].0 == cluster@);
        }
        let spec = CronJobSpec {
            concurrency_policy: crate::views::copy_optional(concurrency_policy),
            schedule: owned(schedule),
            job_template: JobTemplateSpec {
                metadata: None,
                spec: Some(
                    JobSpec {
                        template: PodTemplateSpec {
                            metadata: None,
                            spec: Some(pod_spec.duplicate()),
                        },
                    },
                ),
            },
        };
        let key = make_key(
            "batch/v1",
            "CronJob",
            cluster,
            &sisyphus_cronjob.metadata.name,
            namespace,
        );
        put_keyed(
            by_key,
            key,
            Rendered::CronJob(CronJob { metadata: metadata.duplicate(), spec: Some(spec) }),
        );
        i += 1;
    }
    Ok(())
}

/// The deployment of one cluster: the shared specification with the replicas
/// of that cluster.
pub open spec fn deployment_of(metadata: ObjectMetaView, spec: DeploymentSpecView, replicas: i32) -> RenderedView {
    RenderedView::Deployment {
        metadata,
        spec: Some(DeploymentSpecView { replicas: Some(replicas), ..spec }),
    }
}

/// The service has a port.
pub open spec fn has_ports(service: Option<ServiceSpecView>) -> bool {
    service matches Some(spec) && spec.ports matches Some(ports) && ports.len() > 0
}

/// The objects by key after, for each cluster of the footprint from `at` on,
/// the deployment is put under its key and, where the service has a port, the
/// service under its key.
pub open spec fn deployments_from(
    footprint: Seq<(Seq<char>, i32)>,
    at: int,
    name: Seq<char>,
    namespace: Seq<char>,
    metadata: ObjectMetaView,
    spec: DeploymentSpecView,
    service: Option<ServiceSpecView>,
    by_key: Seq<(KeyView, RenderedView)>,
) -> Seq<(KeyView, RenderedView)>
    decreases footprint.len() - at,
{
    if at < 0 || at >= footprint.len() {
        by_key
    } else {
        let cluster = footprint[at].0;
        let with_deployment = with_keyed(
            by_key,
            workload_key("apps/v1"@, "Deployment"@, cluster, name, namespace),
            deployment_of(metadata, spec, footprint[at].1),
        );
        let with_service = if has_ports(service) {
            with_keyed(
                with_deployment,
                workload_key("v1"@, "Service"@, cluster, name, namespace),
                RenderedView::Service { metadata, spec: service },
            )
        } else {
            with_deployment
        };
        deployments_from(
            footprint,
            at + 1,
            name,
            namespace,
            metadata,
            spec,
            service,
            with_service,
        )
    }
}

/// Puts the deployment of the document, and its service where it has one with
/// a port, under their keys for each cluster of its footprint.
pub fn process_deployment_footprint(
    sisyphus_deployment: &SisyphusDeployment,
    metadata: &ObjectMeta,
    independent_spec: &DeploymentSpec,
    service_spec_option: &Option<ServiceSpec>,
    namespace: &str,
    by_key: &mut Vec<(KubernetesKey, Rendered)>,
) -> (r: Result<(), RenderError>)
    ensures
        r is Ok,
        viewed_keyed(final(by_key)@) == deployments_from(
            viewed(sisyphus_deployment.footprint@),
            0,
            sisyphus_deployment.metadata.name@,
            namespace@,
            metadata@,
            independent_spec@,
            optional(*service_spec_option),
            viewed_keyed(old(by_key)@),
        ),
{
    let ghost footprint = viewed(sisyphus_deployment.footprint@);
    let mut i: usize = 0;
    while i < sisyphus_deployment.footprint.len()
        invariant
            0 <= i <= sisyphus_deployment.footprint@.len(),
            footprint == viewed(sisyphus_deployment.footprint@),
            deployments_from(
                footprint,
                0,
                sisyphus_deployment.metadata.name@,
                namespace@,
                metadata@,
                independent_spec@,
                optional(*service_spec_option),
                viewed_keyed(old(by_key)@),
            ) == deployments_from(
                footprint,
                i as int,
                sisyphus_deployment.metadata.name@,
                namespace@,
                metadata@,
                independent_spec@,
                optional(*service_spec_option),
                viewed_keyed(by_key@),
            ),
        decreases sisyphus_deployment.footprint@.len() - i,
    {
        let cluster = &sisyphus_deployment.footprint[i].0;
        proof {
            assert(footprint[i as int] == (cluster@, sisyphus_deployment.footprint@[i as int].1@));
        }
        let mut spec = independent_spec.duplicate();
        spec.replicas = Some(sisyphus_deployment.footprint[i].1.replicas);
        put_keyed(
            by_key,
            make_key(
                "apps/v1",
                "Deployment",
                cluster,
                &sisyphus_deployment.metadata.name,
                namespace,
            ),
            Rendered::Deployment(Deployment { metadata: metadata.duplicate(), spec: Some(spec) }),
        );
        match service_spec_option {
            Some(service_spec) => {
                let any = match &service_spec.ports {
                    Some(ports) => {
                        proof {
                            assert(views(ports@).len() == ports@.len());
                        }
                        ports.len() > 0
                    },
                    None => false,
                };
                if any {
                    put_keyed(
                        by_key,
                        make_key(
                            "v1",
                            "Service",
                            cluster,
                            &sisyphus_deployment.metadata.name,
                            namespace,
                        ),
                        Rendered::Service(
                            Service {
                                metadata: metadata.duplicate(),
                                spec: Some(service_spec.duplicate()),
                            },
                        ),
                    );
                }
            },
            None => {},
        }
        i += 1;
    }
    Ok(())
}

/// The name of an object for messages and keys: its name, or else the name
/// that it is generated from, or else nothing.
pub open spec fn name_any(metadata: Seq<(Seq<char>, crate::json::JsonView)>) -> Seq<char> {
    match text_member(metadata, "name"@) {
        Some(name) => name,
        None => match text_member(metadata, "generateName"@) {
            Some(name) => name,
            None => Seq::empty(),
        },
    }
}

/// The name of an object for messages and keys.
fn name_of(object: &DynamicObject) -> (r: String)
    ensures
        r@ == name_any(object@.metadata),
{
    match object.metadata.text("name") {
        Some(name) => name,
        None => match object.metadata.text("generateName") {
            Some(name) => name,
            None => String::new(),
        },
    }
}

/// The key of a raw manifest in a cluster: its own namespace, or else the
/// namespace of its folder.
pub open spec fn raw_key(object: DynamicObjectView, cluster: Seq<char>, namespace: Option<Seq<char>>) -> KeyView {
    KeyView {
        name: name_any(object.metadata),
        kind: object.types->Some_0.kind,
        api_version: object.types->Some_0.api_version,
        namespace: match text_member(object.metadata, "namespace"@) {
            Some(own) => Some(own),
            None => namespace,
        },
        cluster,
    }
}

/// The objects by key after a raw manifest is put under its key for each
/// cluster from `at` on.
pub open spec fn raw_clusters_from(
    object: DynamicObjectView,
    clusters: Seq<Seq<char>>,
    at: int,
    namespace: Option<Seq<char>>,
    by_key: Seq<(KeyView, RenderedView)>,
) -> Seq<(KeyView, RenderedView)>
    decreases clusters.len() - at,
{
    if at < 0 || at >= clusters.len() {
        by_key
    } else {
        raw_clusters_from(
            object,
            clusters,
            at + 1,
            namespace,
            with_keyed(by_key, raw_key(object, clusters[at], namespace), RenderedView::Raw(object)),
        )
    }
}

/// The objects by key after the raw manifests from `at` on are put under
/// their keys for each cluster. A manifest without a type header is an error,
/// and so is a Namespace where not every namespace is allowed.
pub open spec fn raw_from(
    objects: Seq<DynamicObjectView>,
    at: int,
    clusters: Seq<Seq<char>>,
    allow_any_namespace: bool,
    namespace: Option<Seq<char>>,
    by_key: Seq<(KeyView, RenderedView)>,
) -> Result<Seq<(KeyView, RenderedView)>, RenderErrorView>
    decreases objects.len() - at,
{
    if at < 0 || at >= objects.len() {
        Ok(by_key)
    } else {
        match objects[at].types {
            None => Err(RenderErrorView::TypeFree(name_any(objects[at].metadata))),
            Some(types) => if !allow_any_namespace && types.api_version == "v1"@ && types.kind
                == "Namespace"@ {
                Err(RenderErrorView::NamespaceForbidden)
            } else {
                raw_from(
                    objects,
                    at + 1,
                    clusters,
                    allow_any_namespace,
                    namespace,
                    raw_clusters_from(objects[at], clusters, 0, namespace, by_key),
                )
            },
        }
    }
}

/// Puts the raw manifests of a document under their keys for each cluster of
/// the document.
pub fn handle_kubernetes_yaml_resource(
    v: &KubernetesYaml,
    allow_any_namespace: bool,
    maybe_namespace: &Option<String>,
    by_key: &mut Vec<(KubernetesKey, Rendered)>,
) -> (r: Result<(), RenderError>)
    ensures
        match raw_from(
            views(v.objects@),
            0,
            views(v.clusters@),
            allow_any_namespace,
            optional(*maybe_namespace),
            viewed_keyed(old(by_key)@),
        ) {
            Ok(after) => r is Ok && viewed_keyed(final(by_key)@) == after,
            Err(e) => r matches Err(error) && error@ == e,
        },
{
    let ghost objects = views(v.objects@);
    let ghost clusters = views(v.clusters@);
    let ghost goal = raw_from(
        objects,
        0,
        clusters,
        allow_any_namespace,
        optional(*maybe_namespace),
        viewed_keyed(by_key@),
    );
    let mut i: usize = 0;
    while i < v.objects.len()
        invariant
            0 <= i <= v.objects@.len(),
            objects == views(v.objects@),
            clusters == views(v.clusters@),
            goal == raw_from(
                objects,
                0,
                clusters,
                allow_any_namespace,
                optional(*maybe_namespace),
                viewed_keyed(old(by_key)@),
            ),
            goal == raw_from(
                objects,
                i as int,
                clusters,
                allow_any_namespace,
                optional(*maybe_namespace),
                viewed_keyed(by_key@),
            ),
        decreases v.objects@.len() - i,
    {
        let object = &v.objects[i];
        proof {
            assert(objects[i as int] == object@);
        }
        let types = match &object.types {
            None => {
                return Err(RenderError::TypeFree(name_of(object)));
            },
            Some(types) => types,
        };
        if !allow_any_namespace && text_eq(types.api_version.as_str(), "v1") && text_eq(
            types.kind.as_str(),
            "Namespace",
        ) {
            return Err(RenderError::NamespaceForbidden);
        }
        let ghost before = viewed_keyed(by_key@);
        let mut j: usize = 0;
        while j < v.clusters.len()
            invariant
                0 <= j <= v.clusters@.len(),
                clusters == views(v.clusters@),
                object@.types is Some,
                object.types == Some(*types),
                raw_clusters_from(object@, clusters, 0, optional(*maybe_namespace), before)
                    == raw_clusters_from(
                    object@,
                    clusters,
                    j as int,
                    optional(*maybe_namespace),
                    viewed_keyed(by_key@),
                ),
            decreases v.clusters@.len() - j,
        {
            proof {
                assert(clusters[j as int] == v.clusters@[j as int]@);
            }
            let namespace = match object.metadata.namespace() {
                Some(own) => Some(own),
                None => crate::views::copy_optional(maybe_namespace),
            };
            let key = KubernetesKey {
                api_version: types.api_version.clone(),
                cluster: v.clusters[j].clone(),
                kind: types.kind.clone(),
                name: name_of(object),
                namespace,
            };
            put_keyed(by_key, key, Rendered::Raw(object.duplicate()));
            j += 1;
        }
        i += 1;
    }
    Ok(())
}

/// The objects by key after a cron job document is rendered from what its
/// image describes.
pub open spec fn rendered_cron_job(
    v: SisyphusCronJob,
    index: ConfigImageIndex,
    application: ApplicationView,
    label_namespace: Seq<char>,
    namespace: Option<Seq<char>>,
    by_key: Seq<(KeyView, RenderedView)>,
) -> Result<Seq<(KeyView, RenderedView)>, RenderErrorView> {
    match deployment_metadata(
        v.metadata.name@,
        label_namespace,
        viewed(v.metadata.labels@),
        viewed(v.metadata.annotations@),
        namespace,
    ) {
        Err(e) => Err(e),
        Ok(metadata) => match container_config(
            v.metadata.name@,
            index.binary_repository@,
            index.binary_digest@,
            application,
            v.config.env@,
            viewed(v.config.variables@),
        ) {
            Err(e) => Err(e),
            Ok((container, _, volumes)) => Ok(
                cron_jobs_from(
                    viewed(v.footprint@),
                    0,
                    v.metadata.name@,
                    namespace->Some_0,
                    cron_job(
                        metadata,
                        optional(v.config.concurrency_policy),
                        v.config.schedule@,
                        pod_spec(container, volumes),
                    ),
                    by_key,
                ),
            ),
        },
    }
}

/// The objects by key after a deployment document is rendered from what its
/// image describes.
pub open spec fn rendered_deployment(
    v: SisyphusDeployment,
    index: ConfigImageIndex,
    application: ApplicationView,
    label_namespace: Seq<char>,
    namespace: Option<Seq<char>>,
    by_key: Seq<(KeyView, RenderedView)>,
) -> Result<Seq<(KeyView, RenderedView)>, RenderErrorView> {
    match deployment_metadata(
        v.metadata.name@,
        label_namespace,
        viewed(v.metadata.labels@),
        viewed(v.metadata.annotations@),
        namespace,
    ) {
        Err(e) => Err(e),
        Ok(metadata) => {
            let labels = metadata.labels->Some_0;
            match container_config(
                v.metadata.name@,
                index.binary_repository@,
                index.binary_digest@,
                application,
                v.config.env@,
                viewed(v.config.variables@),
            ) {
                Err(e) => Err(e),
                Ok((container, ports, volumes)) => match service_spec(
                    configured_ports(v.config.service),
                    ports,
                    labels,
                ) {
                    Err(e) => Err(e),
                    Ok(service) => Ok(
                        deployments_from(
                            viewed(v.footprint@),
                            0,
                            v.metadata.name@,
                            namespace->Some_0,
                            metadata,
                            DeploymentSpecView {
                                template: PodTemplateSpecView {
                                    metadata: Some(label_metadata(labels)),
                                    spec: Some(pod_spec(container, volumes)),
                                },
                                ..base_deployment_spec(labels)
                            },
                            service,
                            by_key,
                        ),
                    ),
                },
            }
        },
    }
}

/// The objects by key after one document is rendered. `image` is what the
/// configuration image of a deployment or a cron job describes.
pub open spec fn rendered_resource(
    object: SisyphusResource,
    allow_any_namespace: bool,
    label_namespace: Seq<char>,
    namespace: Option<Seq<char>>,
    image: Option<(ConfigImageIndex, ApplicationView)>,
    by_key: Seq<(KeyView, RenderedView)>,
) -> Result<Seq<(KeyView, RenderedView)>, RenderErrorView> {
    match object {
        SisyphusResource::KubernetesYaml(v) => raw_from(
            views(v.objects@),
            0,
            views(v.clusters@),
            allow_any_namespace,
            namespace,
            by_key,
        ),
        SisyphusResource::SisyphusCronJob(v) => match image {
            None => Err(RenderErrorView::ImageMissing),
            Some((index, application)) => rendered_cron_job(
                v,
                index,
                application,
                label_namespace,
                namespace,
                by_key,
            ),
        },
        SisyphusResource::SisyphusDeployment(v) => match image {
            None => Err(RenderErrorView::ImageMissing),
            Some((index, application)) => rendered_deployment(
                v,
                index,
                application,
                label_namespace,
                namespace,
                by_key,
            ),
        },
        SisyphusResource::SisyphusYaml(_) => Err(RenderErrorView::Unresolved),
    }
}

/// The index and the application of an image, by view.
pub open spec fn image_view(image: Option<(&ConfigImageIndex, &Application)>) -> Option<
    (ConfigImageIndex, ApplicationView),
> {
    match image {
        Some((index, application)) => Some((*index, application@)),
        None => None,
    }
}

/// Renders one document into the objects by key. `image` is what the
/// configuration image of a deployment or a cron job describes, loaded by the
/// caller.
pub fn render_sisyphus_resource(
    object: &SisyphusResource,
    allow_any_namespace: bool,
    label_namespace: &str,
    maybe_namespace: &Option<String>,
    by_key: &mut Vec<(KubernetesKey, Rendered)>,
    image: Option<(&ConfigImageIndex, &Application)>,
) -> (r: Result<(), RenderError>)
    ensures
        match rendered_resource(
            *object,
            allow_any_namespace,
            label_namespace@,
            optional(*maybe_namespace),
            image_view(image),
            viewed_keyed(old(by_key)@),
        ) {
            Ok(after) => r is Ok && viewed_keyed(final(by_key)@) == after,
            Err(e) => r matches Err(error) && error@ == e,
        },
{
    match object {
        SisyphusResource::KubernetesYaml(v) => handle_kubernetes_yaml_resource(
            v,
            allow_any_namespace,
            maybe_namespace,
            by_key,
        ),
        SisyphusResource::SisyphusCronJob(v) => {
            let (index, application) = match image {
                None => {
                    return Err(RenderError::ImageMissing);
                },
                Some(loaded) => loaded,
            };
            let metadata = match render_deployment_metadata(
                v.metadata.name.as_str(),
                label_namespace,
                &v.metadata.labels,
                &v.metadata.annotations,
                maybe_namespace,
            ) {
                Err(e) => {
                    return Err(e);
                },
                Ok(metadata) => metadata,
            };
            let (container, _, volumes) = match build_container_config(
                v.metadata.name.as_str(),
                index,
                application,
                v.config.env.as_str(),
                &v.config.variables,
            ) {
                Err(e) => {
                    return Err(e);
                },
                Ok(built) => built,
            };
            let pod = build_pod_spec(container, volumes);
            let namespace = match maybe_namespace {
                None => {
                    return Err(RenderError::NamespaceMissing);
                },
                Some(namespace) => namespace,
            };
            process_cronjob_footprint(
                v,
                &metadata,
                &v.config.concurrency_policy,
                v.config.schedule.as_str(),
                &pod,
                namespace.as_str(),
                by_key,
            )
        },
        SisyphusResource::SisyphusDeployment(v) => {
            let (index, application) = match image {
                None => {
                    return Err(RenderError::ImageMissing);
                },
                Some(loaded) => loaded,
            };
            let metadata = match render_deployment_metadata(
                v.metadata.name.as_str(),
                label_namespace,
                &v.metadata.labels,
                &v.metadata.annotations,
                maybe_namespace,
            ) {
                Err(e) => {
                    return Err(e);
                },
                Ok(metadata) => metadata,
            };
            let labels = match &metadata.labels {
                Some(labels) => copy_map(labels),
                None => Vec::new(),
            };
            let mut independent_spec = build_base_deployment_spec(copy_map(&labels));
            let (container, ports, volumes) = match build_container_config(
                v.metadata.name.as_str(),
                index,
                application,
                v.config.env.as_str(),
                &v.config.variables,
            ) {
                Err(e) => {
                    return Err(e);
                },
                Ok(built) => built,
            };
            independent_spec.template.spec = Some(build_pod_spec(container, volumes));
            let service = match build_service_spec(&v.config.service, &ports, labels) {
                Err(e) => {
                    return Err(e);
                },
                Ok(service) => service,
            };
            let namespace = match maybe_namespace {
                None => {
                    return Err(RenderError::NamespaceMissing);
                },
                Some(namespace) => namespace,
            };
            process_deployment_footprint(
                v,
                &metadata,
                &independent_spec,
                &service,
                namespace.as_str(),
                by_key,
            )
        },
        SisyphusResource::SisyphusYaml(_) => Err(RenderError::Unresolved),
    }
}

} // verus!
