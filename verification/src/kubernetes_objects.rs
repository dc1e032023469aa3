//! The Kubernetes objects that the renderer builds, with the fields that it
//! sets. A map is a vector of entries in increasing key order.
use crate::views::{
    copy_items, copy_optional, copy_optional_items, copy_optional_map, optional, optional_map,
    optional_views, views, Duplicate,
};
use vstd::prelude::*;

verus! {

/// An integer or a text.
#[derive(Debug, Clone, PartialEq, Eq)]
pub enum IntOrString {
    Int(i32),
    String(String),
}

/// The mathematical value of an `IntOrString`.
pub enum IntOrStringView {
    Int(i32),
    String(Seq<char>),
}

impl View for IntOrString {
    type V = IntOrStringView;

    open spec fn view(&self) -> IntOrStringView {
        match self {
            IntOrString::Int(i) => IntOrStringView::Int(*i),
            IntOrString::String(s) => IntOrStringView::String(s@),
        }
    }
}

/// The name, the namespace, the labels and the annotations of an object.
#[derive(Debug, Clone, PartialEq, Eq, Default)]
pub struct ObjectMeta {
    pub annotations: Option<Vec<(String, String)>>,
    pub labels: Option<Vec<(String, String)>>,
    pub name: Option<String>,
    pub namespace: Option<String>,
}

/// The mathematical value of an `ObjectMeta`.
pub struct ObjectMetaView {
    pub annotations: Option<Seq<(Seq<char>, Seq<char>)>>,
    pub labels: Option<Seq<(Seq<char>, Seq<char>)>>,
    pub name: Option<Seq<char>>,
    pub namespace: Option<Seq<char>>,
}

impl View for ObjectMeta {
    type V = ObjectMetaView;

    open spec fn view(&self) -> ObjectMetaView {
        ObjectMetaView {
            annotations: optional_map(self.annotations),
            labels: optional_map(self.labels),
            name: optional(self.name),
            namespace: optional(self.namespace),
        }
    }
}

/// A port of a container.
#[derive(Debug, Clone, PartialEq, Eq, Default)]
pub struct ContainerPort {
    pub container_port: i32,
    pub name: Option<String>,
    pub protocol: Option<String>,
}

/// The mathematical value of a `ContainerPort`.
pub struct ContainerPortView {
    pub container_port: i32,
    pub name: Option<Seq<char>>,
    pub protocol: Option<Seq<char>>,
}

impl View for ContainerPort {
    type V = ContainerPortView;

    open spec fn view(&self) -> ContainerPortView {
        ContainerPortView {
            container_port: self.container_port,
            name: optional(self.name),
            protocol: optional(self.protocol),
        }
    }
}

/// One key of one secret.
#[derive(Debug, Clone, PartialEq, Eq, Default)]
pub struct SecretKeySelector {
    pub key: String,
    pub name: String,
    pub optional: Option<bool>,
}

/// Where the value of an environment variable comes from.
#[derive(Debug, Clone, PartialEq, Eq, Default)]
pub struct EnvVarSource {
    pub secret_key_ref: Option<SecretKeySelector>,
}

/// The mathematical value of an `EnvVarSource`: the key and the name of the
/// secret that it refers to, with the flag that says whether it may be missing.
pub struct EnvVarSourceView {
    pub secret_key_ref: Option<(Seq<char>, Seq<char>, Option<bool>)>,
}

impl View for EnvVarSource {
    type V = EnvVarSourceView;

    open spec fn view(&self) -> EnvVarSourceView {
        EnvVarSourceView {
            secret_key_ref: match self.secret_key_ref {
                Some(selector) => Some((selector.key@, selector.name@, selector.optional)),
                None => None,
            },
        }
    }
}

/// An environment variable of a container.
#[derive(Debug, Clone, PartialEq, Eq, Default)]
pub struct EnvVar {
    pub name: String,
    pub value: Option<String>,
    pub value_from: Option<EnvVarSource>,
}

/// The mathematical value of an `EnvVar`.
pub struct EnvVarView {
    pub name: Seq<char>,
    pub value: Option<Seq<char>>,
    pub value_from: Option<EnvVarSourceView>,
}

impl View for EnvVar {
    type V = EnvVarView;

    open spec fn view(&self) -> EnvVarView {
        EnvVarView {
            name: self.name@,
            value: optional(self.value),
            value_from: optional(self.value_from),
        }
    }
}

/// A key of a secret and the file that it becomes.
#[derive(Debug, Clone, PartialEq, Eq, Default)]
pub struct KeyToPath {
    pub key: String,
    pub mode: Option<i32>,
    pub path: String,
}

/// The mathematical value of a `KeyToPath`.
pub struct KeyToPathView {
    pub key: Seq<char>,
    pub mode: Option<i32>,
    pub path: Seq<char>,
}

impl View for KeyToPath {
    type V = KeyToPathView;

    open spec fn view(&self) -> KeyToPathView {
        KeyToPathView { key: self.key@, mode: self.mode, path: self.path@ }
    }
}

/// A secret as the source of a volume.
#[derive(Debug, Clone, PartialEq, Eq, Default)]
pub struct SecretVolumeSource {
    pub default_mode: Option<i32>,
    pub items: Option<Vec<KeyToPath>>,
    pub secret_name: Option<String>,
}

/// The mathematical value of a `SecretVolumeSource`.
pub struct SecretVolumeSourceView {
    pub default_mode: Option<i32>,
    pub items: Option<Seq<KeyToPathView>>,
    pub secret_name: Option<Seq<char>>,
}

impl View for SecretVolumeSource {
    type V = SecretVolumeSourceView;

    open spec fn view(&self) -> SecretVolumeSourceView {
        SecretVolumeSourceView {
            default_mode: self.default_mode,
            items: optional_views(self.items),
            secret_name: optional(self.secret_name),
        }
    }
}

/// A volume of a pod.
#[derive(Debug, Clone, PartialEq, Eq, Default)]
pub struct Volume {
    pub name: String,
    pub secret: Option<SecretVolumeSource>,
}

/// The mathematical value of a `Volume`.
pub struct VolumeView {
    pub name: Seq<char>,
    pub secret: Option<SecretVolumeSourceView>,
}

impl View for Volume {
    type V = VolumeView;

    open spec fn view(&self) -> VolumeView {
        VolumeView { name: self.name@, secret: optional(self.secret) }
    }
}

/// Where a container sees a volume.
#[derive(Debug, Clone, PartialEq, Eq, Default)]
pub struct VolumeMount {
    pub mount_path: String,
    pub name: String,
    pub read_only: Option<bool>,
}

/// The mathematical value of a `VolumeMount`.
pub struct VolumeMountView {
    pub mount_path: Seq<char>,
    pub name: Seq<char>,
    pub read_only: Option<bool>,
}

impl View for VolumeMount {
    type V = VolumeMountView;

    open spec fn view(&self) -> VolumeMountView {
        VolumeMountView {
            mount_path: self.mount_path@,
            name: self.name@,
            read_only: self.read_only,
        }
    }
}

/// An amount of a resource, as text.
#[derive(Debug, Clone, PartialEq, Eq, Default)]
pub struct Quantity(pub String);

impl View for Quantity {
    type V = Seq<char>;

    open spec fn view(&self) -> Seq<char> {
        self.0@
    }
}

/// What a container asks for and what it may use at most.
#[derive(Debug, Clone, PartialEq, Eq, Default)]
pub struct ResourceRequirements {
    pub limits: Option<Vec<(String, Quantity)>>,
    pub requests: Option<Vec<(String, Quantity)>>,
}

/// The mathematical value of a `ResourceRequirements`.
pub struct ResourceRequirementsView {
    pub limits: Option<Seq<(Seq<char>, Seq<char>)>>,
    pub requests: Option<Seq<(Seq<char>, Seq<char>)>>,
}

impl View for ResourceRequirements {
    type V = ResourceRequirementsView;

    open spec fn view(&self) -> ResourceRequirementsView {
        ResourceRequirementsView {
            limits: optional_map(self.limits),
            requests: optional_map(self.requests),
        }
    }
}

/// A container of a pod.
#[derive(Debug, Clone, PartialEq, Eq, Default)]
pub struct Container {
    pub args: Option<Vec<String>>,
    pub env: Option<Vec<EnvVar>>,
    pub image: Option<String>,
    pub image_pull_policy: Option<String>,
    pub name: String,
    pub ports: Option<Vec<ContainerPort>>,
    pub resources: Option<ResourceRequirements>,
    pub termination_message_path: Option<String>,
    pub termination_message_policy: Option<String>,
    pub volume_mounts: Option<Vec<VolumeMount>>,
}

/// The mathematical value of a `Container`.
pub struct ContainerView {
    pub args: Option<Seq<Seq<char>>>,
    pub env: Option<Seq<EnvVarView>>,
    pub image: Option<Seq<char>>,
    pub image_pull_policy: Option<Seq<char>>,
    pub name: Seq<char>,
    pub ports: Option<Seq<ContainerPortView>>,
    pub resources: Option<ResourceRequirementsView>,
    pub termination_message_path: Option<Seq<char>>,
    pub termination_message_policy: Option<Seq<char>>,
    pub volume_mounts: Option<Seq<VolumeMountView>>,
}

impl View for Container {
    type V = ContainerView;

    open spec fn view(&self) -> ContainerView {
        ContainerView {
            args: optional_views(self.args),
            env: optional_views(self.env),
            image: optional(self.image),
            image_pull_policy: optional(self.image_pull_policy),
            name: self.name@,
            ports: optional_views(self.ports),
            resources: optional(self.resources),
            termination_message_path: optional(self.termination_message_path),
            termination_message_policy: optional(self.termination_message_policy),
            volume_mounts: optional_views(self.volume_mounts),
        }
    }
}

/// The security settings of a pod: none that the renderer sets.
#[derive(Debug, Clone, PartialEq, Eq, Default)]
pub struct PodSecurityContext {}

/// What a pod runs.
#[derive(Debug, Clone, PartialEq, Eq, Default)]
pub struct PodSpec {
    pub containers: Vec<Container>,
    pub dns_policy: Option<String>,
    pub restart_policy: Option<String>,
    pub scheduler_name: Option<String>,
    pub security_context: Option<PodSecurityContext>,
    pub termination_grace_period_seconds: Option<i64>,
    pub volumes: Option<Vec<Volume>>,
}

/// The mathematical value of a `PodSpec`.
pub struct PodSpecView {
    pub containers: Seq<ContainerView>,
    pub dns_policy: Option<Seq<char>>,
    pub restart_policy: Option<Seq<char>>,
    pub scheduler_name: Option<Seq<char>>,
    pub security_context: bool,
    pub termination_grace_period_seconds: Option<i64>,
    pub volumes: Option<Seq<VolumeView>>,
}

impl View for PodSpec {
    type V = PodSpecView;

    open spec fn view(&self) -> PodSpecView {
        PodSpecView {
            containers: views(self.containers@),
            dns_policy: optional(self.dns_policy),
            restart_policy: optional(self.restart_policy),
            scheduler_name: optional(self.scheduler_name),
            security_context: self.security_context is Some,
            termination_grace_period_seconds: self.termination_grace_period_seconds,
            volumes: optional_views(self.volumes),
        }
    }
}

/// The pods that a workload makes.
#[derive(Debug, Clone, PartialEq, Eq, Default)]
pub struct PodTemplateSpec {
    pub metadata: Option<ObjectMeta>,
    pub spec: Option<PodSpec>,
}

/// The mathematical value of a `PodTemplateSpec`.
pub struct PodTemplateSpecView {
    pub metadata: Option<ObjectMetaView>,
    pub spec: Option<PodSpecView>,
}

impl View for PodTemplateSpec {
    type V = PodTemplateSpecView;

    open spec fn view(&self) -> PodTemplateSpecView {
        PodTemplateSpecView { metadata: optional(self.metadata), spec: optional(self.spec) }
    }
}

/// The labels that select pods.
#[derive(Debug, Clone, PartialEq, Eq, Default)]
pub struct LabelSelector {
    pub match_labels: Option<Vec<(String, String)>>,
}

/// How many pods may be added or missing while a deployment is rolled out.
#[derive(Debug, Clone, PartialEq, Eq, Default)]
pub struct RollingUpdateDeployment {
    pub max_surge: Option<IntOrString>,
    pub max_unavailable: Option<IntOrString>,
}

/// How a deployment replaces its pods.
#[derive(Debug, Clone, PartialEq, Eq, Default)]
pub struct DeploymentStrategy {
    pub rolling_update: Option<RollingUpdateDeployment>,
    pub type_: Option<String>,
}

/// The mathematical value of a `DeploymentStrategy`: its type, and the surge
/// and the unavailability of its rolling update where it has one.
pub struct DeploymentStrategyView {
    pub rolling_update: Option<(Option<IntOrStringView>, Option<IntOrStringView>)>,
    pub type_: Option<Seq<char>>,
}

impl View for DeploymentStrategy {
    type V = DeploymentStrategyView;

    open spec fn view(&self) -> DeploymentStrategyView {
        DeploymentStrategyView {
            rolling_update: match self.rolling_update {
                Some(rolling) => Some((optional(rolling.max_surge), optional(rolling.max_unavailable))),
                None => None,
            },
            type_: optional(self.type_),
        }
    }
}

/// What a deployment runs.
#[derive(Debug, Clone, PartialEq, Eq, Default)]
pub struct DeploymentSpec {
    pub progress_deadline_seconds: Option<i32>,
    pub replicas: Option<i32>,
    pub revision_history_limit: Option<i32>,
    pub selector: LabelSelector,
    pub strategy: Option<DeploymentStrategy>,
    pub template: PodTemplateSpec,
}

/// The mathematical value of a `DeploymentSpec`.
pub struct DeploymentSpecView {
    pub progress_deadline_seconds: Option<i32>,
    pub replicas: Option<i32>,
    pub revision_history_limit: Option<i32>,
    pub match_labels: Option<Seq<(Seq<char>, Seq<char>)>>,
    pub strategy: Option<DeploymentStrategyView>,
    pub template: PodTemplateSpecView,
}

impl View for DeploymentSpec {
    type V = DeploymentSpecView;

    open spec fn view(&self) -> DeploymentSpecView {
        DeploymentSpecView {
            progress_deadline_seconds: self.progress_deadline_seconds,
            replicas: self.replicas,
            revision_history_limit: self.revision_history_limit,
            match_labels: optional_map(self.selector.match_labels),
            strategy: optional(self.strategy),
            template: self.template@,
        }
    }
}

/// A port of a service.
#[derive(Debug, Clone, PartialEq, Eq, Default)]
pub struct ServicePort {
    pub name: Option<String>,
    pub port: i32,
    pub protocol: Option<String>,
    pub target_port: Option<IntOrString>,
}

/// The mathematical value of a `ServicePort`.
pub struct ServicePortView {
    pub name: Option<Seq<char>>,
    pub port: i32,
    pub protocol: Option<Seq<char>>,
    pub target_port: Option<IntOrStringView>,
}

impl View for ServicePort {
    type V = ServicePortView;

    open spec fn view(&self) -> ServicePortView {
        ServicePortView {
            name: optional(self.name),
            port: self.port,
            protocol: optional(self.protocol),
            target_port: optional(self.target_port),
        }
    }
}

/// What a service leads to.
#[derive(Debug, Clone, PartialEq, Eq, Default)]
pub struct ServiceSpec {
    pub ports: Option<Vec<ServicePort>>,
    pub selector: Option<Vec<(String, String)>>,
}

/// The mathematical value of a `ServiceSpec`.
pub struct ServiceSpecView {
    pub ports: Option<Seq<ServicePortView>>,
    pub selector: Option<Seq<(Seq<char>, Seq<char>)>>,
}

impl View for ServiceSpec {
    type V = ServiceSpecView;

    open spec fn view(&self) -> ServiceSpecView {
        ServiceSpecView {
            ports: optional_views(self.ports),
            selector: optional_map(self.selector),
        }
    }
}

/// What a job runs.
#[derive(Debug, Clone, PartialEq, Eq, Default)]
pub struct JobSpec {
    pub template: PodTemplateSpec,
}

/// The jobs that a cron job makes.
#[derive(Debug, Clone, PartialEq, Eq, Default)]
pub struct JobTemplateSpec {
    pub metadata: Option<ObjectMeta>,
    pub spec: Option<JobSpec>,
}

/// What a cron job runs, and when.
#[derive(Debug, Clone, PartialEq, Eq, Default)]
pub struct CronJobSpec {
    pub concurrency_policy: Option<String>,
    pub job_template: JobTemplateSpec,
    pub schedule: String,
}

/// The mathematical value of a `CronJobSpec`: the policy, the schedule, and
/// the pods of its jobs where the job template has a specification.
pub struct CronJobSpecView {
    pub concurrency_policy: Option<Seq<char>>,
    pub job_metadata: Option<ObjectMetaView>,
    pub job_pods: Option<PodTemplateSpecView>,
    pub schedule: Seq<char>,
}

impl View for CronJobSpec {
    type V = CronJobSpecView;

    open spec fn view(&self) -> CronJobSpecView {
        CronJobSpecView {
            concurrency_policy: optional(self.concurrency_policy),
            job_metadata: optional(self.job_template.metadata),
            job_pods: match self.job_template.spec {
                Some(job) => Some(job.template@),
                None => None,
            },
            schedule: self.schedule@,
        }
    }
}

/// An `apps/v1` `Deployment`.
#[derive(Debug, Clone, PartialEq, Eq, Default)]
pub struct Deployment {
    pub metadata: ObjectMeta,
    pub spec: Option<DeploymentSpec>,
}

/// A `batch/v1` `CronJob`.
#[derive(Debug, Clone, PartialEq, Eq, Default)]
pub struct CronJob {
    pub metadata: ObjectMeta,
    pub spec: Option<CronJobSpec>,
}

/// A `v1` `Service`.
#[derive(Debug, Clone, PartialEq, Eq, Default)]
pub struct Service {
    pub metadata: ObjectMeta,
    pub spec: Option<ServiceSpec>,
}

impl Duplicate for IntOrString {
    fn duplicate(&self) -> (r: IntOrString) {
        match self {
            IntOrString::Int(i) => IntOrString::Int(*i),
            IntOrString::String(s) => IntOrString::String(s.clone()),
        }
    }
}

impl Duplicate for ObjectMeta {
    fn duplicate(&self) -> (r: ObjectMeta) {
        ObjectMeta {
            annotations: copy_optional_map(&self.annotations),
            labels: copy_optional_map(&self.labels),
            name: copy_optional(&self.name),
            namespace: copy_optional(&self.namespace),
        }
    }
}

impl Duplicate for ContainerPort {
    fn duplicate(&self) -> (r: ContainerPort) {
        ContainerPort {
            container_port: self.container_port,
            name: copy_optional(&self.name),
            protocol: copy_optional(&self.protocol),
        }
    }
}

impl Duplicate for EnvVarSource {
    fn duplicate(&self) -> (r: EnvVarSource) {
        EnvVarSource {
            secret_key_ref: match &self.secret_key_ref {
                Some(selector) => Some(
                    SecretKeySelector {
                        key: selector.key.clone(),
                        name: selector.name.clone(),
                        optional: selector.optional,
                    },
                ),
                None => None,
            },
        }
    }
}

impl Duplicate for EnvVar {
    fn duplicate(&self) -> (r: EnvVar) {
        EnvVar {
            name: self.name.clone(),
            value: copy_optional(&self.value),
            value_from: copy_optional(&self.value_from),
        }
    }
}

impl Duplicate for KeyToPath {
    fn duplicate(&self) -> (r: KeyToPath) {
        KeyToPath { key: self.key.clone(), mode: self.mode, path: self.path.clone() }
    }
}

impl Duplicate for SecretVolumeSource {
    fn duplicate(&self) -> (r: SecretVolumeSource) {
        SecretVolumeSource {
            default_mode: self.default_mode,
            items: copy_optional_items(&self.items),
            secret_name: copy_optional(&self.secret_name),
        }
    }
}

impl Duplicate for Volume {
    fn duplicate(&self) -> (r: Volume) {
        Volume { name: self.name.clone(), secret: copy_optional(&self.secret) }
    }
}

impl Duplicate for VolumeMount {
    fn duplicate(&self) -> (r: VolumeMount) {
        VolumeMount {
            mount_path: self.mount_path.clone(),
            name: self.name.clone(),
            read_only: self.read_only,
        }
    }
}

impl Duplicate for Quantity {
    fn duplicate(&self) -> (r: Quantity) {
        Quantity(self.0.clone())
    }
}

impl Duplicate for ResourceRequirements {
    fn duplicate(&self) -> (r: ResourceRequirements) {
        ResourceRequirements {
            limits: copy_optional_map(&self.limits),
            requests: copy_optional_map(&self.requests),
        }
    }
}

impl Duplicate for Container {
    fn duplicate(&self) -> (r: Container) {
        Container {
            args: copy_optional_items(&self.args),
            env: copy_optional_items(&self.env),
            image: copy_optional(&self.image),
            image_pull_policy: copy_optional(&self.image_pull_policy),
            name: self.name.clone(),
            ports: copy_optional_items(&self.ports),
            resources: copy_optional(&self.resources),
            termination_message_path: copy_optional(&self.termination_message_path),
            termination_message_policy: copy_optional(&self.termination_message_policy),
            volume_mounts: copy_optional_items(&self.volume_mounts),
        }
    }
}

impl Duplicate for PodSpec {
    fn duplicate(&self) -> (r: PodSpec) {
        PodSpec {
            containers: copy_items(&self.containers),
            dns_policy: copy_optional(&self.dns_policy),
            restart_policy: copy_optional(&self.restart_policy),
            scheduler_name: copy_optional(&self.scheduler_name),
            security_context: match &self.security_context {
                Some(_) => Some(PodSecurityContext {  }),
                None => None,
            },
            termination_grace_period_seconds: self.termination_grace_period_seconds,
            volumes: copy_optional_items(&self.volumes),
        }
    }
}

impl Duplicate for PodTemplateSpec {
    fn duplicate(&self) -> (r: PodTemplateSpec) {
        PodTemplateSpec {
            metadata: copy_optional(&self.metadata),
            spec: copy_optional(&self.spec),
        }
    }
}

impl Duplicate for DeploymentStrategy {
    fn duplicate(&self) -> (r: DeploymentStrategy) {
        DeploymentStrategy {
            rolling_update: match &self.rolling_update {
                Some(rolling) => Some(
                    RollingUpdateDeployment {
                        max_surge: copy_optional(&rolling.max_surge),
                        max_unavailable: copy_optional(&rolling.max_unavailable),
                    },
                ),
                None => None,
            },
            type_: copy_optional(&self.type_),
        }
    }
}

impl Duplicate for DeploymentSpec {
    fn duplicate(&self) -> (r: DeploymentSpec) {
        DeploymentSpec {
            progress_deadline_seconds: self.progress_deadline_seconds,
            replicas: self.replicas,
            revision_history_limit: self.revision_history_limit,
            selector: LabelSelector {
                match_labels: copy_optional_map(&self.selector.match_labels),
            },
            strategy: copy_optional(&self.strategy),
            template: self.template.duplicate(),
        }
    }
}

impl Duplicate for ServicePort {
    fn duplicate(&self) -> (r: ServicePort) {
        ServicePort {
            name: copy_optional(&self.name),
            port: self.port,
            protocol: copy_optional(&self.protocol),
            target_port: copy_optional(&self.target_port),
        }
    }
}

impl Duplicate for ServiceSpec {
    fn duplicate(&self) -> (r: ServiceSpec) {
        ServiceSpec {
            ports: copy_optional_items(&self.ports),
            selector: copy_optional_map(&self.selector),
        }
    }
}

} // verus!
