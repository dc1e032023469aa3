//! The documents that operators write: raw manifests, deployments and cron
//! jobs that are rendered from a configuration image, and files that only
//! point at other files.
use crate::resources::DynamicObject;
use crate::text::owned;
use vstd::prelude::*;

verus! {

/// One document of an index file.
#[derive(Debug, Clone)]
pub enum SisyphusResource {
    KubernetesYaml(KubernetesYaml),
    SisyphusCronJob(SisyphusCronJob),
    SisyphusDeployment(SisyphusDeployment),
    SisyphusYaml(SisyphusYaml),
}

/// A document that knows the name of its kind.
pub trait HasKind {
    /// The name of the kind.
    spec fn kind_name(&self) -> Seq<char>;

    fn kind(&self) -> (r: &'static str)
        ensures
            r@ == self.kind_name(),
    ;
}

/// A document that is rendered from a configuration image.
pub trait HasConfigImage {
    /// The reference of the configuration image.
    spec fn image(&self) -> Seq<char>;

    fn config_image<'a>(&'a self) -> (r: &'a String)
        ensures
            r@ == self.image(),
    ;

    fn set_config_image(&mut self, image: String)
        ensures
            final(self).image() == image@,
    ;
}

/// Raw manifests, given in the document or in the files that it names.
#[derive(Debug, Clone)]
pub struct KubernetesYaml {
    pub api_version: String,
    pub metadata: Metadata,
    pub clusters: Vec<String>,
    pub objects: Vec<DynamicObject>,
    pub sources: Vec<String>,
}

impl HasKind for KubernetesYaml {
    open spec fn kind_name(&self) -> Seq<char> {
        "KubernetesYaml"@
    }

    fn kind(&self) -> (r: &'static str) {
        "KubernetesYaml"
    }
}

/// A cron job, rendered from a configuration image for each cluster of its
/// footprint. The footprint is in increasing order of cluster names.
#[derive(Debug, Clone)]
pub struct SisyphusCronJob {
    pub api_version: String,
    pub metadata: Metadata,
    pub config: CronJobConfig,
    pub footprint: Vec<(String, CronJobFootprintEntry)>,
}

impl HasConfigImage for SisyphusCronJob {
    open spec fn image(&self) -> Seq<char> {
        self.config.image@
    }

    fn config_image<'a>(&'a self) -> (r: &'a String) {
        &self.config.image
    }

    fn set_config_image(&mut self, image: String)
        ensures
            final(self).api_version == old(self).api_version,
            final(self).metadata == old(self).metadata,
            final(self).footprint == old(self).footprint,
            final(self).config.env == old(self).config.env,
            final(self).config.schedule == old(self).config.schedule,
            final(self).config.concurrency_policy == old(self).config.concurrency_policy,
            final(self).config.variables == old(self).config.variables,
    {
        self.config.image = image
    }
}

impl HasKind for SisyphusCronJob {
    open spec fn kind_name(&self) -> Seq<char> {
        "SisyphusCronJob"@
    }

    fn kind(&self) -> (r: &'static str) {
        "SisyphusCronJob"
    }
}

/// A deployment, rendered from a configuration image for each cluster of its
/// footprint. The footprint is in increasing order of cluster names.
#[derive(Debug, Clone)]
pub struct SisyphusDeployment {
    pub api_version: String,
    pub metadata: Metadata,
    pub config: DeploymentConfig,
    pub footprint: Vec<(String, DeploymentFootprintEntry)>,
}

impl HasConfigImage for SisyphusDeployment {
    open spec fn image(&self) -> Seq<char> {
        self.config.image@
    }

    fn config_image<'a>(&'a self) -> (r: &'a String) {
        &self.config.image
    }

    fn set_config_image(&mut self, image: String)
        ensures
            final(self).api_version == old(self).api_version,
            final(self).metadata == old(self).metadata,
            final(self).footprint == old(self).footprint,
            final(self).config.env == old(self).config.env,
            final(self).config.service == old(self).config.service,
            final(self).config.variables == old(self).config.variables,
    {
        self.config.image = image
    }
}

impl HasKind for SisyphusDeployment {
    open spec fn kind_name(&self) -> Seq<char> {
        "SisyphusDeployment"@
    }

    fn kind(&self) -> (r: &'static str) {
        "SisyphusDeployment"
    }
}

/// A document that only names other index files.
#[derive(Debug, Clone)]
pub struct SisyphusYaml {
    pub api_version: String,
    pub metadata: Metadata,
    pub sources: Vec<String>,
}

impl HasKind for SisyphusYaml {
    open spec fn kind_name(&self) -> Seq<char> {
        "SisyphusYaml"@
    }

    fn kind(&self) -> (r: &'static str) {
        "SisyphusYaml"
    }
}

/// The name of a document with its annotations and labels, each in increasing
/// key order.
#[derive(Debug, Clone)]
pub struct Metadata {
    pub annotations: Vec<(String, String)>,
    pub name: String,
    pub labels: Vec<(String, String)>,
}

/// How a cron job is configured. The variables are in increasing order of
/// their names.
#[derive(Debug, Clone)]
pub struct CronJobConfig {
    pub concurrency_policy: Option<String>,
    pub env: String,
    pub image: String,
    pub schedule: String,
    pub variables: Vec<(String, VariableSource)>,
}

/// What a cron job needs to know of one cluster: nothing so far.
#[derive(Debug, Clone)]
pub struct CronJobFootprintEntry {}

/// How a deployment is configured. The variables are in increasing order of
/// their names.
#[derive(Debug, Clone)]
pub struct DeploymentConfig {
    pub env: String,
    pub image: String,
    pub service: Option<DeploymentServiceConfig>,
    pub variables: Vec<(String, VariableSource)>,
}

/// What a deployment needs to know of one cluster.
#[derive(Debug, Clone)]
pub struct DeploymentFootprintEntry {
    pub replicas: i32,
}

/// The ports of the service of a deployment, by the name of the container
/// port that each leads to, in increasing order of those names.
#[derive(Debug, Clone)]
pub struct DeploymentServiceConfig {
    pub ports: Vec<(String, ServicePort)>,
}

/// One port of a service.
#[derive(Debug, Clone)]
pub struct ServicePort {
    pub name: Option<String>,
    pub number: i32,
}

/// Where the value of a variable comes from.
#[derive(Debug, Clone)]
pub enum VariableSource {
    SecretKeyRef(KubernetesSecretKeyRef),
}

/// One key of one secret.
#[derive(Debug, Clone)]
pub struct KubernetesSecretKeyRef {
    pub name: String,
    pub key: String,
}

/// What identifies a document in its namespace.
#[derive(Debug, Clone)]
pub struct SisyphusKey {
    pub api_version: String,
    pub kind: String,
    pub name: String,
}

/// The mathematical value of a `SisyphusKey`.
pub struct SisyphusKeyView {
    pub api_version: Seq<char>,
    pub kind: Seq<char>,
    pub name: Seq<char>,
}

impl View for SisyphusKey {
    type V = SisyphusKeyView;

    open spec fn view(&self) -> SisyphusKeyView {
        SisyphusKeyView { api_version: self.api_version@, kind: self.kind@, name: self.name@ }
    }
}

impl SisyphusKey {
    /// Whether the two keys are the same.
    pub fn same(&self, other: &SisyphusKey) -> (r: bool)
        ensures
            r == (self@ == other@),
    {
        self.api_version == other.api_version && self.kind == other.kind && self.name
            == other.name
    }
}

/// The key of a document that can be held: its API version, the name of its
/// kind and its name. A `SisyphusYaml` has none, since it is resolved when it
/// is read.
pub open spec fn key_of(resource: SisyphusResource) -> Option<SisyphusKeyView> {
    match resource {
        SisyphusResource::KubernetesYaml(v) => Some(
            SisyphusKeyView {
                api_version: v.api_version@,
                kind: "KubernetesYaml"@,
                name: v.metadata.name@,
            },
        ),
        SisyphusResource::SisyphusCronJob(v) => Some(
            SisyphusKeyView {
                api_version: v.api_version@,
                kind: "SisyphusCronJob"@,
                name: v.metadata.name@,
            },
        ),
        SisyphusResource::SisyphusDeployment(v) => Some(
            SisyphusKeyView {
                api_version: v.api_version@,
                kind: "SisyphusDeployment"@,
                name: v.metadata.name@,
            },
        ),
        SisyphusResource::SisyphusYaml(_) => None,
    }
}

/// The keys of the documents held so far.
pub open spec fn held_keys(resources: Seq<(SisyphusKey, SisyphusResource)>) -> Seq<
    SisyphusKeyView,
> {
    Seq::new(resources.len(), |i: int| resources[i].0@)
}

/// Why a document could not be held.
#[derive(Debug, Clone)]
pub enum IngestError {
    /// A document with this key is held already.
    Duplicate(SisyphusKey),
    /// The document is a `SisyphusYaml`, which is never held.
    Unresolved,
}

/// Holds a document under its key. Two documents with one key in one
/// namespace are an error, and nothing is held then.
pub fn insert_sisyphus_resource(
    object: SisyphusResource,
    resources: &mut Vec<(SisyphusKey, SisyphusResource)>,
) -> (r: Result<(), IngestError>)
    ensures
        match key_of(object) {
            None => r matches Err(IngestError::Unresolved) && final(resources)@ == old(
                resources,
            )@,
            Some(key) => if held_keys(old(resources)@).contains(key) {
                &&& r matches Err(IngestError::Duplicate(k))
                &&& k@ == key
                &&& final(resources)@ == old(resources)@
            } else {
                &&& r is Ok
                &&& final(resources)@.len() == old(resources)@.len() + 1
                &&& final(resources)@.subrange(0, old(resources)@.len() as int) == old(
                    resources,
                )@
                &&& final(resources)@.last().0@ == key
                &&& final(resources)@.last().1 == object
            },
        },
{
    let key = match &object {
        SisyphusResource::KubernetesYaml(v) => SisyphusKey {
            api_version: v.api_version.clone(),
            kind: owned(v.kind()),
            name: v.metadata.name.clone(),
        },
        SisyphusResource::SisyphusCronJob(v) => SisyphusKey {
            api_version: v.api_version.clone(),
            kind: owned(v.kind()),
            name: v.metadata.name.clone(),
        },
        SisyphusResource::SisyphusDeployment(v) => SisyphusKey {
            api_version: v.api_version.clone(),
            kind: owned(v.kind()),
            name: v.metadata.name.clone(),
        },
        SisyphusResource::SisyphusYaml(_) => {
            return Err(IngestError::Unresolved);
        },
    };
    let ghost keys = held_keys(resources@);
    let mut i: usize = 0;
    while i < resources.len()
        invariant
            0 <= i <= resources@.len(),
            resources@ == old(resources)@,
            keys == held_keys(resources@),
            key_of(object) == Some(key@),
            forall|j: int| 0 <= j < i ==> (#[trigger] keys[j]) != key@,
        decreases resources@.len() - i,
    {
        proof {
            assert(keys[i as int] == resources@[i as int].0@);
        }
        if resources[i].0.same(&key) {
            proof {
                assert(keys[i as int] == key@);
            }
            return Err(IngestError::Duplicate(key));
        }
        i += 1;
    }
    resources.push((key, object));
    proof {
        assert(resources@.subrange(0, old(resources)@.len() as int) =~= old(resources)@);
    }
    Ok(())
}

/// The mathematical value of a `ServicePort`.
pub struct ServicePortView {
    pub name: Option<Seq<char>>,
    pub number: i32,
}

impl View for ServicePort {
    type V = ServicePortView;

    open spec fn view(&self) -> ServicePortView {
        ServicePortView { name: crate::views::optional(self.name), number: self.number }
    }
}

/// The mathematical value of a `VariableSource`: the name of the secret and
/// the key in it.
pub struct VariableSourceView {
    pub name: Seq<char>,
    pub key: Seq<char>,
}

impl View for VariableSource {
    type V = VariableSourceView;

    open spec fn view(&self) -> VariableSourceView {
        match self {
            VariableSource::SecretKeyRef(reference) => VariableSourceView {
                name: reference.name@,
                key: reference.key@,
            },
        }
    }
}

impl View for DeploymentFootprintEntry {
    type V = i32;

    open spec fn view(&self) -> i32 {
        self.replicas
    }
}

impl View for CronJobFootprintEntry {
    type V = ();

    open spec fn view(&self) -> () {
        ()
    }
}

} // verus!
