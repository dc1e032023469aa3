//! The commands' pipelines, as far as they compute: what is wanted is
//! prepared, filtered and compared with what the database holds, and a plan
//! comes out.
use crate::assoc::{with_entry, without_key};
use crate::comparable::{made_comparable, make_comparable, ComparableError, ComparableErrorView};
use crate::diff::{generate_diff, plan_view, planned, DiffAction, DiffError, PlanView};
use crate::json::{Json, JsonView};
use crate::key::{filter_admits, key_matches_filter, names_namespace, KeyView, KubernetesKey, PartialKey, PartialKeyView};
use crate::keymap::{has_key as has_object, value_of as object_for, with_entry as with_object};
use crate::resources::{
    lemma_resources_tail, object_at, put_object, resources_view, text_member, with_text_member,
    DynamicObject, DynamicObjectView, KubernetesResources, ObjectMeta, ResourcesView, TypeMeta,
    TypeMetaView,
};
use crate::secrets::{borrowed_object, munge_secrets, scrubbed, SecretError};
use crate::text::{owned, text_eq};
use vstd::prelude::*;

verus! {

/// Why no plan could be made.
#[derive(Debug, Clone)]
pub enum PlanError {
    Secret(SecretError),
    Comparable(ComparableError),
    Diff(DiffError),
}

/// The mathematical value of a `PlanError`.
pub enum PlanErrorView {
    Secret(SecretError),
    Comparable(ComparableErrorView),
    Diff(DiffError),
}

impl View for PlanError {
    type V = PlanErrorView;

    open spec fn view(&self) -> PlanErrorView {
        match self {
            PlanError::Secret(e) => PlanErrorView::Secret(*e),
            PlanError::Comparable(e) => PlanErrorView::Comparable(e@),
            PlanError::Diff(e) => PlanErrorView::Diff(*e),
        }
    }
}

/// The objects from `at` on divided: what is no Namespace stays, in order,
/// after `kept`; each Namespace is put under its key in `namespaces`.
pub open spec fn divided_from(
    objects: Seq<(KeyView, DynamicObjectView)>,
    at: int,
    kept: Seq<(KeyView, DynamicObjectView)>,
    namespaces: Seq<(KeyView, DynamicObjectView)>,
) -> (Seq<(KeyView, DynamicObjectView)>, Seq<(KeyView, DynamicObjectView)>)
    decreases objects.len() - at,
{
    if at < 0 || at >= objects.len() {
        (kept, namespaces)
    } else if names_namespace(objects[at].0) {
        divided_from(
            objects,
            at + 1,
            kept,
            with_object(namespaces, objects[at].0, objects[at].1),
        )
    } else {
        divided_from(objects, at + 1, kept.push(objects[at]), namespaces)
    }
}

/// Holds the Namespace objects apart: each `v1` `Namespace` among the objects
/// by key is moved to the Namespace objects.
pub fn split_namespaces(resources: &mut KubernetesResources)
    ensures
        (final(resources)@.by_key, final(resources)@.namespaces) == divided_from(
            old(resources)@.by_key,
            0,
            Seq::empty(),
            old(resources)@.namespaces,
        ),
{
    let ghost all = resources_view(resources.by_key@);
    let ghost goal = divided_from(all, 0, Seq::empty(), resources_view(resources.namespaces@));
    let mut remaining: Vec<(KubernetesKey, DynamicObject)> = Vec::new();
    std::mem::swap(&mut remaining, &mut resources.by_key);
    let ghost mut at: int = 0;
    proof {
        assert(resources_view(resources.by_key@) =~= Seq::empty());
        assert(all.subrange(0, all.len() as int) =~= all);
    }
    while remaining.len() > 0
        invariant
            0 <= at <= all.len(),
            resources_view(remaining@) == all.subrange(at, all.len() as int),
            goal == divided_from(
                all,
                at,
                resources_view(resources.by_key@),
                resources_view(resources.namespaces@),
            ),
        decreases remaining@.len(),
    {
        let ghost rest = remaining@;
        let ghost kept = resources_view(resources.by_key@);
        proof {
            assert(resources_view(rest).len() == rest.len());
            assert(resources_view(rest)[0] == all[at]);
            lemma_resources_tail(rest);
            assert(all.subrange(at, all.len() as int).drop_first() =~= all.subrange(
                at + 1,
                all.len() as int,
            ));
        }
        let (key, object) = remaining.remove(0);
        if key.is_namespace() {
            put_object(&mut resources.namespaces, key, object);
        } else {
            let ghost one = (key@, object@);
            resources.by_key.push((key, object));
            proof {
                assert(resources_view(resources.by_key@) =~= kept.push(one));
            }
        }
        proof {
            at = at + 1;
        }
    }
}

/// The key of the Namespace object of a namespace in a cluster.
pub open spec fn namespace_key(namespace: Seq<char>, cluster: Seq<char>) -> KeyView {
    KeyView {
        name: namespace,
        kind: "Namespace"@,
        api_version: "v1"@,
        namespace: None,
        cluster,
    }
}

/// A Namespace object with nothing but its name.
pub open spec fn bare_namespace(namespace: Seq<char>) -> DynamicObjectView {
    DynamicObjectView {
        types: Some(TypeMetaView { api_version: "v1"@, kind: "Namespace"@ }),
        metadata: with_entry(Seq::empty(), "name"@, JsonView::String(namespace)),
        data: JsonView::Object(Seq::empty()),
    }
}

/// The Namespace objects with a bare one for the namespace of every object
/// from `at` on whose namespace has none yet in its cluster.
pub open spec fn synthesized_from(
    objects: Seq<(KeyView, DynamicObjectView)>,
    at: int,
    namespaces: Seq<(KeyView, DynamicObjectView)>,
) -> Seq<(KeyView, DynamicObjectView)>
    decreases objects.len() - at,
{
    if at < 0 || at >= objects.len() {
        namespaces
    } else {
        match objects[at].0.namespace {
            None => synthesized_from(objects, at + 1, namespaces),
            Some(namespace) => {
                let key = namespace_key(namespace, objects[at].0.cluster);
                if has_object(namespaces, key) {
                    synthesized_from(objects, at + 1, namespaces)
                } else {
                    synthesized_from(
                        objects,
                        at + 1,
                        with_object(namespaces, key, bare_namespace(namespace)),
                    )
                }
            },
        }
    }
}

/// Makes a Namespace object with nothing but its name.
fn make_namespace(namespace: &String) -> (r: DynamicObject)
    ensures
        r@ == bare_namespace(namespace@),
{
    let mut metadata = ObjectMeta::default();
    metadata.set_text("name", Some(namespace.clone()));
    let members: Vec<(String, Json)> = Vec::new();
    let data = Json::Object(members);
    proof {
        crate::json::lemma_view_children(data);
        assert(crate::json::members_view(members@) =~= Seq::empty());
    }
    DynamicObject {
        types: Some(TypeMeta { api_version: owned("v1"), kind: owned("Namespace") }),
        metadata,
        data,
    }
}

/// Synthesizes a bare Namespace object for every namespace that an object
/// refers to and that has no Namespace object in the object's cluster.
pub fn synthesize_namespaces(resources: &mut KubernetesResources)
    ensures
        final(resources)@.by_key == old(resources)@.by_key,
        final(resources)@.namespaces == synthesized_from(
            old(resources)@.by_key,
            0,
            old(resources)@.namespaces,
        ),
{
    let ghost all = resources_view(resources.by_key@);
    let ghost goal = synthesized_from(all, 0, resources_view(resources.namespaces@));
    let mut i: usize = 0;
    while i < resources.by_key.len()
        invariant
            0 <= i <= resources.by_key@.len(),
            resources.by_key@ == old(resources).by_key@,
            all == resources_view(resources.by_key@),
            goal == synthesized_from(all, i as int, resources_view(resources.namespaces@)),
        decreases resources.by_key@.len() - i,
    {
        proof {
            assert(all[i as int].0 == resources.by_key@[i as int].0@);
        }
        let found = match &resources.by_key[i].0.namespace {
            None => None,
            Some(namespace) => Some(
                (
                    KubernetesKey {
                        name: namespace.clone(),
                        kind: owned("Namespace"),
                        api_version: owned("v1"),
                        namespace: None,
                        cluster: resources.by_key[i].0.cluster.clone(),
                    },
                    make_namespace(namespace),
                ),
            ),
        };
        match found {
            None => {},
            Some((key, object)) => {
                if object_at(&resources.namespaces, &key).is_none() {
                    put_object(&mut resources.namespaces, key, object);
                }
            },
        }
        i += 1;
    }
}

/// The wanted object with what only the server knows taken from the stored
/// one: its resource version and its uid.
pub open spec fn versioned(to: DynamicObjectView, from: Option<DynamicObjectView>) -> DynamicObjectView {
    match from {
        None => to,
        Some(stored) => DynamicObjectView {
            types: to.types,
            metadata: with_text_member(
                with_text_member(
                    to.metadata,
                    "resourceVersion"@,
                    text_member(stored.metadata, "resourceVersion"@),
                ),
                "uid"@,
                text_member(stored.metadata, "uid"@),
            ),
            data: to.data,
        },
    }
}

/// Gives a wanted object the resource version and the uid of the stored one.
pub fn adopt_versions(to: &mut DynamicObject, from: Option<&DynamicObject>)
    ensures
        final(to)@ == versioned(old(to)@, borrowed_object(from)),
{
    match from {
        None => {},
        Some(stored) => {
            let version = stored.metadata.text("resourceVersion");
            to.metadata.set_text("resourceVersion", version);
            let uid = stored.metadata.text("uid");
            to.metadata.set_text("uid", uid);
        },
    }
}

/// The wanted objects from `at` on prepared, after `done`: each takes the
/// versions of the stored object of its key and is scrubbed against it.
pub open spec fn prepared_from(
    wanted: Seq<(KeyView, DynamicObjectView)>,
    at: int,
    stored: Seq<(KeyView, DynamicObjectView)>,
    done: Seq<(KeyView, DynamicObjectView)>,
) -> Result<Seq<(KeyView, DynamicObjectView)>, SecretError>
    decreases wanted.len() - at,
{
    if at < 0 || at >= wanted.len() {
        Ok(done)
    } else {
        let from = object_for(stored, wanted[at].0);
        match scrubbed(from, versioned(wanted[at].1, from)) {
            Err(e) => Err(e),
            Ok(object) => prepared_from(wanted, at + 1, stored, done.push((wanted[at].0, object))),
        }
    }
}

/// Prepares the wanted objects for comparison with the stored ones.
pub fn prepare_wanted(
    wanted: Vec<(KubernetesKey, DynamicObject)>,
    stored: &Vec<(KubernetesKey, DynamicObject)>,
) -> (r: Result<Vec<(KubernetesKey, DynamicObject)>, SecretError>)
    ensures
        match prepared_from(resources_view(wanted@), 0, resources_view(stored@), Seq::empty()) {
            Ok(prepared) => r matches Ok(made) && resources_view(made@) == prepared,
            Err(e) => r == Err::<Vec<(KubernetesKey, DynamicObject)>, SecretError>(e),
        },
{
    let ghost all = resources_view(wanted@);
    let mut remaining = wanted;
    let mut done: Vec<(KubernetesKey, DynamicObject)> = Vec::new();
    let ghost mut at: int = 0;
    proof {
        assert(resources_view(done@) =~= Seq::empty());
        assert(all.subrange(0, all.len() as int) =~= all);
    }
    while remaining.len() > 0
        invariant
            0 <= at <= all.len(),
            all == resources_view(wanted@),
            resources_view(remaining@) == all.subrange(at, all.len() as int),
            prepared_from(all, 0, resources_view(stored@), Seq::empty()) == prepared_from(
                all,
                at,
                resources_view(stored@),
                resources_view(done@),
            ),
        decreases remaining@.len(),
    {
        let ghost rest = remaining@;
        let ghost before = resources_view(done@);
        proof {
            assert(resources_view(rest).len() == rest.len());
            assert(resources_view(rest)[0] == all[at]);
            lemma_resources_tail(rest);
            assert(all.subrange(at, all.len() as int).drop_first() =~= all.subrange(
                at + 1,
                all.len() as int,
            ));
        }
        let (key, object) = remaining.remove(0);
        let mut object = object;
        let from = object_at(stored, &key);
        adopt_versions(&mut object, from);
        match munge_secrets(from, &mut object) {
            Err(e) => {
                return Err(e);
            },
            Ok(_) => {},
        }
        let ghost one = (key@, object@);
        done.push((key, object));
        proof {
            assert(resources_view(done@) =~= before.push(one));
            at = at + 1;
        }
    }
    Ok(done)
}

/// The entries from `at` on whose key the filter admits, in order, after `kept`.
pub open spec fn admitted_from(
    entries: Seq<(KeyView, DynamicObjectView)>,
    at: int,
    filter: PartialKeyView,
    kept: Seq<(KeyView, DynamicObjectView)>,
) -> Seq<(KeyView, DynamicObjectView)>
    decreases entries.len() - at,
{
    if at < 0 || at >= entries.len() {
        kept
    } else if filter_admits(entries[at].0, filter) {
        admitted_from(entries, at + 1, filter, kept.push(entries[at]))
    } else {
        admitted_from(entries, at + 1, filter, kept)
    }
}

/// The entries whose key the filter admits.
pub open spec fn admitted(entries: Seq<(KeyView, DynamicObjectView)>, filter: PartialKeyView) -> Seq<
    (KeyView, DynamicObjectView),
> {
    admitted_from(entries, 0, filter, Seq::empty())
}

/// Keeps the entries whose key the filter admits.
pub fn retain_matching(entries: Vec<(KubernetesKey, DynamicObject)>, filter: &PartialKey) -> (r:
    Vec<(KubernetesKey, DynamicObject)>)
    ensures
        resources_view(r@) == admitted(resources_view(entries@), filter@),
{
    let ghost all = resources_view(entries@);
    let mut remaining = entries;
    let mut kept: Vec<(KubernetesKey, DynamicObject)> = Vec::new();
    let ghost mut at: int = 0;
    proof {
        assert(resources_view(kept@) =~= Seq::empty());
        assert(all.subrange(0, all.len() as int) =~= all);
    }
    while remaining.len() > 0
        invariant
            0 <= at <= all.len(),
            resources_view(remaining@) == all.subrange(at, all.len() as int),
            admitted(all, filter@) == admitted_from(all, at, filter@, resources_view(kept@)),
        decreases remaining@.len(),
    {
        let ghost rest = remaining@;
        let ghost before = resources_view(kept@);
        proof {
            assert(resources_view(rest).len() == rest.len());
            assert(resources_view(rest)[0] == all[at]);
            lemma_resources_tail(rest);
            assert(all.subrange(at, all.len() as int).drop_first() =~= all.subrange(
                at + 1,
                all.len() as int,
            ));
        }
        let (key, object) = remaining.remove(0);
        if key_matches_filter(&key, filter) {
            let ghost one = (key@, object@);
            kept.push((key, object));
            proof {
                assert(resources_view(kept@) =~= before.push(one));
            }
        }
        proof {
            at = at + 1;
        }
    }
    kept
}

/// Both maps of a set of objects filtered.
pub open spec fn admitted_resources(resources: ResourcesView, filter: PartialKeyView) -> ResourcesView {
    ResourcesView {
        by_key: admitted(resources.by_key, filter),
        namespaces: admitted(resources.namespaces, filter),
    }
}

/// The plan of a `diff` or a `push`: the wanted objects that are no Namespace
/// are prepared against the stored ones; both sets are filtered; the wanted
/// objects are made comparable with the stored ones; and the two are diffed.
pub open spec fn diff_plan(
    filter: PartialKeyView,
    from_files: ResourcesView,
    from_database: ResourcesView,
) -> Result<PlanView, PlanErrorView> {
    match prepared_from(from_files.by_key, 0, from_database.by_key, Seq::empty()) {
        Err(e) => Err(PlanErrorView::Secret(e)),
        Ok(prepared) => {
            let wanted = admitted_resources(
                ResourcesView { by_key: prepared, namespaces: from_files.namespaces },
                filter,
            );
            let stored = admitted_resources(from_database, filter);
            match made_comparable(stored, wanted, Some("sisyphus"@)) {
                Err(e) => Err(PlanErrorView::Comparable(e)),
                Ok((live, comparable, _)) => match planned(live, comparable) {
                    Err(e) => Err(PlanErrorView::Diff(e)),
                    Ok(plan) => Ok(plan),
                },
            }
        },
    }
}

/// Computes the plan that takes the clusters from what the database holds to
/// what the files want, for the keys that the filter admits. Nothing is
/// written anywhere.
pub fn diff(filter: &PartialKey, from_files: KubernetesResources, from_database: KubernetesResources) -> (r:
    Result<Vec<(KubernetesKey, DiffAction)>, PlanError>)
    ensures
        match diff_plan(filter@, from_files@, from_database@) {
            Ok(plan) => r matches Ok(made) && plan_view(made@) == plan,
            Err(e) => r matches Err(error) && error@ == e,
        },
{
    let KubernetesResources { by_key, namespaces } = from_files;
    let prepared = match prepare_wanted(by_key, &from_database.by_key) {
        Err(e) => {
            return Err(PlanError::Secret(e));
        },
        Ok(prepared) => prepared,
    };
    let wanted = KubernetesResources {
        by_key: retain_matching(prepared, filter),
        namespaces: retain_matching(namespaces, filter),
    };
    let stored = KubernetesResources {
        by_key: retain_matching(from_database.by_key, filter),
        namespaces: retain_matching(from_database.namespaces, filter),
    };
    let (live, comparable, _) = match make_comparable(stored, wanted) {
        Err(e) => {
            return Err(PlanError::Comparable(e));
        },
        Ok(made) => made,
    };
    match generate_diff(live, comparable) {
        Err(e) => Err(PlanError::Diff(e)),
        Ok(plan) => Ok(plan),
    }
}

/// The live objects from `at` on scrubbed against the stored ones, after `done`.
pub open spec fn refreshed_from(
    live: Seq<(KeyView, DynamicObjectView)>,
    at: int,
    stored: Seq<(KeyView, DynamicObjectView)>,
    done: Seq<(KeyView, DynamicObjectView)>,
) -> Result<Seq<(KeyView, DynamicObjectView)>, SecretError>
    decreases live.len() - at,
{
    if at < 0 || at >= live.len() {
        Ok(done)
    } else {
        match scrubbed(object_for(stored, live[at].0), live[at].1) {
            Err(e) => Err(e),
            Ok(object) => refreshed_from(live, at + 1, stored, done.push((live[at].0, object))),
        }
    }
}

/// The plan of a `refresh`: the live objects are scrubbed against the stored
/// ones, and the database is diffed against them.
pub open spec fn refresh_plan(from_database: ResourcesView, from_kubernetes: ResourcesView) -> Result<
    PlanView,
    PlanErrorView,
> {
    match refreshed_from(from_kubernetes.by_key, 0, from_database.by_key, Seq::empty()) {
        Err(e) => Err(PlanErrorView::Secret(e)),
        Ok(scrubbed_objects) => match planned(
            from_database,
            ResourcesView { by_key: scrubbed_objects, namespaces: from_kubernetes.namespaces },
        ) {
            Err(e) => Err(PlanErrorView::Diff(e)),
            Ok(plan) => Ok(plan),
        },
    }
}

/// Computes the plan that brings the database to what the clusters show.
pub fn refresh(from_database: KubernetesResources, from_kubernetes: KubernetesResources) -> (r:
    Result<Vec<(KubernetesKey, DiffAction)>, PlanError>)
    ensures
        match refresh_plan(from_database@, from_kubernetes@) {
            Ok(plan) => r matches Ok(made) && plan_view(made@) == plan,
            Err(e) => r matches Err(error) && error@ == e,
        },
{
    let KubernetesResources { by_key, namespaces } = from_kubernetes;
    let ghost all = resources_view(by_key@);
    let mut remaining = by_key;
    let mut done: Vec<(KubernetesKey, DynamicObject)> = Vec::new();
    let ghost mut at: int = 0;
    proof {
        assert(resources_view(done@) =~= Seq::empty());
        assert(all.subrange(0, all.len() as int) =~= all);
    }
    while remaining.len() > 0
        invariant
            0 <= at <= all.len(),
            all == from_kubernetes@.by_key,
            resources_view(remaining@) == all.subrange(at, all.len() as int),
            refreshed_from(all, 0, from_database@.by_key, Seq::empty()) == refreshed_from(
                all,
                at,
                from_database@.by_key,
                resources_view(done@),
            ),
        decreases remaining@.len(),
    {
        let ghost rest = remaining@;
        let ghost before = resources_view(done@);
        proof {
            assert(resources_view(rest).len() == rest.len());
            assert(resources_view(rest)[0] == all[at]);
            lemma_resources_tail(rest);
            assert(all.subrange(at, all.len() as int).drop_first() =~= all.subrange(
                at + 1,
                all.len() as int,
            ));
        }
        let (key, object) = remaining.remove(0);
        let mut object = object;
        match munge_secrets(object_at(&from_database.by_key, &key), &mut object) {
            Err(e) => {
                return Err(PlanError::Secret(e));
            },
            Ok(_) => {},
        }
        let ghost one = (key@, object@);
        done.push((key, object));
        proof {
            assert(resources_view(done@) =~= before.push(one));
            at = at + 1;
        }
    }
    match generate_diff(from_database, KubernetesResources { by_key: done, namespaces }) {
        Err(e) => Err(PlanError::Diff(e)),
        Ok(plan) => Ok(plan),
    }
}

/// The key of a row of the database: an empty namespace stands for none.
pub open spec fn row_key(
    api_version: Seq<char>,
    cluster: Seq<char>,
    kind: Seq<char>,
    namespace: Seq<char>,
    name: Seq<char>,
) -> KeyView {
    KeyView {
        name,
        kind,
        api_version,
        namespace: if namespace.len() == 0 {
            None
        } else {
            Some(namespace)
        },
        cluster,
    }
}

/// Makes the key of a row of the database.
pub fn database_key(api_version: String, cluster: String, kind: String, namespace: String, name: String) -> (r:
    KubernetesKey)
    ensures
        r@ == row_key(api_version@, cluster@, kind@, namespace@, name@),
{
    let namespace = if text_eq(namespace.as_str(), "") {
        proof {
            assert(namespace@.len() == 0) by {
                reveal_strlit("");
            }
        }
        None
    } else {
        proof {
            assert(namespace@.len() != 0) by {
                reveal_strlit("");
                if namespace@.len() == 0 {
                    assert(namespace@ =~= ""@);
                }
            }
        }
        Some(namespace)
    };
    KubernetesKey { name, kind, api_version, namespace, cluster }
}

/// Holds an object of the database under its key: a Namespace among the
/// Namespace objects, anything else among the others.
pub fn insert_database_object(
    resources: &mut KubernetesResources,
    key: KubernetesKey,
    object: DynamicObject,
)
    ensures
        final(resources)@ == if names_namespace(key@) {
            ResourcesView {
                by_key: old(resources)@.by_key,
                namespaces: with_object(old(resources)@.namespaces, key@, object@),
            }
        } else {
            ResourcesView {
                by_key: with_object(old(resources)@.by_key, key@, object@),
                namespaces: old(resources)@.namespaces,
            }
        },
{
    if key.is_namespace() {
        put_object(&mut resources.namespaces, key, object);
    } else {
        put_object(&mut resources.by_key, key, object);
    }
}

/// An object as it is imported: scrubbed as a secret without an earlier
/// version.
pub open spec fn imported(object: DynamicObjectView) -> Result<DynamicObjectView, SecretError> {
    scrubbed(None, object)
}

/// An object as it is applied on import: without `managedFields`.
pub open spec fn adopted(object: DynamicObjectView) -> DynamicObjectView {
    DynamicObjectView {
        types: object.types,
        metadata: without_key(object.metadata, "managedFields"@),
        data: object.data,
    }
}

/// Prepares an object that was read from a cluster for import.
pub fn import(object: &mut DynamicObject) -> (r: Result<(), SecretError>)
    ensures
        match imported(old(object)@) {
            Ok(scrubbed_object) => r is Ok && final(object)@ == adopted(scrubbed_object),
            Err(e) => r == Err::<(), SecretError>(e) && final(object)@ == old(object)@,
        },
{
    match munge_secrets(None, object) {
        Err(e) => Err(e),
        Ok(_) => {
            object.metadata.clear("managedFields");
            Ok(())
        },
    }
}

/// Keeping what a filter admits is filtering: the entries that are kept are
/// the entries whose key the filter admits, in their order.
pub proof fn lemma_admitted_is_filter(
    entries: Seq<(KeyView, DynamicObjectView)>,
    filter: PartialKeyView,
    at: int,
)
    requires
        0 <= at <= entries.len(),
    ensures
        admitted_from(
            entries,
            at,
            filter,
            entries.subrange(0, at).filter(
                |entry: (KeyView, DynamicObjectView)| filter_admits(entry.0, filter),
            ),
        ) == entries.filter(|entry: (KeyView, DynamicObjectView)| filter_admits(entry.0, filter)),
    decreases entries.len() - at,
{
    let admits = |entry: (KeyView, DynamicObjectView)| filter_admits(entry.0, filter);
    if at < entries.len() {
        let longer = entries.subrange(0, at + 1);
        assert(longer.drop_last() =~= entries.subrange(0, at));
        assert(longer.last() == entries[at]);
        assert(longer.filter(admits) == if admits(entries[at]) {
            entries.subrange(0, at).filter(admits).push(entries[at])
        } else {
            entries.subrange(0, at).filter(admits)
        }) by {
            reveal(Seq::filter);
        }
        lemma_admitted_is_filter(entries, filter, at + 1);
    } else {
        assert(entries.subrange(0, at) =~= entries);
    }
}

/// What is kept of a map under a filter is the map filtered by the filter.
pub proof fn lemma_admitted(entries: Seq<(KeyView, DynamicObjectView)>, filter: PartialKeyView)
    ensures
        admitted(entries, filter) == entries.filter(
            |entry: (KeyView, DynamicObjectView)| filter_admits(entry.0, filter),
        ),
{
    let admits = |entry: (KeyView, DynamicObjectView)| filter_admits(entry.0, filter);
    lemma_admitted_is_filter(entries, filter, 0);
    assert(entries.subrange(0, 0).filter(admits) =~= Seq::empty()) by {
        reveal(Seq::filter);
    }
}

} // verus!
