//! The diff engine: what has to be done to each object so that the clusters
//! hold what is wanted.
use crate::assoc::without_key;
use crate::codec::{diff_documents, patch_between};
use crate::json::{Json, JsonView};
use crate::key::{names_namespace, KeyView, KubernetesKey};
use crate::keymap::{
    index_of as place_of, lemma_index_of as lemma_place_of, value_of as object_for,
    without_key as without_object,
};
use crate::resources::{
    document_of, optional_object, resources_view, take_object, DynamicObject, DynamicObjectView,
    KubernetesResources, ResourcesView, TypeMeta, TypeMetaView,
};
use crate::text::{has_prefix, owned, starts_with, text_eq};
use vstd::prelude::*;

verus! {

/// One operation of a JSON Patch.
#[derive(Debug, Clone)]
pub enum PatchOp {
    Add { path: String, value: Json },
    Remove { path: String },
    Replace { path: String, value: Json },
    Move { from: String, path: String },
    Copy { from: String, path: String },
    Test { path: String, value: Json },
}

/// The mathematical value of a patch operation.
pub enum PatchOpView {
    Add { path: Seq<char>, value: JsonView },
    Remove { path: Seq<char> },
    Replace { path: Seq<char>, value: JsonView },
    Move { from: Seq<char>, path: Seq<char> },
    Copy { from: Seq<char>, path: Seq<char> },
    Test { path: Seq<char>, value: JsonView },
}

impl View for PatchOp {
    type V = PatchOpView;

    open spec fn view(&self) -> PatchOpView {
        match self {
            PatchOp::Add { path, value } => PatchOpView::Add { path: path@, value: value@ },
            PatchOp::Remove { path } => PatchOpView::Remove { path: path@ },
            PatchOp::Replace { path, value } => PatchOpView::Replace {
                path: path@,
                value: value@,
            },
            PatchOp::Move { from, path } => PatchOpView::Move { from: from@, path: path@ },
            PatchOp::Copy { from, path } => PatchOpView::Copy { from: from@, path: path@ },
            PatchOp::Test { path, value } => PatchOpView::Test { path: path@, value: value@ },
        }
    }
}

/// The views of a vector of patch operations.
pub open spec fn ops_view(ops: Seq<PatchOp>) -> Seq<PatchOpView> {
    Seq::new(ops.len(), |i: int| ops[i]@)
}

/// What is to be done to one object.
#[derive(Debug, Clone)]
pub enum DiffAction {
    Delete,
    Create(DynamicObject),
    Recreate(DynamicObject),
    Patch { after: DynamicObject, patch: Vec<PatchOp> },
}

/// The mathematical value of a `DiffAction`.
pub enum DiffActionView {
    Delete,
    Create(DynamicObjectView),
    Recreate(DynamicObjectView),
    Patch { after: DynamicObjectView, patch: Seq<PatchOpView> },
}

impl View for DiffAction {
    type V = DiffActionView;

    open spec fn view(&self) -> DiffActionView {
        match self {
            DiffAction::Delete => DiffActionView::Delete,
            DiffAction::Create(object) => DiffActionView::Create(object@),
            DiffAction::Recreate(object) => DiffActionView::Recreate(object@),
            DiffAction::Patch { after, patch } => DiffActionView::Patch {
                after: after@,
                patch: ops_view(patch@),
            },
        }
    }
}

/// Why no action could be decided.
#[derive(Debug, PartialEq, Eq, Structural, Clone, Copy)]
pub enum DiffError {
    /// Neither a live nor a wanted object was given.
    NoDifference,
    /// The wanted object has no type header.
    MissingTypes,
    /// A document holds a number that cannot be read.
    InvalidDocument,
}

impl DiffError {
    /// The error as a sentence.
    pub fn message(&self) -> (r: String)
        ensures
            r@ == match self {
                DiffError::NoDifference => "Expected a difference"@,
                DiffError::MissingTypes => "Expected types"@,
                DiffError::InvalidDocument => "Expected numbers that can be read"@,
            },
    {
        match self {
            DiffError::NoDifference => owned("Expected a difference"),
            DiffError::MissingTypes => owned("Expected types"),
            DiffError::InvalidDocument => owned("Expected numbers that can be read"),
        }
    }
}

/// The path prefix below which a change cannot be patched, for the kinds that
/// have one: the selector of an `apps/v1` `Deployment`, the template of a
/// `batch/v1` `Job`.
pub open spec fn recreate_prefix(types: TypeMetaView) -> Option<Seq<char>> {
    if types.api_version == "apps/v1"@ && types.kind == "Deployment"@ {
        Some("/spec/selector/"@)
    } else if types.api_version == "batch/v1"@ && types.kind == "Job"@ {
        Some("/spec/template/"@)
    } else {
        None
    }
}

/// The operation adds, removes or replaces at a path that starts with the prefix.
pub open spec fn touches(op: PatchOpView, prefix: Seq<char>) -> bool {
    match op {
        PatchOpView::Add { path, .. } => has_prefix(path, prefix),
        PatchOpView::Remove { path } => has_prefix(path, prefix),
        PatchOpView::Replace { path, .. } => has_prefix(path, prefix),
        _ => false,
    }
}

/// The patch cannot be applied to an object of this type: the type has a
/// prefix that cannot be patched, and some operation touches it.
pub open spec fn recreates(types: TypeMetaView, patch: Seq<PatchOpView>) -> bool {
    recreate_prefix(types) matches Some(prefix) && exists|i: int|
        0 <= i < patch.len() && touches(#[trigger] patch[i], prefix)
}

/// The prefix below which objects of this type cannot be patched.
fn prefix_for(types: &TypeMeta) -> (r: Option<String>)
    ensures
        crate::key::optional_text(r) == recreate_prefix(types@),
{
    if text_eq(types.api_version.as_str(), "apps/v1") && text_eq(types.kind.as_str(), "Deployment") {
        Some(owned("/spec/selector/"))
    } else if text_eq(types.api_version.as_str(), "batch/v1") && text_eq(
        types.kind.as_str(),
        "Job",
    ) {
        Some(owned("/spec/template/"))
    } else {
        None
    }
}

/// Whether an object of this type has to be deleted and created again for the
/// patch to take effect.
pub fn requires_recreate(types: &TypeMeta, patch: &Vec<PatchOp>) -> (r: bool)
    ensures
        r == recreates(types@, ops_view(patch@)),
{
    match prefix_for(types) {
        None => false,
        Some(prefix) => {
            let ghost ops = ops_view(patch@);
            let mut i: usize = 0;
            while i < patch.len()
                invariant
                    0 <= i <= patch@.len(),
                    ops == ops_view(patch@),
                    recreate_prefix(types@) == Some(prefix@),
                    forall|j: int| 0 <= j < i ==> !touches(#[trigger] ops[j], prefix@),
                decreases patch@.len() - i,
            {
                let hit = match &patch[i] {
                    PatchOp::Add { path, .. } => starts_with(path.as_str(), prefix.as_str()),
                    PatchOp::Remove { path } => starts_with(path.as_str(), prefix.as_str()),
                    PatchOp::Replace { path, .. } => starts_with(path.as_str(), prefix.as_str()),
                    _ => false,
                };
                proof {
                    assert(ops[i as int] == patch@[i as int]@);
                }
                if hit {
                    proof {
                        assert(touches(ops[i as int], prefix@));
                    }
                    return true;
                }
                i += 1;
            }
            false
        },
    }
}

/// The object as it is created again: without the resource version and the
/// uid that the server gave the old one.
pub open spec fn unversioned(object: DynamicObjectView) -> DynamicObjectView {
    DynamicObjectView {
        types: object.types,
        metadata: without_key(without_key(object.metadata, "resourceVersion"@), "uid"@),
        data: object.data,
    }
}

/// The action for a wanted object that differs from the live one by `patch`.
pub open spec fn decided(want: DynamicObjectView, patch: Seq<PatchOpView>) -> Result<
    DiffActionView,
    DiffError,
> {
    match want.types {
        None => Err(DiffError::MissingTypes),
        Some(types) => if recreates(types, patch) {
            Ok(DiffActionView::Recreate(unversioned(want)))
        } else {
            Ok(DiffActionView::Patch { after: want, patch })
        },
    }
}

/// The action for one key: create what is only wanted, delete what is only
/// live, and patch or recreate what is both.
pub open spec fn single_diff(
    have: Option<DynamicObjectView>,
    want: Option<DynamicObjectView>,
) -> Result<DiffActionView, DiffError> {
    match (have, want) {
        (Some(h), Some(w)) => match patch_between(document_of(h), document_of(w)) {
            None => Err(DiffError::InvalidDocument),
            Some(patch) => decided(w, patch),
        },
        (Some(_), None) => Ok(DiffActionView::Delete),
        (None, Some(w)) => Ok(DiffActionView::Create(w)),
        (None, None) => Err(DiffError::NoDifference),
    }
}

/// What the caller gets is what the spec function gives.
pub open spec fn action_is(r: Result<DiffAction, DiffError>, expected: Result<
    DiffActionView,
    DiffError,
>) -> bool {
    match expected {
        Ok(action) => r matches Ok(made) && made@ == action,
        Err(e) => r == Err::<DiffAction, DiffError>(e),
    }
}

/// Decides between a patch and a recreation for a wanted object that differs
/// from the live one by `patch`.
pub fn decide_action(want: DynamicObject, patch: Vec<PatchOp>) -> (r: Result<
    DiffAction,
    DiffError,
>)
    ensures
        action_is(r, decided(want@, ops_view(patch@))),
{
    let recreate = match &want.types {
        None => {
            return Err(DiffError::MissingTypes);
        },
        Some(types) => requires_recreate(types, &patch),
    };
    if recreate {
        let mut object = want;
        object.metadata.clear("resourceVersion");
        object.metadata.clear("uid");
        Ok(DiffAction::Recreate(object))
    } else {
        Ok(DiffAction::Patch { after: want, patch })
    }
}

/// Computes the action for one key.
pub fn generate_single_diff(have: Option<DynamicObject>, want: Option<DynamicObject>) -> (r:
    Result<DiffAction, DiffError>)
    ensures
        action_is(
            r,
            single_diff(optional_object(have), optional_object(want)),
        ),
{
    match (have, want) {
        (Some(h), Some(w)) => {
            match diff_documents(&h.to_document(), &w.to_document()) {
                None => Err(DiffError::InvalidDocument),
                Some(patch) => decide_action(w, patch),
            }
        },
        (Some(_), None) => Ok(DiffAction::Delete),
        (None, Some(w)) => Ok(DiffAction::Create(w)),
        (None, None) => Err(DiffError::NoDifference),
    }
}

impl DiffAction {
    /// The verb that tells the operator what will be done.
    pub fn verb(&self) -> (r: String)
        ensures
            r@ == match self@ {
                DiffActionView::Create(_) => "create"@,
                DiffActionView::Delete => "delete"@,
                DiffActionView::Patch { .. } => "patch"@,
                DiffActionView::Recreate(_) => "delete and recreate"@,
            },
    {
        match self {
            DiffAction::Create(_) => owned("create"),
            DiffAction::Delete => owned("delete"),
            DiffAction::Patch { .. } => owned("patch"),
            DiffAction::Recreate(_) => owned("delete and recreate"),
        }
    }
}

/// A plan: the keys that need an action, each with its action, in the order
/// in which the actions are carried out.
pub type PlanView = Seq<(KeyView, DiffActionView)>;

/// The views of the entries of a plan.
pub open spec fn plan_view(plan: Seq<(KubernetesKey, DiffAction)>) -> PlanView {
    Seq::new(plan.len(), |i: int| (plan[i].0@, plan[i].1@))
}

/// The actions for the wanted objects from `at` on, in order: none for an
/// object that equals the live one of its key, else what `single_diff` gives.
/// Each key is taken out of `have` as it is met. The first error ends it.
pub open spec fn changes(
    want: Seq<(KeyView, DynamicObjectView)>,
    have: Seq<(KeyView, DynamicObjectView)>,
    at: int,
) -> Result<PlanView, DiffError>
    decreases want.len() - at,
{
    if at < 0 || at >= want.len() {
        Ok(Seq::empty())
    } else {
        let key = want[at].0;
        let live = object_for(have, key);
        let rest = changes(want, without_object(have, key), at + 1);
        if live == Some(want[at].1) {
            rest
        } else {
            match single_diff(live, Some(want[at].1)) {
                Err(e) => Err(e),
                Ok(action) => match rest {
                    Err(e) => Err(e),
                    Ok(tail) => Ok(seq![(key, action)] + tail),
                },
            }
        }
    }
}

/// What is left of `have` when the keys of the wanted objects from `at` on
/// are taken out.
pub open spec fn leftover(
    want: Seq<(KeyView, DynamicObjectView)>,
    have: Seq<(KeyView, DynamicObjectView)>,
    at: int,
) -> Seq<(KeyView, DynamicObjectView)>
    decreases want.len() - at,
{
    if at < 0 || at >= want.len() {
        have
    } else {
        leftover(want, without_object(have, want[at].0), at + 1)
    }
}

/// Some entry has this key.
pub open spec fn listed<A>(entries: Seq<(KeyView, A)>, key: KeyView) -> bool {
    exists|i: int| 0 <= i < entries.len() && (#[trigger] entries[i]).0 == key
}

/// A deletion for each live object from `at` on whose key the plan does not
/// list yet.
pub open spec fn deletions(have: Seq<(KeyView, DynamicObjectView)>, changed: PlanView, at: int) -> PlanView
    decreases have.len() - at,
{
    if at < 0 || at >= have.len() {
        Seq::empty()
    } else if listed(changed, have[at].0) {
        deletions(have, changed, at + 1)
    } else {
        seq![(have[at].0, DiffActionView::Delete)] + deletions(have, changed, at + 1)
    }
}

/// The plan that takes the clusters from `have` to `want`: the actions for the
/// wanted Namespace objects, then those for the other wanted objects, then
/// the deletions of the other live objects that are not wanted, and last the
/// deletions of the live Namespace objects that are not wanted.
pub open spec fn planned(have: ResourcesView, want: ResourcesView) -> Result<PlanView, DiffError> {
    match changes(want.namespaces, have.namespaces, 0) {
        Err(e) => Err(e),
        Ok(first) => match changes(want.by_key, have.by_key, 0) {
            Err(e) => Err(e),
            Ok(second) => Ok(
                first + second + deletions(
                    leftover(want.by_key, have.by_key, 0),
                    first + second,
                    0,
                ) + deletions(leftover(want.namespaces, have.namespaces, 0), first + second, 0),
            ),
        },
    }
}

/// Whether one of the first `upto` entries of the plan has this key.
fn lists_key(plan: &Vec<(KubernetesKey, DiffAction)>, upto: usize, key: &KubernetesKey) -> (r: bool)
    requires
        upto <= plan@.len(),
    ensures
        r == listed(plan_view(plan@).subrange(0, upto as int), key@),
{
    let ghost head = plan_view(plan@).subrange(0, upto as int);
    let mut i: usize = 0;
    while i < upto
        invariant
            0 <= i <= upto <= plan@.len(),
            head == plan_view(plan@).subrange(0, upto as int),
            forall|j: int| 0 <= j < i ==> (#[trigger] head[j]).0 != key@,
        decreases upto - i,
    {
        proof {
            assert(head[i as int].0 == plan@[i as int].0@);
        }
        if plan[i].0.same(key) {
            return true;
        }
        i += 1;
    }
    false
}

/// Puts at the end of `plan` the actions for the wanted objects, and takes
/// the keys of the wanted objects out of `have`.
fn collect_changes(
    want: &Vec<(KubernetesKey, DynamicObject)>,
    have: &mut Vec<(KubernetesKey, DynamicObject)>,
    plan: &mut Vec<(KubernetesKey, DiffAction)>,
) -> (r: Result<(), DiffError>)
    ensures
        match changes(resources_view(want@), resources_view(old(have)@), 0) {
            Ok(added) => {
                &&& r is Ok
                &&& plan_view(final(plan)@) == plan_view(old(plan)@) + added
                &&& resources_view(final(have)@) == leftover(
                    resources_view(want@),
                    resources_view(old(have)@),
                    0,
                )
            },
            Err(e) => r == Err::<(), DiffError>(e),
        },
{
    let ghost wanted = resources_view(want@);
    let ghost goal = changes(wanted, resources_view(have@), 0);
    let ghost left = leftover(wanted, resources_view(have@), 0);
    let ghost start = plan_view(plan@);
    let ghost added: PlanView = Seq::empty();
    let mut i: usize = 0;
    proof {
        assert(start + added =~= start);
    }
    while i < want.len()
        invariant
            0 <= i <= want@.len(),
            wanted == resources_view(want@),
            goal == changes(wanted, resources_view(old(have)@), 0),
            plan_view(plan@) == start + added,
            start == plan_view(old(plan)@),
            left == leftover(wanted, resources_view(have@), i as int),
            left == leftover(wanted, resources_view(old(have)@), 0),
            goal == match changes(wanted, resources_view(have@), i as int) {
                Ok(rest) => Ok::<PlanView, DiffError>(added + rest),
                Err(e) => Err(e),
            },
        decreases want@.len() - i,
    {
        let key = &want[i].0;
        proof {
            assert(wanted[i as int].0 == key@);
            assert(wanted[i as int].1 == want@[i as int].1@);
        }
        let ghost have_before = resources_view(have@);
        let live = take_object(have, key);
        let unchanged = match &live {
            Some(object) => object.equals(&want[i].1),
            None => false,
        };
        if !unchanged {
            match generate_single_diff(live, Some(want[i].1.duplicate())) {
                Err(e) => {
                    return Err(e);
                },
                Ok(action) => {
                    let ghost entry = (key@, action@);
                    let ghost before = plan_view(plan@);
                    plan.push((key.duplicate(), action));
                    proof {
                        assert(plan_view(plan@) =~= before.push(entry));
                        assert(before.push(entry) =~= start + (added + seq![entry]));
                        match changes(wanted, resources_view(have@), i as int + 1) {
                            Ok(rest) => {
                                assert(added + (seq![entry] + rest) =~= (added + seq![entry])
                                    + rest);
                            },
                            Err(_) => {},
                        }
                        added = added + seq![entry];
                    }
                },
            }
        }
        i += 1;
    }
    proof {
        assert(added + Seq::<(KeyView, DiffActionView)>::empty() =~= added);
    }
    Ok(())
}

/// Puts at the end of `plan` a deletion for each object of `have` whose key
/// is not among the first `changed` entries of the plan.
fn collect_deletions(
    have: &Vec<(KubernetesKey, DynamicObject)>,
    changed: usize,
    plan: &mut Vec<(KubernetesKey, DiffAction)>,
)
    requires
        changed <= old(plan)@.len(),
    ensures
        plan_view(final(plan)@) == plan_view(old(plan)@) + deletions(
            resources_view(have@),
            plan_view(old(plan)@).subrange(0, changed as int),
            0,
        ),
{
    let ghost live = resources_view(have@);
    let ghost head = plan_view(plan@).subrange(0, changed as int);
    let ghost start = plan_view(plan@);
    let ghost added: PlanView = Seq::empty();
    let mut i: usize = 0;
    proof {
        assert(start + added =~= start);
    }
    while i < have.len()
        invariant
            0 <= i <= have@.len(),
            changed <= plan@.len(),
            live == resources_view(have@),
            start == plan_view(old(plan)@),
            head == start.subrange(0, changed as int),
            head == plan_view(plan@).subrange(0, changed as int),
            plan_view(plan@) == start + added,
            deletions(live, head, 0) == added + deletions(live, head, i as int),
        decreases have@.len() - i,
    {
        proof {
            assert(live[i as int].0 == have@[i as int].0@);
        }
        if !lists_key(plan, changed, &have[i].0) {
            let ghost entry = (have@[i as int].0@, DiffActionView::Delete);
            let ghost before = plan_view(plan@);
            plan.push((have[i].0.duplicate(), DiffAction::Delete));
            proof {
                assert(plan_view(plan@) =~= before.push(entry));
                assert(before.push(entry) =~= start + (added + seq![entry]));
                assert(added + (seq![entry] + deletions(live, head, i as int + 1)) =~= (added
                    + seq![entry]) + deletions(live, head, i as int + 1));
                assert(plan_view(plan@).subrange(0, changed as int) =~= head);
                added = added + seq![entry];
            }
        }
        i += 1;
    }
    proof {
        assert(added + Seq::<(KeyView, DiffActionView)>::empty() =~= added);
    }
}

/// Computes the plan that takes the clusters from `have` to `want`.
pub fn generate_diff(have: KubernetesResources, want: KubernetesResources) -> (r: Result<
    Vec<(KubernetesKey, DiffAction)>,
    DiffError,
>)
    ensures
        match planned(have@, want@) {
            Ok(plan) => r matches Ok(made) && plan_view(made@) == plan,
            Err(e) => r == Err::<Vec<(KubernetesKey, DiffAction)>, DiffError>(e),
        },
{
    let mut have = have;
    let mut plan: Vec<(KubernetesKey, DiffAction)> = Vec::new();
    proof {
        assert(plan_view(plan@) =~= Seq::empty());
    }
    match collect_changes(&want.namespaces, &mut have.namespaces, &mut plan) {
        Err(e) => {
            return Err(e);
        },
        Ok(_) => {},
    }
    let ghost first = plan_view(plan@);
    match collect_changes(&want.by_key, &mut have.by_key, &mut plan) {
        Err(e) => {
            return Err(e);
        },
        Ok(_) => {},
    }
    let ghost both = plan_view(plan@);
    let changed = plan.len();
    proof {
        assert(both.subrange(0, changed as int) =~= both);
    }
    collect_deletions(&have.by_key, changed, &mut plan);
    proof {
        assert(plan_view(plan@).subrange(0, changed as int) =~= both);
    }
    collect_deletions(&have.namespaces, changed, &mut plan);
    Ok(plan)
}

/// An object of a type that cannot be patched below some prefix is recreated
/// whenever an operation of the patch adds, removes or replaces below that
/// prefix: below `/spec/selector/` for an `apps/v1` `Deployment`, below
/// `/spec/template/` for a `batch/v1` `Job`.
pub proof fn lemma_recreate_triggers(want: DynamicObjectView, patch: Seq<PatchOpView>, i: int)
    requires
        0 <= i < patch.len(),
        want.types matches Some(t) && ({
            ||| t.api_version == "apps/v1"@ && t.kind == "Deployment"@ && touches(
                patch[i],
                "/spec/selector/"@,
            )
            ||| t.api_version == "batch/v1"@ && t.kind == "Job"@ && touches(
                patch[i],
                "/spec/template/"@,
            )
        }),
    ensures
        decided(want, patch) == Ok::<DiffActionView, DiffError>(
            DiffActionView::Recreate(unversioned(want)),
        ),
{
    reveal_strlit("apps/v1");
    reveal_strlit("batch/v1");
    let t = want.types->Some_0;
    if t.api_version == "batch/v1"@ {
        assert("batch/v1"@[0] != "apps/v1"@[0]);
    }
    assert(touches(patch[i], recreate_prefix(t)->Some_0));
}

/// A set of objects compared with itself needs no action: each wanted object
/// equals the live one of its key.
pub proof fn lemma_same_objects_change_nothing(objects: Seq<(KeyView, DynamicObjectView)>, at: int)
    requires
        0 <= at <= objects.len(),
    ensures
        changes(objects, objects.subrange(at, objects.len() as int), at) == Ok::<
            PlanView,
            DiffError,
        >(Seq::empty()),
        leftover(objects, objects.subrange(at, objects.len() as int), at) == Seq::<
            (KeyView, DynamicObjectView),
        >::empty(),
    decreases objects.len() - at,
{
    let live = objects.subrange(at, objects.len() as int);
    if at < objects.len() {
        let key = objects[at].0;
        assert(live[0] == objects[at]);
        assert(place_of(live, key) == 0);
        assert(without_object(live, key) =~= objects.subrange(at + 1, objects.len() as int));
        lemma_same_objects_change_nothing(objects, at + 1);
    } else {
        assert(live =~= Seq::empty());
    }
}

/// The plan from a set of objects to itself is empty.
pub proof fn lemma_diff_of_equal_is_empty(objects: ResourcesView)
    ensures
        planned(objects, objects) == Ok::<PlanView, DiffError>(Seq::empty()),
{
    lemma_same_objects_change_nothing(objects.namespaces, 0);
    lemma_same_objects_change_nothing(objects.by_key, 0);
    assert(objects.namespaces.subrange(0, objects.namespaces.len() as int)
        =~= objects.namespaces);
    assert(objects.by_key.subrange(0, objects.by_key.len() as int) =~= objects.by_key);
    let none = Seq::<(KeyView, DiffActionView)>::empty();
    assert(none + none =~= none);
    assert(deletions(Seq::<(KeyView, DynamicObjectView)>::empty(), none, 0) =~= none);
}

/// Every key of the entries is the key of some entry of `among`.
pub open spec fn keys_among<A, B>(entries: Seq<(KeyView, A)>, among: Seq<(KeyView, B)>) -> bool {
    forall|i: int| 0 <= i < entries.len() ==> listed(among, (#[trigger] entries[i]).0)
}

/// No entry of the plan is a deletion.
pub open spec fn no_deletions(plan: PlanView) -> bool {
    forall|i: int| 0 <= i < plan.len() ==> !((#[trigger] plan[i]).1 is Delete)
}

/// Every entry of the plan is a deletion.
pub open spec fn only_deletions(plan: PlanView) -> bool {
    forall|i: int| 0 <= i < plan.len() ==> (#[trigger] plan[i]).1 is Delete
}

/// The actions for wanted objects hold no deletion, and their keys are keys
/// of wanted objects.
pub proof fn lemma_changes_shape(
    want: Seq<(KeyView, DynamicObjectView)>,
    have: Seq<(KeyView, DynamicObjectView)>,
    at: int,
)
    requires
        0 <= at,
    ensures
        changes(want, have, at) matches Ok(plan) ==> no_deletions(plan) && keys_among(plan, want),
    decreases want.len() - at,
{
    if at < want.len() {
        let key = want[at].0;
        lemma_changes_shape(want, without_object(have, key), at + 1);
        match changes(want, have, at) {
            Ok(plan) => {
                let rest = changes(want, without_object(have, key), at + 1)->Ok_0;
                if object_for(have, key) != Some(want[at].1) {
                    assert forall|i: int| 0 <= i < plan.len() implies !((#[trigger] plan[i]).1
                        is Delete) && listed(want, plan[i].0) by {
                        if i == 0 {
                            assert(want[at].0 == plan[0].0);
                        } else {
                            assert(plan[i] == rest[i - 1]);
                        }
                    }
                }
            },
            Err(_) => {},
        }
    }
}

/// What is left of the live objects are live objects.
pub proof fn lemma_leftover_among(
    want: Seq<(KeyView, DynamicObjectView)>,
    have: Seq<(KeyView, DynamicObjectView)>,
    at: int,
)
    requires
        0 <= at,
    ensures
        keys_among(leftover(want, have, at), have),
    decreases want.len() - at,
{
    if at < want.len() {
        let key = want[at].0;
        let fewer = without_object(have, key);
        lemma_leftover_among(want, fewer, at + 1);
        lemma_place_of(have, key);
        let left = leftover(want, have, at);
        assert forall|i: int| 0 <= i < left.len() implies listed(have, (#[trigger] left[i]).0) by {
            assert(listed(fewer, left[i].0));
            let k = choose|k: int| 0 <= k < fewer.len() && (#[trigger] fewer[k]).0 == left[i].0;
            let p = place_of(have, key);
            if p < have.len() && k >= p {
                assert(have[k + 1].0 == left[i].0);
            } else {
                assert(have[k].0 == left[i].0);
            }
        }
    } else {
        assert forall|i: int| 0 <= i < have.len() implies listed(have, (#[trigger] have[i]).0) by {
            assert(have[i].0 == have[i].0);
        }
    }
}

/// The deletions are deletions, and their keys are keys of live objects.
pub proof fn lemma_deletions_shape(
    have: Seq<(KeyView, DynamicObjectView)>,
    changed: PlanView,
    at: int,
)
    requires
        0 <= at,
    ensures
        only_deletions(deletions(have, changed, at)),
        keys_among(deletions(have, changed, at), have),
    decreases have.len() - at,
{
    if at < have.len() {
        lemma_deletions_shape(have, changed, at + 1);
        let all = deletions(have, changed, at);
        let rest = deletions(have, changed, at + 1);
        if !listed(changed, have[at].0) {
            assert forall|i: int| 0 <= i < all.len() implies (#[trigger] all[i]).1 is Delete
                && listed(have, all[i].0) by {
                if i == 0 {
                    assert(have[at].0 == all[0].0);
                } else {
                    assert(all[i] == rest[i - 1]);
                }
            }
        }
    }
}

/// Namespace objects, and nothing else, are held apart: the keys of
/// `namespaces` name Namespace objects and the keys of `by_key` do not.
pub open spec fn namespaces_apart(objects: ResourcesView) -> bool {
    &&& forall|i: int|
        0 <= i < objects.namespaces.len() ==> names_namespace((#[trigger] objects.namespaces[i]).0)
    &&& forall|i: int|
        0 <= i < objects.by_key.len() ==> !names_namespace((#[trigger] objects.by_key[i]).0)
}

/// In a plan, what is done to a wanted Namespace object comes before what is
/// done to any other wanted object, and the deletion of a Namespace object
/// comes after the deletion of any other object.
pub proof fn lemma_namespace_order(have: ResourcesView, want: ResourcesView, i: int, j: int)
    requires
        namespaces_apart(have),
        namespaces_apart(want),
        planned(have, want) matches Ok(plan) && 0 <= i < plan.len() && 0 <= j < plan.len(),
    ensures
        ({
            let plan = planned(have, want)->Ok_0;
            &&& !(plan[i].1 is Delete) && names_namespace(plan[i].0) && !(plan[j].1 is Delete)
                && !names_namespace(plan[j].0) ==> i < j
            &&& plan[i].1 is Delete && !names_namespace(plan[i].0) && plan[j].1 is Delete
                && names_namespace(plan[j].0) ==> i < j
        }),
{
    let first = changes(want.namespaces, have.namespaces, 0)->Ok_0;
    let second = changes(want.by_key, have.by_key, 0)->Ok_0;
    let left_objects = leftover(want.by_key, have.by_key, 0);
    let left_namespaces = leftover(want.namespaces, have.namespaces, 0);
    let third = deletions(left_objects, first + second, 0);
    let fourth = deletions(left_namespaces, first + second, 0);
    let plan = planned(have, want)->Ok_0;
    assert(plan == first + second + third + fourth);
    lemma_changes_shape(want.namespaces, have.namespaces, 0);
    lemma_changes_shape(want.by_key, have.by_key, 0);
    lemma_leftover_among(want.by_key, have.by_key, 0);
    lemma_leftover_among(want.namespaces, have.namespaces, 0);
    lemma_deletions_shape(left_objects, first + second, 0);
    lemma_deletions_shape(left_namespaces, first + second, 0);
    let a = first.len() as int;
    let b = a + second.len();
    let c = b + third.len();
    assert forall|x: int| 0 <= x < plan.len() implies {
        &&& x < a ==> !((#[trigger] plan[x]).1 is Delete) && names_namespace(plan[x].0)
        &&& a <= x < b ==> !(plan[x].1 is Delete) && !names_namespace(plan[x].0)
        &&& b <= x < c ==> plan[x].1 is Delete && !names_namespace(plan[x].0)
        &&& c <= x ==> plan[x].1 is Delete && names_namespace(plan[x].0)
    } by {
        if x < a {
            assert(plan[x] == first[x]);
            assert(listed(want.namespaces, first[x].0));
            let w = choose|w: int|
                0 <= w < want.namespaces.len() && (#[trigger] want.namespaces[w]).0 == first[x].0;
            assert(names_namespace(want.namespaces[w].0));
        } else if x < b {
            assert(plan[x] == second[x - a]);
            assert(listed(want.by_key, second[x - a].0));
            let w = choose|w: int|
                0 <= w < want.by_key.len() && (#[trigger] want.by_key[w]).0 == second[x - a].0;
            assert(!names_namespace(want.by_key[w].0));
        } else if x < c {
            assert(plan[x] == third[x - b]);
            assert(listed(left_objects, third[x - b].0));
            let l = choose|l: int|
                0 <= l < left_objects.len() && (#[trigger] left_objects[l]).0 == third[x - b].0;
            assert(listed(have.by_key, left_objects[l].0));
            let h = choose|h: int|
                0 <= h < have.by_key.len() && (#[trigger] have.by_key[h]).0 == left_objects[l].0;
            assert(!names_namespace(have.by_key[h].0));
        } else {
            assert(plan[x] == fourth[x - c]);
            assert(listed(left_namespaces, fourth[x - c].0));
            let l = choose|l: int|
                0 <= l < left_namespaces.len() && (#[trigger] left_namespaces[l]).0 == fourth[x
                    - c].0;
            assert(listed(have.namespaces, left_namespaces[l].0));
            let h = choose|h: int|
                0 <= h < have.namespaces.len() && (#[trigger] have.namespaces[h]).0
                    == left_namespaces[l].0;
            assert(names_namespace(have.namespaces[h].0));
        }
    }
}

} // verus!
