//! The apply executor's rules: which keys a cluster can take, and which steps
//! carry out a plan, in which order.
use crate::diff::{plan_view, DiffAction, DiffActionView, PlanView};
use crate::key::{KeyView, KubernetesKey};
use crate::text::owned;
use crate::views::views;
use vstd::prelude::*;

verus! {

/// Whether objects of a type live in a namespace or in the cluster itself.
#[derive(Debug, Clone, Copy, PartialEq, Eq, Structural)]
pub enum Scope {
    Cluster,
    Namespaced,
}

/// What a cluster says of one type of object.
#[derive(Debug, Clone)]
pub struct KnownType {
    pub api_version: String,
    pub kind: String,
    pub scope: Scope,
}

/// The mathematical value of a `KnownType`.
pub struct KnownTypeView {
    pub api_version: Seq<char>,
    pub kind: Seq<char>,
    pub scope: Scope,
}

impl View for KnownType {
    type V = KnownTypeView;

    open spec fn view(&self) -> KnownTypeView {
        KnownTypeView { api_version: self.api_version@, kind: self.kind@, scope: self.scope }
    }
}

/// Why a key cannot be applied.
#[derive(Debug, Clone, Copy, PartialEq, Eq, Structural)]
pub enum ScopeError {
    /// The cluster does not know the type of the key.
    UnknownType,
    /// The type lives in the cluster itself, and the key has a namespace.
    ClusterScoped,
    /// The type lives in a namespace, and the key has none.
    NamespaceMissing,
}

/// The scope of the first known type from `at` on that has the API version
/// and the kind.
pub open spec fn scope_from(
    types: Seq<KnownTypeView>,
    api_version: Seq<char>,
    kind: Seq<char>,
    at: int,
) -> Option<Scope>
    decreases types.len() - at,
{
    if at < 0 || at >= types.len() {
        None
    } else if types[at].api_version == api_version && types[at].kind == kind {
        Some(types[at].scope)
    } else {
        scope_from(types, api_version, kind, at + 1)
    }
}

/// Whether the cluster can take the key: its type must be known; a type of
/// the cluster itself takes no namespace, a type of a namespace needs one.
pub open spec fn scope_check(key: KeyView, types: Seq<KnownTypeView>) -> Result<(), ScopeError> {
    match scope_from(types, key.api_version, key.kind, 0) {
        None => Err(ScopeError::UnknownType),
        Some(Scope::Cluster) => if key.namespace is Some {
            Err(ScopeError::ClusterScoped)
        } else {
            Ok(())
        },
        Some(Scope::Namespaced) => if key.namespace is None {
            Err(ScopeError::NamespaceMissing)
        } else {
            Ok(())
        },
    }
}

/// Finds the scope of the type of a key among the types that the cluster knows.
pub fn scope_of(key: &KubernetesKey, types: &Vec<KnownType>) -> (r: Option<Scope>)
    ensures
        r == scope_from(views(types@), key@.api_version, key@.kind, 0),
{
    let ghost all = views(types@);
    let mut i: usize = 0;
    while i < types.len()
        invariant
            0 <= i <= types@.len(),
            all == views(types@),
            scope_from(all, key@.api_version, key@.kind, 0) == scope_from(
                all,
                key@.api_version,
                key@.kind,
                i as int,
            ),
        decreases types@.len() - i,
    {
        proof {
            assert(all[i as int] == types@[i as int]@);
        }
        if types[i].api_version == key.api_version && types[i].kind == key.kind {
            return Some(types[i].scope);
        }
        i += 1;
    }
    None
}

/// Checks that the cluster can take the key.
pub fn validate_scope(key: &KubernetesKey, types: &Vec<KnownType>) -> (r: Result<(), ScopeError>)
    ensures
        r == scope_check(key@, views(types@)),
{
    match scope_of(key, types) {
        None => Err(ScopeError::UnknownType),
        Some(Scope::Cluster) => if key.namespace.is_some() {
            Err(ScopeError::ClusterScoped)
        } else {
            Ok(())
        },
        Some(Scope::Namespaced) => if key.namespace.is_none() {
            Err(ScopeError::NamespaceMissing)
        } else {
            Ok(())
        },
    }
}

/// The index of the first entry of the plan from `at` on whose key the
/// cluster cannot take, with the reason, or nothing where it can take all.
pub open spec fn first_violation(plan: PlanView, types: Seq<KnownTypeView>, at: int) -> Option<
    (int, ScopeError),
>
    decreases plan.len() - at,
{
    if at < 0 || at >= plan.len() {
        None
    } else {
        match scope_check(plan[at].0, types) {
            Err(e) => Some((at, e)),
            Ok(_) => first_violation(plan, types, at + 1),
        }
    }
}

/// Checks a whole plan before any of it is carried out: the first key that
/// the cluster cannot take fails the plan.
pub fn validate_plan(plan: &Vec<(KubernetesKey, DiffAction)>, types: &Vec<KnownType>) -> (r:
    Result<(), (usize, ScopeError)>)
    ensures
        match first_violation(plan_view(plan@), views(types@), 0) {
            None => r is Ok,
            Some((at, e)) => r matches Err(found) && found.0 == at && found.1 == e,
        },
{
    let ghost all = plan_view(plan@);
    let mut i: usize = 0;
    while i < plan.len()
        invariant
            0 <= i <= plan@.len(),
            all == plan_view(plan@),
            first_violation(all, views(types@), 0) == first_violation(
                all,
                views(types@),
                i as int,
            ),
        decreases plan@.len() - i,
    {
        proof {
            assert(all[i as int].0 == plan@[i as int].0@);
        }
        match validate_scope(&plan[i].0, types) {
            Err(e) => {
                return Err((i, e));
            },
            Ok(_) => {},
        }
        i += 1;
    }
    Ok(())
}

/// The namespace in which the API of a key is used: none for a type of the
/// cluster itself, the key's namespace or else `default` for a type of a
/// namespace.
pub fn api_namespace(key: &KubernetesKey, scope: Scope) -> (r: Option<String>)
    ensures
        crate::key::optional_text(r) == match scope {
            Scope::Cluster => None,
            Scope::Namespaced => match key@.namespace {
                Some(namespace) => Some(namespace),
                None => Some("default"@),
            },
        },
{
    match scope {
        Scope::Cluster => None,
        Scope::Namespaced => match &key.namespace {
            Some(namespace) => Some(namespace.clone()),
            None => Some(owned("default")),
        },
    }
}

/// One step of carrying out a plan.
#[derive(Debug, Clone, Copy, PartialEq, Eq, Structural)]
pub enum ApplyStep {
    /// Send the object as a server-side apply under this manager.
    ServerSideApply { force: bool },
    /// Send the JSON Patch of the action.
    JsonPatch,
    /// Delete the object in the cluster.
    Delete,
    /// Wait until the cluster no longer shows the object.
    AwaitTombstone,
    /// Store the object that the server returned in a new row.
    DatabaseInsert,
    /// Store the object that the server returned in the row of the key.
    DatabaseUpdate,
    /// Delete the row of the key.
    DatabaseDelete,
}

/// The steps of one action, in order. What is created is applied with force
/// and stored; what is patched is patched and stored; what is deleted is
/// deleted and forgotten; what is recreated is deleted, awaited, applied with
/// force and stored.
pub open spec fn steps_of(action: DiffActionView) -> Seq<ApplyStep> {
    match action {
        DiffActionView::Create(_) => seq![
            ApplyStep::ServerSideApply { force: true },
            ApplyStep::DatabaseInsert,
        ],
        DiffActionView::Patch { .. } => seq![ApplyStep::JsonPatch, ApplyStep::DatabaseUpdate],
        DiffActionView::Delete => seq![ApplyStep::Delete, ApplyStep::DatabaseDelete],
        DiffActionView::Recreate(_) => seq![
            ApplyStep::Delete,
            ApplyStep::AwaitTombstone,
            ApplyStep::ServerSideApply { force: true },
            ApplyStep::DatabaseUpdate,
        ],
    }
}

/// The steps of one action.
pub fn apply_single_diff(action: &DiffAction) -> (r: Vec<ApplyStep>)
    ensures
        r@ == steps_of(action@),
{
    let mut steps: Vec<ApplyStep> = Vec::new();
    match action {
        DiffAction::Create(_) => {
            steps.push(ApplyStep::ServerSideApply { force: true });
            steps.push(ApplyStep::DatabaseInsert);
        },
        DiffAction::Patch { .. } => {
            steps.push(ApplyStep::JsonPatch);
            steps.push(ApplyStep::DatabaseUpdate);
        },
        DiffAction::Delete => {
            steps.push(ApplyStep::Delete);
            steps.push(ApplyStep::DatabaseDelete);
        },
        DiffAction::Recreate(_) => {
            steps.push(ApplyStep::Delete);
            steps.push(ApplyStep::AwaitTombstone);
            steps.push(ApplyStep::ServerSideApply { force: true });
            steps.push(ApplyStep::DatabaseUpdate);
        },
    }
    proof {
        assert(steps@ =~= steps_of(action@));
    }
    steps
}

/// Each step with the index of the plan entry that it belongs to.
pub open spec fn tagged(entry: int, steps: Seq<ApplyStep>) -> Seq<(int, ApplyStep)> {
    Seq::new(steps.len(), |i: int| (entry, steps[i]))
}

/// The steps of the plan entries from `at` on, entry by entry.
pub open spec fn issued_from(plan: PlanView, at: int) -> Seq<(int, ApplyStep)>
    decreases plan.len() - at,
{
    if at < 0 || at >= plan.len() {
        Seq::empty()
    } else {
        tagged(at, steps_of(plan[at].1)) + issued_from(plan, at + 1)
    }
}

/// A wait for the tombstone of every deletion among the entries from `at` on.
pub open spec fn waits_from(plan: PlanView, at: int) -> Seq<(int, ApplyStep)>
    decreases plan.len() - at,
{
    if at < 0 || at >= plan.len() {
        Seq::empty()
    } else if plan[at].1 is Delete {
        seq![(at, ApplyStep::AwaitTombstone)] + waits_from(plan, at + 1)
    } else {
        waits_from(plan, at + 1)
    }
}

/// The schedule of a plan: the steps of every entry in the order of the plan,
/// and after all of them a wait for the tombstone of every deleted object.
pub open spec fn schedule(plan: PlanView) -> Seq<(int, ApplyStep)> {
    issued_from(plan, 0) + waits_from(plan, 0)
}

/// The views of a schedule.
pub open spec fn schedule_view(steps: Seq<(usize, ApplyStep)>) -> Seq<(int, ApplyStep)> {
    Seq::new(steps.len(), |i: int| (steps[i].0 as int, steps[i].1))
}

/// The schedule of a plan: each step with the index of the plan entry that it
/// belongs to.
pub fn apply_diff(changed: &Vec<(KubernetesKey, DiffAction)>) -> (r: Vec<(usize, ApplyStep)>)
    ensures
        schedule_view(r@) == schedule(plan_view(changed@)),
{
    let ghost plan = plan_view(changed@);
    let mut out: Vec<(usize, ApplyStep)> = Vec::new();
    let mut i: usize = 0;
    proof {
        assert(schedule_view(out@) =~= Seq::empty());
    }
    while i < changed.len()
        invariant
            0 <= i <= changed@.len(),
            plan == plan_view(changed@),
            schedule_view(out@) + issued_from(plan, i as int) == issued_from(plan, 0),
        decreases changed@.len() - i,
    {
        let steps = apply_single_diff(&changed[i].1);
        proof {
            assert(plan[i as int].1 == changed@[i as int].1@);
        }
        let ghost before = schedule_view(out@);
        let mut j: usize = 0;
        while j < steps.len()
            invariant
                0 <= j <= steps@.len(),
                schedule_view(out@) == before + tagged(i as int, steps@).subrange(0, j as int),
            decreases steps@.len() - j,
        {
            let ghost earlier = schedule_view(out@);
            out.push((i, steps[j]));
            proof {
                assert(schedule_view(out@) =~= earlier.push((i as int, steps@[j as int])));
                assert(earlier.push((i as int, steps@[j as int])) =~= before + tagged(
                    i as int,
                    steps@,
                ).subrange(0, j as int + 1));
            }
            j += 1;
        }
        proof {
            assert(tagged(i as int, steps@).subrange(0, steps@.len() as int) =~= tagged(
                i as int,
                steps@,
            ));
            assert((before + tagged(i as int, steps@)) + issued_from(plan, i as int + 1) =~= before
                + issued_from(plan, i as int));
        }
        i += 1;
    }
    let ghost issued = schedule_view(out@);
    proof {
        assert(issued =~= issued_from(plan, 0));
    }
    let mut k: usize = 0;
    while k < changed.len()
        invariant
            0 <= k <= changed@.len(),
            plan == plan_view(changed@),
            schedule_view(out@) + waits_from(plan, k as int) == issued + waits_from(plan, 0),
        decreases changed@.len() - k,
    {
        proof {
            assert(plan[k as int].1 == changed@[k as int].1@);
        }
        let deleted = match &changed[k].1 {
            DiffAction::Delete => true,
            _ => false,
        };
        if deleted {
            let ghost earlier = schedule_view(out@);
            out.push((k, ApplyStep::AwaitTombstone));
            proof {
                assert(schedule_view(out@) =~= earlier.push((k as int, ApplyStep::AwaitTombstone)));
                assert(earlier.push((k as int, ApplyStep::AwaitTombstone)) + waits_from(
                    plan,
                    k as int + 1,
                ) =~= earlier + waits_from(plan, k as int));
            }
        }
        k += 1;
    }
    proof {
        assert(schedule_view(out@) =~= issued + waits_from(plan, 0));
    }
    out
}

/// What a refresh does to the database for one action: the row takes what the
/// cluster shows, or goes where the cluster shows nothing.
pub fn refresh_step(action: &DiffAction) -> (r: ApplyStep)
    ensures
        r == match action@ {
            DiffActionView::Delete => ApplyStep::DatabaseDelete,
            _ => ApplyStep::DatabaseUpdate,
        },
{
    match action {
        DiffAction::Delete => ApplyStep::DatabaseDelete,
        _ => ApplyStep::DatabaseUpdate,
    }
}

} // verus!
