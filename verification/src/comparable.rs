//! Making the wanted objects comparable with the live ones: what this manager
//! does not own is carried over from the live object, and what only the
//! server knows is set aside.
use crate::assoc::{value_of, without_key};
use crate::json::{items_view, lemma_view_children, member, Json, JsonView};
use crate::key::{optional_text, KeyView, KubernetesKey};
use crate::keymap::{
    find as find_keyed, index_of as place_of, insert as insert_keyed, keyed as keyed_entries,
    lemma_index_of as lemma_place_of, lemma_same_keys as lemma_same_places, with_entry as with_keyed,
};
use crate::merge::{copy_unmanaged_fields, merged, MergeError, MergeErrorView};
use crate::resources::{
    document_of, lemma_resource_keys, lemma_resources_tail, manager, object_of, resources_view, text_member,
    with_text_member, DynamicObject, DynamicObjectView, KubernetesResources, ResourcesView,
};
use crate::text::texts;
use vstd::prelude::*;

verus! {

/// Why two objects could not be made comparable.
#[derive(Debug, Clone)]
pub enum ComparableError {
    /// The ownership tree of the live object could not be read.
    Merge(MergeError),
    /// The merged document is not an object.
    NotAnObject,
}

/// The mathematical value of a `ComparableError`.
pub enum ComparableErrorView {
    Merge(MergeErrorView),
    NotAnObject,
}

impl View for ComparableError {
    type V = ComparableErrorView;

    open spec fn view(&self) -> ComparableErrorView {
        match self {
            ComparableError::Merge(e) => ComparableErrorView::Merge(e@),
            ComparableError::NotAnObject => ComparableErrorView::NotAnObject,
        }
    }
}

/// The manager that an entry of `managedFields` names.
pub open spec fn manager_of(entry: JsonView) -> Option<Seq<char>> {
    match entry {
        JsonView::Object(members) => text_member(members, "manager"@),
        _ => None,
    }
}

/// What the first entry from `at` on that names the manager `us` owns: its
/// `fieldsV1`, or `null` where it has none or there is no such entry.
pub open spec fn owned_from(entries: Seq<JsonView>, us: Option<Seq<char>>, at: int) -> JsonView
    decreases entries.len() - at,
{
    if at < 0 || at >= entries.len() {
        JsonView::Null
    } else if manager_of(entries[at]) == us {
        match entries[at] {
            JsonView::Object(members) => match value_of(members, "fieldsV1"@) {
                Some(fields) => fields,
                None => JsonView::Null,
            },
            _ => JsonView::Null,
        }
    } else {
        owned_from(entries, us, at + 1)
    }
}

/// The ownership tree of the manager `us` in the metadata of a live object.
pub open spec fn managed_by(metadata: Seq<(Seq<char>, JsonView)>, us: Option<Seq<char>>) -> JsonView {
    match value_of(metadata, "managedFields"@) {
        Some(JsonView::Array(entries)) => owned_from(entries, us, 0),
        _ => JsonView::Null,
    }
}

/// Finds the ownership tree of the manager `us` in the metadata of a live
/// object.
pub fn own_fields(metadata: &Vec<(String, Json)>, us: &Option<String>) -> (r: Json)
    ensures
        r@ == managed_by(crate::json::members_view(metadata@), optional_text(*us)),
{
    let entries = match member(metadata, "managedFields") {
        Some(found) => {
            proof {
                lemma_view_children(*found);
            }
            match found {
                Json::Array(entries) => entries,
                _ => {
                    return Json::Null;
                },
            }
        },
        None => {
            return Json::Null;
        },
    };
    let ghost all = items_view(entries@);
    let mut i: usize = 0;
    while i < entries.len()
        invariant
            0 <= i <= entries@.len(),
            all == items_view(entries@),
            managed_by(crate::json::members_view(metadata@), optional_text(*us)) == owned_from(
                all,
                optional_text(*us),
                0,
            ),
            owned_from(all, optional_text(*us), 0) == owned_from(all, optional_text(*us), i as int),
        decreases entries@.len() - i,
    {
        proof {
            lemma_view_children(entries@[i as int]);
            assert(all[i as int] == entries@[i as int]@);
        }
        match &entries[i] {
            Json::Object(members) => {
                let named = match member(members, "manager") {
                    Some(Json::String(text)) => Some(text.clone()),
                    _ => None,
                };
                if crate::key::same_optional_text(&named, us) {
                    return match member(members, "fieldsV1") {
                        Some(fields) => fields.duplicate(),
                        None => Json::Null,
                    };
                }
            },
            _ => {
                if us.is_none() {
                    return Json::Null;
                }
            },
        }
        i += 1;
    }
    Json::Null
}

/// The live object as it is compared: without `managedFields`, and with the
/// name and the namespace of the wanted object.
pub open spec fn settled_have(have: DynamicObjectView, want: DynamicObjectView) -> DynamicObjectView {
    DynamicObjectView {
        types: have.types,
        metadata: with_text_member(
            with_text_member(
                without_key(have.metadata, "managedFields"@),
                "name"@,
                text_member(want.metadata, "name"@),
            ),
            "namespace"@,
            text_member(want.metadata, "namespace"@),
        ),
        data: have.data,
    }
}

/// An object without `managedFields`.
pub open spec fn unmanaged(object: DynamicObjectView) -> DynamicObjectView {
    DynamicObjectView {
        types: object.types,
        metadata: without_key(object.metadata, "managedFields"@),
        data: object.data,
    }
}

/// A live and a wanted object made comparable: the wanted one is the merge of
/// its document into the live one's under what the manager `us` owns, read
/// back as an object; both lose `managedFields`; the live one takes the name
/// and the namespace of the wanted one. With them come the removal paths.
pub open spec fn settled(
    have: DynamicObjectView,
    want: DynamicObjectView,
    us: Option<Seq<char>>,
    path: Seq<Seq<char>>,
    removals: Seq<Seq<char>>,
) -> Result<(DynamicObjectView, DynamicObjectView, Seq<Seq<char>>), ComparableErrorView> {
    match merged(document_of(have), document_of(want), managed_by(have.metadata, us), path, removals) {
        Err(e) => Err(ComparableErrorView::Merge(e)),
        Ok((document, collected)) => match object_of(document) {
            None => Err(ComparableErrorView::NotAnObject),
            Some(object) => Ok((settled_have(have, unmanaged(object)), unmanaged(object), collected)),
        },
    }
}

/// Makes one wanted object comparable with the live object of its key. On an
/// error the two objects are as they were.
pub fn copy_single_unspecified_data(
    have: &mut DynamicObject,
    want: &mut DynamicObject,
    path: &mut Vec<String>,
    remove_patches: &mut Vec<String>,
    us: &Option<String>,
) -> (r: Result<(), ComparableError>)
    ensures
        match settled(
            old(have)@,
            old(want)@,
            optional_text(*us),
            texts(old(path)@),
            texts(old(remove_patches)@),
        ) {
            Ok((live, wanted, removals)) => {
                &&& r is Ok
                &&& final(have)@ == live
                &&& final(want)@ == wanted
                &&& texts(final(path)@) == texts(old(path)@)
                &&& texts(final(remove_patches)@) == removals
            },
            Err(e) => {
                &&& r matches Err(error)
                &&& error@ == e
                &&& final(have)@ == old(have)@
                &&& final(want)@ == old(want)@
            },
        },
{
    let owned_here = own_fields(&have.metadata.fields, us);
    let copied = match copy_unmanaged_fields(
        &have.to_document(),
        &want.to_document(),
        &owned_here,
        path,
        remove_patches,
    ) {
        Err(e) => {
            return Err(ComparableError::Merge(e));
        },
        Ok(document) => document,
    };
    let mut object = match DynamicObject::from_document(&copied) {
        None => {
            return Err(ComparableError::NotAnObject);
        },
        Some(object) => object,
    };
    object.metadata.clear("managedFields");
    have.metadata.clear("managedFields");
    let name = object.metadata.name();
    have.metadata.set_text("name", name);
    let namespace = object.metadata.namespace();
    have.metadata.set_text("namespace", namespace);
    *want = object;
    Ok(())
}

/// The removal paths of the objects that have some, by key.
pub type RemovalsView = Seq<(KeyView, Seq<Seq<char>>)>;

/// The views of the entries of a map of removal paths.
pub open spec fn removals_view(entries: Seq<(KubernetesKey, Vec<String>)>) -> RemovalsView {
    Seq::new(entries.len(), |i: int| (entries[i].0@, texts(entries[i].1@)))
}

/// The path at which every object's document stands: one empty segment, so
/// that the paths below it start with `/`.
pub open spec fn root_path() -> Seq<Seq<char>> {
    seq![Seq::<char>::empty()]
}

/// The wanted objects from `at` on made comparable with the live objects of
/// their keys, after those in `done`. A wanted object without a live one is
/// left as it is. The removal paths of an object that has some are bound to
/// its key. The first error ends it.
pub open spec fn settled_entries(
    from: Seq<(KeyView, DynamicObjectView)>,
    to: Seq<(KeyView, DynamicObjectView)>,
    at: int,
    us: Option<Seq<char>>,
    done: Seq<(KeyView, DynamicObjectView)>,
    removals: RemovalsView,
) -> Result<
    (Seq<(KeyView, DynamicObjectView)>, Seq<(KeyView, DynamicObjectView)>, RemovalsView),
    ComparableErrorView,
>
    decreases to.len() - at,
{
    if at < 0 || at >= to.len() {
        Ok((from, done, removals))
    } else {
        let key = to[at].0;
        let place = place_of(from, key);
        if place >= from.len() {
            settled_entries(from, to, at + 1, us, done.push(to[at]), removals)
        } else {
            match settled(from[place].1, to[at].1, us, root_path(), Seq::empty()) {
                Err(e) => Err(e),
                Ok((live, wanted, paths)) => settled_entries(
                    from.update(place, (from[place].0, live)),
                    to,
                    at + 1,
                    us,
                    done.push((key, wanted)),
                    if paths.len() > 0 {
                        with_keyed(removals, key, paths)
                    } else {
                        removals
                    },
                ),
            }
        }
    }
}

/// The live and the wanted objects made comparable, under the manager `us`:
/// first the objects that are no Namespace, then the Namespace objects.
pub open spec fn made_comparable(from: ResourcesView, to: ResourcesView, us: Option<Seq<char>>) -> Result<
    (ResourcesView, ResourcesView, RemovalsView),
    ComparableErrorView,
> {
    match settled_entries(from.by_key, to.by_key, 0, us, Seq::empty(), Seq::empty()) {
        Err(e) => Err(e),
        Ok((live_objects, wanted_objects, first)) => match settled_entries(
            from.namespaces,
            to.namespaces,
            0,
            us,
            Seq::empty(),
            first,
        ) {
            Err(e) => Err(e),
            Ok((live_namespaces, wanted_namespaces, both)) => Ok(
                (
                    ResourcesView { by_key: live_objects, namespaces: live_namespaces },
                    ResourcesView { by_key: wanted_objects, namespaces: wanted_namespaces },
                    both,
                ),
            ),
        },
    }
}

/// Binds the removal paths to the key.
fn put_removals(
    removals: &mut Vec<(KubernetesKey, Vec<String>)>,
    key: KubernetesKey,
    paths: Vec<String>,
)
    ensures
        removals_view(final(removals)@) == with_keyed(
            removals_view(old(removals)@),
            key@,
            texts(paths@),
        ),
{
    proof {
        lemma_same_places(keyed_entries(removals@), removals_view(removals@), key@);
        crate::keymap::lemma_rank_of(keyed_entries(removals@), key@);
    }
    insert_keyed(removals, key, paths);
    proof {
        let before = old(removals)@;
        let after = removals@;
        let expected = with_keyed(removals_view(before), key@, texts(paths@));
        assert(keyed_entries(after).len() == after.len());
        assert(removals_view(after).len() == expected.len());
        assert forall|i: int| 0 <= i < after.len() implies removals_view(after)[i]
            == expected[i] by {
            assert(keyed_entries(after)[i] == with_keyed(keyed_entries(before), key@, paths)[i]);
        }
        assert(removals_view(after) =~= expected);
    }
}

/// Makes the wanted objects of one map comparable with the live ones.
fn settle_entries(
    from: &mut Vec<(KubernetesKey, DynamicObject)>,
    to: Vec<(KubernetesKey, DynamicObject)>,
    removals: &mut Vec<(KubernetesKey, Vec<String>)>,
    us: &Option<String>,
) -> (r: Result<Vec<(KubernetesKey, DynamicObject)>, ComparableError>)
    ensures
        match settled_entries(
            resources_view(old(from)@),
            resources_view(to@),
            0,
            optional_text(*us),
            Seq::empty(),
            removals_view(old(removals)@),
        ) {
            Ok((live, wanted, paths)) => {
                &&& r matches Ok(made)
                &&& resources_view(made@) == wanted
                &&& resources_view(final(from)@) == live
                &&& removals_view(final(removals)@) == paths
            },
            Err(e) => r matches Err(error) && error@ == e,
        },
{
    let ghost all = resources_view(to@);
    let ghost goal = settled_entries(
        resources_view(from@),
        all,
        0,
        optional_text(*us),
        Seq::empty(),
        removals_view(removals@),
    );
    let mut remaining = to;
    let mut done: Vec<(KubernetesKey, DynamicObject)> = Vec::new();
    let mut path: Vec<String> = Vec::new();
    path.push(String::new());
    let ghost mut at: int = 0;
    proof {
        assert(texts(path@) =~= root_path());
        assert(resources_view(done@) =~= Seq::empty());
        assert(all.subrange(0, all.len() as int) =~= all);
    }
    while remaining.len() > 0
        invariant
            0 <= at <= all.len(),
            all == resources_view(to@),
            resources_view(remaining@) == all.subrange(at, all.len() as int),
            texts(path@) == root_path(),
            goal == settled_entries(
                resources_view(old(from)@),
                all,
                0,
                optional_text(*us),
                Seq::empty(),
                removals_view(old(removals)@),
            ),
            goal == settled_entries(
                resources_view(from@),
                all,
                at,
                optional_text(*us),
                resources_view(done@),
                removals_view(removals@),
            ),
        decreases remaining@.len(),
    {
        let ghost rest = remaining@;
        let ghost done_before = resources_view(done@);
        let ghost live_before = resources_view(from@);
        proof {
            assert(resources_view(rest).len() == rest.len());
            assert(resources_view(rest)[0] == all[at]);
            assert(resources_view(rest)[0] == (rest[0].0@, rest[0].1@));
        }
        let (key, want) = remaining.remove(0);
        proof {
            lemma_resources_tail(rest);
            assert(all.subrange(at, all.len() as int).drop_first() =~= all.subrange(
                at + 1,
                all.len() as int,
            ));
            lemma_resource_keys(from@);
            lemma_same_places(keyed_entries(from@), resources_view(from@), key@);
            lemma_place_of(resources_view(from@), key@);
        }
        let mut want = want;
        match find_keyed(from, &key) {
            None => {},
            Some(place) => {
                let ghost held = from@;
                let (live_key, have) = from.remove(place);
                let mut have = have;
                let mut paths: Vec<String> = Vec::new();
                proof {
                    assert(texts(paths@) =~= Seq::empty());
                    assert(live_before[place as int] == (live_key@, have@));
                }
                match copy_single_unspecified_data(&mut have, &mut want, &mut path, &mut paths, us) {
                    Err(e) => {
                        return Err(e);
                    },
                    Ok(_) => {},
                }
                let ghost settled_live = have@;
                from.insert(place, (live_key, have));
                proof {
                    assert(resources_view(from@) =~= live_before.update(
                        place as int,
                        (live_before[place as int].0, settled_live),
                    ));
                }
                proof {
                    assert(texts(paths@).len() == paths@.len());
                }
                if paths.len() > 0 {
                    put_removals(removals, key.duplicate(), paths);
                }
            },
        }
        let ghost one = (key@, want@);
        done.push((key, want));
        proof {
            assert(resources_view(done@) =~= done_before.push(one));
            at = at + 1;
        }
    }
    Ok(done)
}

/// Makes the wanted objects comparable with the live ones, key by key, and
/// returns both sets with the removal paths of the objects that have some.
pub fn make_comparable(from: KubernetesResources, to: KubernetesResources) -> (r: Result<
    (KubernetesResources, KubernetesResources, Vec<(KubernetesKey, Vec<String>)>),
    ComparableError,
>)
    ensures
        match made_comparable(from@, to@, Some("sisyphus"@)) {
            Ok((live, wanted, removals)) => {
                &&& r matches Ok(made)
                &&& made.0@ == live
                &&& made.1@ == wanted
                &&& removals_view(made.2@) == removals
            },
            Err(e) => r matches Err(error) && error@ == e,
        },
{
    let us = Some(manager());
    let mut from = from;
    let mut removals: Vec<(KubernetesKey, Vec<String>)> = Vec::new();
    proof {
        assert(removals_view(removals@) =~= Seq::empty());
    }
    let by_key = match settle_entries(&mut from.by_key, to.by_key, &mut removals, &us) {
        Err(e) => {
            return Err(e);
        },
        Ok(entries) => entries,
    };
    let namespaces = match settle_entries(&mut from.namespaces, to.namespaces, &mut removals, &us) {
        Err(e) => {
            return Err(e);
        },
        Ok(entries) => entries,
    };
    Ok((from, KubernetesResources { by_key, namespaces }, removals))
}

} // verus!
