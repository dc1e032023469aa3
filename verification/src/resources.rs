//! Objects as the engine holds them: a type header, metadata and a free-form
//! body; the single document that stands for all three; and sets of objects
//! by key.
use crate::assoc::{value_of, with_entry, without_key};
use crate::json::{
    lemma_view_children, member, members_view, set_member, take_member, Json, JsonView,
};
use crate::key::{KeyView, KubernetesKey};
use crate::keymap::{
    has_key as has_object, insert as insert_keyed, keyed as keyed_objects, lemma_index_of as lemma_object_index,
    lemma_rank_of as lemma_object_rank, lemma_same_keys as lemma_same_object_keys, remove as remove_keyed,
    find as find_keyed, same_keys as same_object_keys, value_of as object_for, with_entry as with_object,
    without_key as without_object,
};
use crate::merge::duplicate_members;
use crate::text::owned;
use vstd::prelude::*;

verus! {

/// The type of an object.
#[derive(Debug, Clone)]
pub struct TypeMeta {
    pub api_version: String,
    pub kind: String,
}

/// The mathematical value of a `TypeMeta`.
pub struct TypeMetaView {
    pub api_version: Seq<char>,
    pub kind: Seq<char>,
}

impl View for TypeMeta {
    type V = TypeMetaView;

    open spec fn view(&self) -> TypeMetaView {
        TypeMetaView { api_version: self.api_version@, kind: self.kind@ }
    }
}

/// The view of an optional type header.
pub open spec fn optional_types(types: Option<TypeMeta>) -> Option<TypeMetaView> {
    match types {
        Some(t) => Some(t@),
        None => None,
    }
}

/// The metadata of an object, held as the members of its JSON form.
#[derive(Debug, Clone)]
pub struct ObjectMeta {
    pub fields: Vec<(String, Json)>,
}

impl View for ObjectMeta {
    type V = Seq<(Seq<char>, JsonView)>;

    open spec fn view(&self) -> Seq<(Seq<char>, JsonView)> {
        members_view(self.fields@)
    }
}

/// The text of the member `key`, where it is a string.
pub open spec fn text_member(members: Seq<(Seq<char>, JsonView)>, key: Seq<char>) -> Option<
    Seq<char>,
> {
    match value_of(members, key) {
        Some(JsonView::String(text)) => Some(text),
        _ => None,
    }
}

/// `members` with `key` bound to the text, or without `key` where there is none.
pub open spec fn with_text_member(
    members: Seq<(Seq<char>, JsonView)>,
    key: Seq<char>,
    text: Option<Seq<char>>,
) -> Seq<(Seq<char>, JsonView)> {
    match text {
        Some(t) => with_entry(members, key, JsonView::String(t)),
        None => without_key(members, key),
    }
}

/// The view of an optional owned string.
pub open spec fn owned_text(s: Option<String>) -> Option<Seq<char>> {
    match s {
        Some(text) => Some(text@),
        None => None,
    }
}

impl Default for ObjectMeta {
    fn default() -> (r: ObjectMeta)
        ensures
            r@ == Seq::<(Seq<char>, JsonView)>::empty(),
    {
        let r = ObjectMeta { fields: Vec::new() };
        proof {
            assert(r@ =~= Seq::<(Seq<char>, JsonView)>::empty());
        }
        r
    }
}

impl ObjectMeta {
    /// The text of the field `key`, where the metadata has it as a string.
    pub fn text(&self, key: &str) -> (r: Option<String>)
        ensures
            owned_text(r) == text_member(self@, key@),
    {
        match member(&self.fields, key) {
            Some(Json::String(text)) => Some(text.clone()),
            _ => None,
        }
    }

    /// Sets the field `key` to the text, or takes it out where there is none.
    pub fn set_text(&mut self, key: &str, text: Option<String>)
        ensures
            final(self)@ == with_text_member(old(self)@, key@, owned_text(text)),
    {
        match text {
            Some(t) => {
                set_member(&mut self.fields, owned(key), Json::String(t));
            },
            None => {
                let _ = take_member(&mut self.fields, key);
            },
        }
    }

    /// Takes the field `key` out.
    pub fn clear(&mut self, key: &str)
        ensures
            final(self)@ == without_key(old(self)@, key@),
    {
        let _ = take_member(&mut self.fields, key);
    }

    /// The object's name.
    pub fn name(&self) -> (r: Option<String>)
        ensures
            owned_text(r) == text_member(self@, "name"@),
    {
        self.text("name")
    }

    /// The object's namespace.
    pub fn namespace(&self) -> (r: Option<String>)
        ensures
            owned_text(r) == text_member(self@, "namespace"@),
    {
        self.text("namespace")
    }

    /// A deep copy of the metadata.
    pub fn duplicate(&self) -> (r: ObjectMeta)
        ensures
            r@ == self@,
    {
        ObjectMeta { fields: duplicate_members(&self.fields) }
    }
}

/// An object of any kind.
#[derive(Debug, Clone)]
pub struct DynamicObject {
    pub types: Option<TypeMeta>,
    pub metadata: ObjectMeta,
    pub data: Json,
}

/// The mathematical value of an object.
pub struct DynamicObjectView {
    pub types: Option<TypeMetaView>,
    pub metadata: Seq<(Seq<char>, JsonView)>,
    pub data: JsonView,
}

impl View for DynamicObject {
    type V = DynamicObjectView;

    open spec fn view(&self) -> DynamicObjectView {
        DynamicObjectView {
            types: optional_types(self.types),
            metadata: self.metadata@,
            data: self.data@,
        }
    }
}

/// The members of the body, where the body is an object.
pub open spec fn body_members(data: JsonView) -> Seq<(Seq<char>, JsonView)> {
    match data {
        JsonView::Object(members) => members,
        _ => Seq::empty(),
    }
}

/// The one document that stands for an object: the members of its body, with
/// `metadata`, and with `apiVersion` and `kind` where it has a type header.
pub open spec fn document_of(object: DynamicObjectView) -> JsonView {
    let described = with_entry(
        body_members(object.data),
        "metadata"@,
        JsonView::Object(object.metadata),
    );
    match object.types {
        Some(t) => JsonView::Object(
            with_entry(
                with_entry(described, "apiVersion"@, JsonView::String(t.api_version)),
                "kind"@,
                JsonView::String(t.kind),
            ),
        ),
        None => JsonView::Object(described),
    }
}

/// The type header that a document's members carry: both `apiVersion` and
/// `kind` as strings, or none.
pub open spec fn header_of(members: Seq<(Seq<char>, JsonView)>) -> Option<TypeMetaView> {
    match (text_member(members, "apiVersion"@), text_member(members, "kind"@)) {
        (Some(api_version), Some(kind)) => Some(TypeMetaView { api_version, kind }),
        _ => None,
    }
}

/// The object that a document stands for, where the document is an object:
/// the type header is taken out where the document has one, `metadata` is
/// taken out and gives the metadata where it is an object, and the rest is
/// the body.
pub open spec fn object_of(document: JsonView) -> Option<DynamicObjectView> {
    match document {
        JsonView::Object(members) => {
            let types = header_of(members);
            let untyped = if types is Some {
                without_key(without_key(members, "apiVersion"@), "kind"@)
            } else {
                members
            };
            let metadata = match value_of(untyped, "metadata"@) {
                Some(JsonView::Object(fields)) => fields,
                _ => Seq::empty(),
            };
            Some(
                DynamicObjectView {
                    types,
                    metadata,
                    data: JsonView::Object(without_key(untyped, "metadata"@)),
                },
            )
        },
        _ => None,
    }
}

/// The object is a `v1` `Secret`.
pub open spec fn is_secret(object: DynamicObjectView) -> bool {
    object.types matches Some(t) && t.api_version == "v1"@ && t.kind == "Secret"@
}

impl TypeMeta {
    /// A copy of the type header.
    pub fn duplicate(&self) -> (r: TypeMeta)
        ensures
            r@ == self@,
    {
        TypeMeta { api_version: self.api_version.clone(), kind: self.kind.clone() }
    }

    /// Whether the two headers name the same type.
    pub fn same(&self, other: &TypeMeta) -> (r: bool)
        ensures
            r == (self@ == other@),
    {
        self.api_version == other.api_version && self.kind == other.kind
    }
}

impl DynamicObject {
    /// A deep copy of the object.
    pub fn duplicate(&self) -> (r: DynamicObject)
        ensures
            r@ == self@,
    {
        let types = match &self.types {
            Some(t) => Some(t.duplicate()),
            None => None,
        };
        DynamicObject { types, metadata: self.metadata.duplicate(), data: self.data.duplicate() }
    }

    /// Structural deep equality of two objects.
    pub fn equals(&self, other: &DynamicObject) -> (r: bool)
        ensures
            r == (self@ == other@),
    {
        let same_types = match (&self.types, &other.types) {
            (None, None) => true,
            (Some(a), Some(b)) => a.same(b),
            _ => false,
        };
        if !same_types {
            return false;
        }
        let mine = Json::Object(duplicate_members(&self.metadata.fields));
        let theirs = Json::Object(duplicate_members(&other.metadata.fields));
        proof {
            lemma_view_children(mine);
            lemma_view_children(theirs);
        }
        mine.equals(&theirs) && self.data.equals(&other.data)
    }

    /// The one document that stands for the object.
    pub fn to_document(&self) -> (r: Json)
        ensures
            r@ == document_of(self@),
    {
        proof {
            lemma_view_children(self.data);
        }
        let mut members: Vec<(String, Json)> = match &self.data {
            Json::Object(body) => duplicate_members(body),
            _ => Vec::new(),
        };
        proof {
            assert(members_view(members@) =~= body_members(self.data@));
        }
        let metadata = Json::Object(duplicate_members(&self.metadata.fields));
        proof {
            lemma_view_children(metadata);
        }
        set_member(&mut members, owned("metadata"), metadata);
        match &self.types {
            Some(t) => {
                set_member(&mut members, owned("apiVersion"), Json::String(t.api_version.clone()));
                set_member(&mut members, owned("kind"), Json::String(t.kind.clone()));
            },
            None => {},
        }
        let document = Json::Object(members);
        proof {
            lemma_view_children(document);
        }
        document
    }

    /// The object that a document stands for, or `None` where the document is
    /// not an object.
    pub fn from_document(document: &Json) -> (r: Option<DynamicObject>)
        ensures
            match object_of(document@) {
                Some(object) => r matches Some(made) && made@ == object,
                None => r is None,
            },
    {
        proof {
            lemma_view_children(*document);
        }
        match document {
            Json::Object(all) => {
                let mut members = duplicate_members(all);
                let api_version = match member(&members, "apiVersion") {
                    Some(Json::String(text)) => Some(text.clone()),
                    _ => None,
                };
                let kind = match member(&members, "kind") {
                    Some(Json::String(text)) => Some(text.clone()),
                    _ => None,
                };
                let types = match (api_version, kind) {
                    (Some(api_version), Some(kind)) => {
                        let _ = take_member(&mut members, "apiVersion");
                        let _ = take_member(&mut members, "kind");
                        Some(TypeMeta { api_version, kind })
                    },
                    _ => None,
                };
                let fields = match take_member(&mut members, "metadata") {
                    Some(Json::Object(fields)) => fields,
                    _ => Vec::new(),
                };
                let data = Json::Object(members);
                proof {
                    lemma_view_children(data);
                }
                let metadata = ObjectMeta { fields };
                proof {
                    match value_of(
                        if header_of(members_view(all@)) is Some {
                            without_key(
                                without_key(members_view(all@), "apiVersion"@),
                                "kind"@,
                            )
                        } else {
                            members_view(all@)
                        },
                        "metadata"@,
                    ) {
                        Some(JsonView::Object(expected)) => {
                            let taken = Json::Object(fields);
                            lemma_view_children(taken);
                        },
                        _ => {
                            assert(fields@.len() == 0);
                            assert(metadata@ =~= Seq::empty());
                        },
                    }
                }
                Some(DynamicObject { types, metadata, data })
            },
            _ => None,
        }
    }
}

/// The objects of the clusters: everything but Namespace objects by key, and
/// the Namespace objects by key.
#[derive(Debug, Clone)]
pub struct KubernetesResources {
    pub by_key: Vec<(KubernetesKey, DynamicObject)>,
    pub namespaces: Vec<(KubernetesKey, DynamicObject)>,
}

/// The mathematical value of a set of objects.
pub struct ResourcesView {
    pub by_key: Seq<(KeyView, DynamicObjectView)>,
    pub namespaces: Seq<(KeyView, DynamicObjectView)>,
}

impl View for KubernetesResources {
    type V = ResourcesView;

    open spec fn view(&self) -> ResourcesView {
        ResourcesView {
            by_key: resources_view(self.by_key@),
            namespaces: resources_view(self.namespaces@),
        }
    }
}

/// The name under which this engine applies objects.
pub fn manager() -> (r: String)
    ensures
        r@ == "sisyphus"@,
{
    owned("sisyphus")
}

/// The view of an optional object.
pub open spec fn optional_object(object: Option<DynamicObject>) -> Option<DynamicObjectView> {
    match object {
        Some(o) => Some(o@),
        None => None,
    }
}

/// The views of the entries of an object map.
pub open spec fn resources_view(entries: Seq<(KubernetesKey, DynamicObject)>) -> Seq<
    (KeyView, DynamicObjectView),
> {
    Seq::new(entries.len(), |i: int| (entries[i].0@, entries[i].1@))
}

/// The entries of an object map and their views have the same keys.
pub proof fn lemma_resource_keys(entries: Seq<(KubernetesKey, DynamicObject)>)
    ensures
        same_object_keys(keyed_objects(entries), resources_view(entries)),
{
}

/// The object under `key`, by view.
pub fn object_at<'a>(entries: &'a Vec<(KubernetesKey, DynamicObject)>, key: &KubernetesKey) -> (r:
    Option<&'a DynamicObject>)
    ensures
        r is Some == has_object(resources_view(entries@), key@),
        r matches Some(object) ==> object_for(resources_view(entries@), key@) == Some(object@),
{
    proof {
        lemma_resource_keys(entries@);
        lemma_same_object_keys(keyed_objects(entries@), resources_view(entries@), key@);
    }
    match find_keyed(entries, key) {
        Some(i) => Some(&entries[i].1),
        None => None,
    }
}

/// Puts `object` under `key`, in place of an object that was there.
pub fn put_object(
    entries: &mut Vec<(KubernetesKey, DynamicObject)>,
    key: KubernetesKey,
    object: DynamicObject,
)
    ensures
        resources_view(final(entries)@) == with_object(
            resources_view(old(entries)@),
            key@,
            object@,
        ),
{
    proof {
        lemma_resource_keys(entries@);
        lemma_same_object_keys(keyed_objects(entries@), resources_view(entries@), key@);
        lemma_object_rank(keyed_objects(entries@), key@);
    }
    insert_keyed(entries, key, object);
    proof {
        let before = old(entries)@;
        let after = entries@;
        let expected = with_object(resources_view(before), key@, object@);
        assert(keyed_objects(after).len() == after.len());
        assert(resources_view(after).len() == expected.len());
        assert forall|i: int| 0 <= i < after.len() implies resources_view(after)[i]
            == expected[i] by {
            assert(keyed_objects(after)[i] == with_object(keyed_objects(before), key@, object)[i]);
        }
        assert(resources_view(after) =~= expected);
    }
}

/// Takes the object under `key` out and returns it.
pub fn take_object(entries: &mut Vec<(KubernetesKey, DynamicObject)>, key: &KubernetesKey) -> (r:
    Option<DynamicObject>)
    ensures
        resources_view(final(entries)@) == without_object(resources_view(old(entries)@), key@),
        optional_object(r) == object_for(resources_view(old(entries)@), key@),
{
    proof {
        lemma_resource_keys(entries@);
        lemma_same_object_keys(keyed_objects(entries@), resources_view(entries@), key@);
        lemma_object_index(keyed_objects(entries@), key@);
    }
    let r = remove_keyed(entries, key);
    proof {
        let before = old(entries)@;
        let after = entries@;
        let expected = without_object(resources_view(before), key@);
        assert(keyed_objects(after).len() == after.len());
        assert(resources_view(after).len() == expected.len());
        assert forall|i: int| 0 <= i < after.len() implies resources_view(after)[i]
            == expected[i] by {
            assert(keyed_objects(after)[i] == without_object(keyed_objects(before), key@)[i]);
        }
        assert(resources_view(after) =~= expected);
    }
    r
}

/// The views of the entries after the first are the views after the first.
pub proof fn lemma_resources_tail(entries: Seq<(KubernetesKey, DynamicObject)>)
    requires
        entries.len() > 0,
    ensures
        resources_view(entries.remove(0)) == resources_view(entries).drop_first(),
        resources_view(entries)[0] == (entries[0].0@, entries[0].1@),
{
    assert(resources_view(entries.remove(0)) =~= resources_view(entries).drop_first());
}

} // verus!
