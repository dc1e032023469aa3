//! The identity of an object in a cluster, the order that sorts object maps,
//! and the filter that selects keys.
use crate::text::{
    concat2, lemma_lex_irreflexive, lemma_lex_total, lemma_lex_transitive, lex_lt, str_lt, text_eq,
};
use vstd::prelude::*;
use vstd::std_specs::cmp::PartialEqSpecImpl;

verus! {

/// The key of an object: its type, its name, its namespace where it has one,
/// and the cluster (a kubeconfig context) that holds it.
#[derive(Debug, Clone)]
pub struct KubernetesKey {
    pub name: String,
    pub kind: String,
    pub api_version: String,
    pub namespace: Option<String>,
    pub cluster: String,
}

/// The mathematical value of a key.
pub struct KeyView {
    pub name: Seq<char>,
    pub kind: Seq<char>,
    pub api_version: Seq<char>,
    pub namespace: Option<Seq<char>>,
    pub cluster: Seq<char>,
}

/// The view of an optional string.
pub open spec fn optional_text(s: Option<String>) -> Option<Seq<char>> {
    match s {
        Some(text) => Some(text@),
        None => None,
    }
}

impl View for KubernetesKey {
    type V = KeyView;

    open spec fn view(&self) -> KeyView {
        KeyView {
            name: self.name@,
            kind: self.kind@,
            api_version: self.api_version@,
            namespace: optional_text(self.namespace),
            cluster: self.cluster@,
        }
    }
}

/// Whether two optional strings hold the same text, or both nothing.
pub fn same_optional_text(a: &Option<String>, b: &Option<String>) -> (r: bool)
    ensures
        r == (optional_text(*a) == optional_text(*b)),
{
    match (a, b) {
        (None, None) => true,
        (Some(x), Some(y)) => *x == *y,
        _ => false,
    }
}

/// A copy of an optional string.
pub fn copy_optional_text(a: &Option<String>) -> (r: Option<String>)
    ensures
        optional_text(r) == optional_text(*a),
{
    match a {
        Some(text) => Some(text.clone()),
        None => None,
    }
}

/// The order of optional texts: nothing comes first.
pub open spec fn optional_before(a: Option<Seq<char>>, b: Option<Seq<char>>) -> bool {
    match (a, b) {
        (None, Some(_)) => true,
        (Some(x), Some(y)) => lex_lt(x, y),
        _ => false,
    }
}

/// The order of keys: by name, then kind, API version, namespace (a key
/// without one first) and cluster.
pub open spec fn key_before(a: KeyView, b: KeyView) -> bool {
    if a.name != b.name {
        lex_lt(a.name, b.name)
    } else if a.kind != b.kind {
        lex_lt(a.kind, b.kind)
    } else if a.api_version != b.api_version {
        lex_lt(a.api_version, b.api_version)
    } else if a.namespace != b.namespace {
        optional_before(a.namespace, b.namespace)
    } else {
        lex_lt(a.cluster, b.cluster)
    }
}

/// No key comes before itself.
pub proof fn lemma_key_irreflexive(a: KeyView)
    ensures
        !key_before(a, a),
{
    lemma_lex_irreflexive(a.cluster);
}

/// Two different keys are ordered one way or the other.
pub proof fn lemma_key_total(a: KeyView, b: KeyView)
    ensures
        a == b || key_before(a, b) || key_before(b, a),
{
    lemma_lex_total(a.name, b.name);
    lemma_lex_total(a.kind, b.kind);
    lemma_lex_total(a.api_version, b.api_version);
    lemma_lex_total(a.cluster, b.cluster);
    match (a.namespace, b.namespace) {
        (Some(x), Some(y)) => {
            lemma_lex_total(x, y);
        },
        _ => {},
    }
}

/// One field's part of transitivity: what is below something below a third is
/// below the third and differs from it.
proof fn lemma_text_chain(a: Seq<char>, b: Seq<char>, c: Seq<char>)
    ensures
        lex_lt(a, b) && lex_lt(b, c) ==> lex_lt(a, c),
        lex_lt(a, b) ==> a != b,
        lex_lt(a, b) && lex_lt(b, c) ==> a != c,
{
    lemma_lex_irreflexive(a);
    if lex_lt(a, b) && lex_lt(b, c) {
        lemma_lex_transitive(a, b, c);
    }
}

/// The order of keys is transitive.
pub proof fn lemma_key_transitive(a: KeyView, b: KeyView, c: KeyView)
    requires
        key_before(a, b),
        key_before(b, c),
    ensures
        key_before(a, c),
{
    lemma_text_chain(a.name, b.name, c.name);
    lemma_text_chain(a.kind, b.kind, c.kind);
    lemma_text_chain(a.api_version, b.api_version, c.api_version);
    lemma_text_chain(a.cluster, b.cluster, c.cluster);
    match (a.namespace, b.namespace, c.namespace) {
        (Some(x), Some(y), Some(z)) => {
            lemma_text_chain(x, y, z);
        },
        _ => {},
    }
}

impl KubernetesKey {
    /// Whether the two keys are the same.
    pub fn same(&self, other: &KubernetesKey) -> (r: bool)
        ensures
            r == (self@ == other@),
    {
        self.name == other.name && self.kind == other.kind && self.api_version
            == other.api_version && same_optional_text(&self.namespace, &other.namespace)
            && self.cluster == other.cluster
    }

    /// Whether this key comes before the other in the order of keys.
    pub fn before(&self, other: &KubernetesKey) -> (r: bool)
        ensures
            r == key_before(self@, other@),
    {
        if self.name != other.name {
            str_lt(self.name.as_str(), other.name.as_str())
        } else if self.kind != other.kind {
            str_lt(self.kind.as_str(), other.kind.as_str())
        } else if self.api_version != other.api_version {
            str_lt(self.api_version.as_str(), other.api_version.as_str())
        } else if !same_optional_text(&self.namespace, &other.namespace) {
            match (&self.namespace, &other.namespace) {
                (None, Some(_)) => true,
                (Some(x), Some(y)) => str_lt(x.as_str(), y.as_str()),
                _ => false,
            }
        } else {
            str_lt(self.cluster.as_str(), other.cluster.as_str())
        }
    }

    /// A copy of the key.
    pub fn duplicate(&self) -> (r: KubernetesKey)
        ensures
            r@ == self@,
    {
        KubernetesKey {
            name: self.name.clone(),
            kind: self.kind.clone(),
            api_version: self.api_version.clone(),
            namespace: copy_optional_text(&self.namespace),
            cluster: self.cluster.clone(),
        }
    }

    /// The key as it is shown to the operator: kind, then namespace and name
    /// (or the name alone), then the cluster in brackets.
    pub fn to_text(&self) -> (r: String)
        ensures
            r@ == key_text(self@),
    {
        let mut out = concat2(self.kind.as_str(), " ");
        match &self.namespace {
            Some(namespace) => {
                out.append(namespace.as_str());
                out.append("/");
            },
            None => {},
        }
        out.append(self.name.as_str());
        out.append(" (");
        out.append(self.cluster.as_str());
        out.append(")");
        proof {
            assert(out@ =~= key_text(self@));
        }
        out
    }

    /// Whether the key names a Namespace object.
    pub fn is_namespace(&self) -> (r: bool)
        ensures
            r == names_namespace(self@),
    {
        text_eq(self.api_version.as_str(), "v1") && text_eq(self.kind.as_str(), "Namespace")
    }
}

/// The text of a key.
pub open spec fn key_text(key: KeyView) -> Seq<char> {
    match key.namespace {
        Some(namespace) => key.kind + " "@ + namespace + "/"@ + key.name + " ("@ + key.cluster
            + ")"@,
        None => key.kind + " "@ + key.name + " ("@ + key.cluster + ")"@,
    }
}

/// The key is that of a `v1` `Namespace`.
pub open spec fn names_namespace(key: KeyView) -> bool {
    key.api_version == "v1"@ && key.kind == "Namespace"@
}

impl PartialEq for KubernetesKey {
    fn eq(&self, other: &KubernetesKey) -> (r: bool) {
        self.same(other)
    }
}

impl PartialEqSpecImpl for KubernetesKey {
    open spec fn obeys_eq_spec() -> bool {
        true
    }

    open spec fn eq_spec(&self, other: &KubernetesKey) -> bool {
        self@ == other@
    }
}

/// A filter on keys: each field that is set must equal the key's field.
#[derive(Debug, Clone)]
pub struct PartialKey {
    pub api_version: Option<String>,
    pub cluster: Option<String>,
    pub kind: Option<String>,
    pub name: Option<String>,
    pub namespace: Option<String>,
}

/// The mathematical value of a filter.
pub struct PartialKeyView {
    pub api_version: Option<Seq<char>>,
    pub cluster: Option<Seq<char>>,
    pub kind: Option<Seq<char>>,
    pub name: Option<Seq<char>>,
    pub namespace: Option<Seq<char>>,
}

impl View for PartialKey {
    type V = PartialKeyView;

    open spec fn view(&self) -> PartialKeyView {
        PartialKeyView {
            api_version: optional_text(self.api_version),
            cluster: optional_text(self.cluster),
            kind: optional_text(self.kind),
            name: optional_text(self.name),
            namespace: optional_text(self.namespace),
        }
    }
}

/// A filter field admits a value when it is not set or equals the value.
pub open spec fn field_admits(filter: Option<Seq<char>>, value: Seq<char>) -> bool {
    filter matches Some(wanted) ==> wanted == value
}

/// The filter admits the key: every field that is set equals the key's field.
pub open spec fn filter_admits(key: KeyView, filter: PartialKeyView) -> bool {
    &&& field_admits(filter.api_version, key.api_version)
    &&& field_admits(filter.cluster, key.cluster)
    &&& field_admits(filter.kind, key.kind)
    &&& field_admits(filter.name, key.name)
    &&& (filter.namespace is Some ==> key.namespace == filter.namespace)
}

/// Whether one field of a filter admits a value.
fn admits(filter: &Option<String>, value: &String) -> (r: bool)
    ensures
        r == field_admits(optional_text(*filter), value@),
{
    match filter {
        Some(wanted) => *wanted == *value,
        None => true,
    }
}

/// Whether the filter admits the key. A field that is not set excludes nothing.
pub fn key_matches_filter(key: &KubernetesKey, filter: &PartialKey) -> (r: bool)
    ensures
        r == filter_admits(key@, filter@),
{
    if !admits(&filter.api_version, &key.api_version) {
        return false;
    }
    if !admits(&filter.cluster, &key.cluster) {
        return false;
    }
    if !admits(&filter.kind, &key.kind) {
        return false;
    }
    if !admits(&filter.name, &key.name) {
        return false;
    }
    if filter.namespace.is_some() {
        if !same_optional_text(&key.namespace, &filter.namespace) {
            return false;
        }
    }
    true
}

/// A key whose every part but the namespace must be given.
#[derive(Debug, Clone)]
pub struct FullKey {
    pub api_version: String,
    pub cluster: String,
    pub kind: String,
    pub name: String,
    pub namespace: Option<String>,
}

impl FullKey {
    /// The key with these parts.
    pub fn into_key(self) -> (r: KubernetesKey)
        ensures
            r@ == (KeyView {
                name: self.name@,
                kind: self.kind@,
                api_version: self.api_version@,
                namespace: optional_text(self.namespace),
                cluster: self.cluster@,
            }),
    {
        KubernetesKey {
            api_version: self.api_version,
            cluster: self.cluster,
            kind: self.kind,
            name: self.name,
            namespace: self.namespace,
        }
    }
}

/// The namespace as the database holds it: the empty text for a key without one.
pub fn namespace_or_default(namespace: Option<String>) -> (r: String)
    ensures
        r@ == match namespace {
            Some(text) => text@,
            None => Seq::<char>::empty(),
        },
{
    match namespace {
        Some(text) => text,
        None => String::new(),
    }
}

/// A filter with no field set admits every key.
pub proof fn lemma_unset_filter_admits(key: KeyView)
    ensures
        filter_admits(
            key,
            PartialKeyView {
                api_version: None,
                cluster: None,
                kind: None,
                name: None,
                namespace: None,
            },
        ),
{
}

/// A field that is not set excludes no key: setting it to nothing admits
/// every key that the filter admitted with it.
pub proof fn lemma_unset_field_excludes_nothing(key: KeyView, filter: PartialKeyView)
    requires
        filter_admits(key, filter),
    ensures
        filter_admits(key, PartialKeyView { api_version: None, ..filter }),
        filter_admits(key, PartialKeyView { cluster: None, ..filter }),
        filter_admits(key, PartialKeyView { kind: None, ..filter }),
        filter_admits(key, PartialKeyView { name: None, ..filter }),
        filter_admits(key, PartialKeyView { namespace: None, ..filter }),
{
}

} // verus!
