//! File ingestion, as far as it decides: what a folder stands for, which
//! manifests a document may hold, and what the operator's answer means.
use crate::resources::{
    text_member, with_text_member, DynamicObject, DynamicObjectView, TypeMetaView,
};
use crate::sisyphus_yaml::KubernetesYaml;
use crate::text::{concat2, lowercased, owned, text_eq, to_lowercase, trim, trimmed};
use crate::views::{lemma_views_tail, optional, views};
use vstd::prelude::*;

verus! {

/// What a folder of the monitored directory stands for: `global` holds the
/// objects of the clusters themselves and may hold objects of any namespace;
/// every other folder is the namespace of its name.
pub fn folder_scope(name: &str) -> (r: (bool, Option<String>))
    ensures
        r.0 == (name@ == "global"@),
        optional(r.1) == if name@ == "global"@ {
            None
        } else {
            Some(name@)
        },
{
    if text_eq(name, "global") {
        (true, None)
    } else {
        (false, Some(owned(name)))
    }
}

/// A manifest that a document of a namespace folder may not hold: it names a
/// namespace of its own.
#[derive(Debug, Clone)]
pub struct NamespaceSpecified {
    /// The API version and the kind of the manifest, or `unknown`.
    pub types: String,
    /// The name of the manifest.
    pub name: String,
    /// The name of the document that holds it.
    pub document: String,
    /// The namespace that it names.
    pub namespace: String,
}

impl NamespaceSpecified {
    /// The error as a sentence, for the file at `path`.
    pub fn message(&self, path: &str) -> (r: String)
        ensures
            r@ == self.types@ + "/"@ + self.name@ + " referenced by "@ + self.document@ + " in "@
                + path@ + " should not specify namespace "@ + self.namespace@,
    {
        let mut out = concat2(self.types.as_str(), "/");
        out.append(self.name.as_str());
        out.append(" referenced by ");
        out.append(self.document.as_str());
        out.append(" in ");
        out.append(path);
        out.append(" should not specify namespace ");
        out.append(self.namespace.as_str());
        out
    }
}

/// The type of a manifest for a message.
pub open spec fn shown_types(types: Option<TypeMetaView>) -> Seq<char> {
    match types {
        Some(t) => t.api_version + "/"@ + t.kind,
        None => "unknown"@,
    }
}

/// A manifest in the namespace of its folder, where it names none itself.
pub open spec fn placed(object: DynamicObjectView, namespace: Option<Seq<char>>) -> DynamicObjectView {
    DynamicObjectView {
        types: object.types,
        metadata: with_text_member(object.metadata, "namespace"@, namespace),
        data: object.data,
    }
}

/// The index of the first manifest from `at` on that names a namespace of its
/// own, or the number of manifests.
pub open spec fn first_placed(objects: Seq<DynamicObjectView>, at: int) -> int
    decreases objects.len() - at,
{
    if at < 0 || at >= objects.len() {
        objects.len() as int
    } else if text_member(objects[at].metadata, "namespace"@) is Some {
        at
    } else {
        first_placed(objects, at + 1)
    }
}

/// The manifests of a document once its source files are read: those of the
/// document and then those of the files, each in the namespace of the folder
/// where it names none itself.
pub open spec fn adopted_objects(
    objects: Seq<DynamicObjectView>,
    namespace: Option<Seq<char>>,
) -> Seq<DynamicObjectView> {
    Seq::new(
        objects.len(),
        |i: int|
            if text_member(objects[i].metadata, "namespace"@) is Some {
                objects[i]
            } else {
                placed(objects[i], namespace)
            },
    )
}

/// Takes the manifests of its source files into a document. On success the
/// document names no source file any more and holds its own manifests and
/// then those of the files, each in the namespace of the folder where it
/// names none itself. Where not every namespace is allowed, the first
/// manifest that names a namespace of its own is an error.
pub fn adopt_objects(
    v: &mut KubernetesYaml,
    extra: Vec<DynamicObject>,
    allow_any_namespace: bool,
    namespace: &Option<String>,
) -> (r: Result<(), NamespaceSpecified>)
    ensures
        ({
            let all = views(old(v).objects@) + views(extra@);
            let at = first_placed(all, 0);
            if !allow_any_namespace && at < all.len() {
                &&& r matches Err(e)
                &&& e.types@ == shown_types(all[at].types)
                &&& e.name@ == crate::kubernetes_rendering::name_any(all[at].metadata)
                &&& e.document@ == old(v).metadata.name@
                &&& Some(e.namespace@) == text_member(all[at].metadata, "namespace"@)
            } else {
                &&& r is Ok
                &&& final(v).sources@.len() == 0
                &&& views(final(v).objects@) == adopted_objects(all, optional(*namespace))
                &&& final(v).metadata == old(v).metadata
                &&& final(v).clusters == old(v).clusters
                &&& final(v).api_version == old(v).api_version
            }
        }),
{
    let ghost all = views(v.objects@) + views(extra@);
    let mut incoming = extra;
    let mut pending: Vec<DynamicObject> = Vec::new();
    std::mem::swap(&mut pending, &mut v.objects);
    proof {
        assert(views(pending@) =~= views(old(v).objects@));
    }
    let ghost own = pending@;
    pending.append(&mut incoming);
    proof {
        assert(views(pending@) =~= all);
    }
    v.sources = Vec::new();
    let mut done: Vec<DynamicObject> = Vec::new();
    let ghost mut at: int = 0;
    while pending.len() > 0
        invariant
            0 <= at <= all.len(),
            all == views(old(v).objects@) + views(extra@),
            views(pending@) == all.subrange(at, all.len() as int),
            done@.len() == at,
            v.sources@.len() == 0,
            v.metadata == old(v).metadata,
            v.clusters == old(v).clusters,
            v.api_version == old(v).api_version,
            allow_any_namespace || first_placed(all, 0) == first_placed(all, at),
            forall|j: int|
                0 <= j < at ==> (#[trigger] done@[j])@ == adopted_objects(
                    all,
                    optional(*namespace),
                )[j],
        decreases pending@.len(),
    {
        let ghost rest = pending@;
        proof {
            assert(views(rest).len() == rest.len());
            assert(views(rest)[0] == all[at]);
            lemma_views_tail(rest);
            assert(all.subrange(at, all.len() as int).drop_first() =~= all.subrange(
                at + 1,
                all.len() as int,
            ));
        }
        let object = pending.remove(0);
        let mut object = object;
        match object.metadata.namespace() {
            Some(own_namespace) => {
                if !allow_any_namespace {
                    let types = match &object.types {
                        Some(t) => {
                            let mut out = concat2(t.api_version.as_str(), "/");
                            out.append(t.kind.as_str());
                            out
                        },
                        None => owned("unknown"),
                    };
                    let name = match object.metadata.text("name") {
                        Some(name) => name,
                        None => match object.metadata.text("generateName") {
                            Some(name) => name,
                            None => String::new(),
                        },
                    };
                    return Err(
                        NamespaceSpecified {
                            types,
                            name,
                            document: v.metadata.name.clone(),
                            namespace: own_namespace,
                        },
                    );
                }
            },
            None => {
                object.metadata.set_text("namespace", crate::views::copy_optional(namespace));
            },
        }
        let ghost earlier = done@;
        done.push(object);
        proof {
            assert forall|j: int| 0 <= j <= at implies (#[trigger] done@[j])@ == adopted_objects(
                all,
                optional(*namespace),
            )[j] by {
                if j < at {
                    assert(done@[j] == earlier[j]);
                }
            }
            at = at + 1;
        }
    }
    proof {
        assert(views(done@) =~= adopted_objects(all, optional(*namespace)));
        if !allow_any_namespace {
            assert(first_placed(all, 0) == all.len());
        }
    }
    v.objects = done;
    Ok(())
}

/// Whether a manifest is an empty document, which is passed over: it has no
/// type header and no metadata.
pub fn is_blank(object: &DynamicObject) -> (r: bool)
    ensures
        r == (object@.types is None && object@.metadata.len() == 0),
{
    proof {
        assert(object@.metadata.len() == object.metadata.fields@.len());
    }
    object.types.is_none() && object.metadata.fields.len() == 0
}

/// Whether the operator's answer allows the command to go on: only `y`, in
/// either case and with white space around it, does.
pub fn ask_for_user_permission(response: &str) -> (r: bool)
    ensures
        r == (lowercased(trimmed(response@)) == "y"@),
{
    let answer = to_lowercase(trim(response).as_str());
    text_eq(answer.as_str(), "y")
}

} // verus!
