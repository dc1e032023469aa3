//! Secret scrubbing: no secret material goes through the database or a diff.
use crate::assoc::{has_key, value_of, with_entry, without_key};
use crate::json::{
    lemma_view_children, member, members_view, set_member, take_member, Json, JsonView,
};
use crate::merge::{duplicate_members, overlaid};
use crate::resources::{is_secret, DynamicObject, DynamicObjectView};
use crate::text::{owned, text_eq};
use vstd::prelude::*;

verus! {

/// Why a secret could not be scrubbed.
#[derive(Debug, Clone, Copy, PartialEq, Eq, Structural)]
pub enum SecretError {
    /// The body of the secret, or its `data`, is not an object.
    DataNotObject,
}

impl SecretError {
    /// The error as a sentence.
    pub fn message(&self) -> (r: String)
        ensures
            r@ == "data must be an object"@,
    {
        owned("data must be an object")
    }
}

/// What stands in the place of every value that is not known from before.
pub open spec fn placeholder() -> JsonView {
    JsonView::String("c29tZSBzdHVmZg=="@)
}

/// The members of `data` of an earlier version of the secret, where there is
/// such a version and its `data` is an object.
pub open spec fn prior_data(from: Option<DynamicObjectView>) -> Option<
    Seq<(Seq<char>, JsonView)>,
> {
    match from {
        Some(object) => match object.data {
            JsonView::Object(body) => match value_of(body, "data"@) {
                Some(JsonView::Object(data)) => Some(data),
                _ => None,
            },
            _ => None,
        },
        None => None,
    }
}

/// The members with the placeholder for every value whose key `known` lacks.
pub open spec fn masked(
    members: Seq<(Seq<char>, JsonView)>,
    known: Seq<(Seq<char>, JsonView)>,
) -> Seq<(Seq<char>, JsonView)> {
    Seq::new(
        members.len(),
        |i: int|
            (
                members[i].0,
                if has_key(known, members[i].0) {
                    members[i].1
                } else {
                    placeholder()
                },
            ),
    )
}

/// The members without the keys of `known` from `at` on.
pub open spec fn without_keys(
    members: Seq<(Seq<char>, JsonView)>,
    known: Seq<(Seq<char>, JsonView)>,
    at: int,
) -> Seq<(Seq<char>, JsonView)>
    decreases known.len() - at,
{
    if at < 0 || at >= known.len() {
        members
    } else {
        without_keys(without_key(members, known[at].0), known, at + 1)
    }
}

/// The body of a secret with its `data` scrubbed. With an earlier version,
/// every key of the earlier `data` is there with its earlier value, and every
/// other key has the placeholder. Without one, every value of `data` is the
/// placeholder.
pub open spec fn scrubbed_data(
    body: Seq<(Seq<char>, JsonView)>,
    prior: Option<Seq<(Seq<char>, JsonView)>>,
) -> Result<Seq<(Seq<char>, JsonView)>, SecretError> {
    match prior {
        Some(known) => match value_of(body, "data"@) {
            None => Ok(
                with_entry(
                    body,
                    "data"@,
                    JsonView::Object(masked(overlaid(Seq::empty(), known, 0), known)),
                ),
            ),
            Some(JsonView::Object(data)) => Ok(
                with_entry(
                    body,
                    "data"@,
                    JsonView::Object(masked(overlaid(data, known, 0), known)),
                ),
            ),
            Some(_) => Err(SecretError::DataNotObject),
        },
        None => match value_of(body, "data"@) {
            Some(JsonView::Object(data)) => Ok(
                with_entry(body, "data"@, JsonView::Object(masked(data, Seq::empty()))),
            ),
            _ => Ok(body),
        },
    }
}

/// The body of a secret with its `stringData` scrubbed: the keys that the
/// earlier `data` has are taken out, and `stringData` itself where nothing is
/// left of it.
pub open spec fn scrubbed_strings(
    body: Seq<(Seq<char>, JsonView)>,
    prior: Option<Seq<(Seq<char>, JsonView)>>,
) -> Seq<(Seq<char>, JsonView)> {
    match value_of(body, "stringData"@) {
        Some(JsonView::Object(strings)) => {
            let known = match prior {
                Some(data) => data,
                None => Seq::empty(),
            };
            let left = without_keys(strings, known, 0);
            if left.len() == 0 {
                without_key(body, "stringData"@)
            } else {
                with_entry(body, "stringData"@, JsonView::Object(left))
            }
        },
        _ => body,
    }
}

/// The object as it may be stored and shown: anything but a `v1` `Secret` as
/// it is, a secret with its `data` and its `stringData` scrubbed.
pub open spec fn scrubbed(from: Option<DynamicObjectView>, to: DynamicObjectView) -> Result<
    DynamicObjectView,
    SecretError,
> {
    if !is_secret(to) {
        Ok(to)
    } else {
        match to.data {
            JsonView::Object(body) => match scrubbed_data(body, prior_data(from)) {
                Err(e) => Err(e),
                Ok(with_data) => Ok(
                    DynamicObjectView {
                        types: to.types,
                        metadata: to.metadata,
                        data: JsonView::Object(scrubbed_strings(with_data, prior_data(from))),
                    },
                ),
            },
            _ => Err(SecretError::DataNotObject),
        }
    }
}

/// The view of an optional borrowed object.
pub open spec fn borrowed_object(object: Option<&DynamicObject>) -> Option<DynamicObjectView> {
    match object {
        Some(o) => Some(o@),
        None => None,
    }
}

/// The placeholder as a document.
fn placeholder_value() -> (r: Json)
    ensures
        r@ == placeholder(),
{
    Json::String(owned("c29tZSBzdHVmZg=="))
}

/// Puts the placeholder in the place of every value whose key `known` lacks.
fn mask(members: &mut Vec<(String, Json)>, known: &Vec<(String, Json)>)
    ensures
        members_view(final(members)@) == masked(
            members_view(old(members)@),
            members_view(known@),
        ),
{
    let ghost before = members_view(members@);
    let mut out: Vec<(String, Json)> = Vec::new();
    let mut i: usize = 0;
    while i < members.len()
        invariant
            0 <= i <= members@.len(),
            before == members_view(members@),
            out@.len() == i,
            forall|j: int|
                0 <= j < i ==> (#[trigger] members_view(out@)[j]) == masked(
                    before,
                    members_view(known@),
                )[j],
        decreases members@.len() - i,
    {
        let key = members[i].0.clone();
        let value = if member(known, key.as_str()).is_some() {
            members[i].1.duplicate()
        } else {
            placeholder_value()
        };
        proof {
            assert(before[i as int] == (members@[i as int].0@, members@[i as int].1@));
        }
        let ghost earlier = members_view(out@);
        out.push((key, value));
        proof {
            assert forall|j: int| 0 <= j <= i implies (#[trigger] members_view(out@)[j])
                == masked(before, members_view(known@))[j] by {
                if j < i {
                    assert(members_view(out@)[j] == earlier[j]);
                }
            }
        }
        i += 1;
    }
    proof {
        assert(members_view(out@) =~= masked(before, members_view(known@)));
    }
    *members = out;
}

/// Binds every member of `known` in `members`.
fn overlay(members: &mut Vec<(String, Json)>, known: &Vec<(String, Json)>)
    ensures
        members_view(final(members)@) == overlaid(
            members_view(old(members)@),
            members_view(known@),
            0,
        ),
{
    let ghost rest = members_view(known@);
    let ghost base = members_view(members@);
    let mut j: usize = 0;
    while j < known.len()
        invariant
            0 <= j <= known@.len(),
            rest == members_view(known@),
            overlaid(base, rest, 0) == overlaid(members_view(members@), rest, j as int),
        decreases known@.len() - j,
    {
        proof {
            assert(rest[j as int] == (known@[j as int].0@, known@[j as int].1@));
        }
        let value = known[j].1.duplicate();
        set_member(members, known[j].0.clone(), value);
        j += 1;
    }
}

/// Takes the keys of `known` out of `members`.
fn drop_keys(members: &mut Vec<(String, Json)>, known: &Vec<(String, Json)>)
    ensures
        members_view(final(members)@) == without_keys(
            members_view(old(members)@),
            members_view(known@),
            0,
        ),
{
    let ghost rest = members_view(known@);
    let ghost base = members_view(members@);
    let mut j: usize = 0;
    while j < known.len()
        invariant
            0 <= j <= known@.len(),
            rest == members_view(known@),
            without_keys(base, rest, 0) == without_keys(members_view(members@), rest, j as int),
        decreases known@.len() - j,
    {
        proof {
            assert(rest[j as int].0 == known@[j as int].0@);
        }
        let _ = take_member(members, known[j].0.as_str());
        j += 1;
    }
}

/// The members of `data` of an earlier version of the secret.
fn prior_members(from: Option<&DynamicObject>) -> (r: Option<Vec<(String, Json)>>)
    ensures
        match prior_data(borrowed_object(from)) {
            Some(data) => r matches Some(found) && members_view(found@) == data,
            None => r is None,
        },
{
    match from {
        Some(object) => {
            proof {
                lemma_view_children(object.data);
            }
            match &object.data {
                Json::Object(body) => match member(body, "data") {
                    Some(found) => {
                        proof {
                            lemma_view_children(*found);
                        }
                        match found {
                            Json::Object(data) => Some(duplicate_members(data)),
                            _ => None,
                        }
                    },
                    None => None,
                },
                _ => None,
            }
        },
        None => None,
    }
}

/// Scrubs the body of a secret.
fn scrub_body(body: &mut Vec<(String, Json)>, prior: &Option<Vec<(String, Json)>>) -> (r: Result<
    (),
    SecretError,
>)
    ensures
        match scrubbed_data(members_view(old(body)@), optional_members(*prior)) {
            Ok(with_data) => r is Ok && members_view(final(body)@) == scrubbed_strings(
                with_data,
                optional_members(*prior),
            ),
            Err(e) => r == Err::<(), SecretError>(e) && final(body)@ == old(body)@,
        },
{
    let ghost start = members_view(body@);
    match prior {
        Some(known) => {
            let mut data: Vec<(String, Json)> = match member(body, "data") {
                None => Vec::new(),
                Some(found) => {
                    proof {
                        lemma_view_children(*found);
                    }
                    match found {
                        Json::Object(members) => duplicate_members(members),
                        _ => {
                            return Err(SecretError::DataNotObject);
                        },
                    }
                },
            };
            proof {
                if !has_key(start, "data"@) {
                    assert(members_view(data@) =~= Seq::empty());
                }
            }
            overlay(&mut data, known);
            mask(&mut data, known);
            let document = Json::Object(data);
            proof {
                lemma_view_children(document);
            }
            set_member(body, owned("data"), document);
        },
        None => {
            let found = match member(body, "data") {
                Some(found) => {
                    proof {
                        lemma_view_children(*found);
                    }
                    match found {
                        Json::Object(members) => Some(duplicate_members(members)),
                        _ => None,
                    }
                },
                None => None,
            };
            match found {
                Some(members) => {
                    let mut data = members;
                    let nothing: Vec<(String, Json)> = Vec::new();
                    proof {
                        assert(members_view(nothing@) =~= Seq::empty());
                    }
                    mask(&mut data, &nothing);
                    let document = Json::Object(data);
                    proof {
                        lemma_view_children(document);
                    }
                    set_member(body, owned("data"), document);
                },
                None => {},
            }
        },
    }
    let strings = match member(body, "stringData") {
        Some(found) => {
            proof {
                lemma_view_children(*found);
            }
            match found {
                Json::Object(members) => Some(duplicate_members(members)),
                _ => None,
            }
        },
        None => None,
    };
    match strings {
        Some(members) => {
            let mut left = members;
            match prior {
                Some(known) => {
                    drop_keys(&mut left, known);
                },
                None => {
                    let nothing: Vec<(String, Json)> = Vec::new();
                    proof {
                        assert(members_view(nothing@) =~= Seq::empty());
                    }
                    drop_keys(&mut left, &nothing);
                },
            }
            if left.len() == 0 {
                let _ = take_member(body, "stringData");
            } else {
                let document = Json::Object(left);
                proof {
                    lemma_view_children(document);
                }
                set_member(body, owned("stringData"), document);
            }
        },
        None => {},
    }
    Ok(())
}

/// The views of optional members.
pub open spec fn optional_members(members: Option<Vec<(String, Json)>>) -> Option<
    Seq<(Seq<char>, JsonView)>,
> {
    match members {
        Some(m) => Some(members_view(m@)),
        None => None,
    }
}

/// Scrubs a secret before it is stored or shown. `from` is the version that
/// the database holds, if any. An object that is no `v1` `Secret` is left as
/// it is; on an error the object is left as it is too.
pub fn munge_secrets(from: Option<&DynamicObject>, to: &mut DynamicObject) -> (r: Result<
    (),
    SecretError,
>)
    ensures
        match scrubbed(borrowed_object(from), old(to)@) {
            Ok(object) => r is Ok && final(to)@ == object,
            Err(e) => r == Err::<(), SecretError>(e) && final(to)@ == old(to)@,
        },
{
    let secret = match &to.types {
        Some(types) => text_eq(types.api_version.as_str(), "v1") && text_eq(
            types.kind.as_str(),
            "Secret",
        ),
        None => false,
    };
    if !secret {
        return Ok(());
    }
    let prior = prior_members(from);
    proof {
        lemma_view_children(to.data);
    }
    let mut body = match &to.data {
        Json::Object(members) => duplicate_members(members),
        _ => {
            return Err(SecretError::DataNotObject);
        },
    };
    match scrub_body(&mut body, &prior) {
        Err(e) => Err(e),
        Ok(_) => {
            let document = Json::Object(body);
            proof {
                lemma_view_children(document);
            }
            to.data = document;
            Ok(())
        },
    }
}

} // verus!
