//! The managed-field merge: the wanted document rewritten so that every field
//! this manager does not own keeps the value that the live document has.
use crate::assoc::{has_key, value_of, with_entry, without_key};
use crate::codec::{parse_object, parsed_object};
use crate::json::{
    items_view, lemma_view_children, member, members_view, set_member, take_member, well_formed,
    Json, JsonView,
};
use crate::text::{
    concat2, decimal, first_index_of, index_text, join, joined, lemma_first_index_of,
    lemma_texts_pop, lemma_texts_push, owned, split_once, texts,
};
use vstd::prelude::*;

verus! {

/// Why a managed-field tree could not be read.
#[derive(Debug, Clone)]
pub enum MergeError {
    /// An array's ownership entry has no `:` in its key.
    UnknownSelector(String),
    /// An array's ownership entry is of another kind than `k`.
    UnknownSelectorType(String),
    /// The body of a `k:` entry is not a JSON object.
    InvalidSelector(String),
}

/// The mathematical value of a `MergeError`.
pub enum MergeErrorView {
    UnknownSelector(Seq<char>),
    UnknownSelectorType(Seq<char>),
    InvalidSelector(Seq<char>),
}

impl View for MergeError {
    type V = MergeErrorView;

    open spec fn view(&self) -> MergeErrorView {
        match self {
            MergeError::UnknownSelector(key) => MergeErrorView::UnknownSelector(key@),
            MergeError::UnknownSelectorType(kind) => MergeErrorView::UnknownSelectorType(kind@),
            MergeError::InvalidSelector(body) => MergeErrorView::InvalidSelector(body@),
        }
    }
}

impl MergeError {
    /// The error as a sentence.
    pub fn message(&self) -> (r: String)
        ensures
            r@ == match self@ {
                MergeErrorView::UnknownSelector(key) => "Unknown selector "@ + key,
                MergeErrorView::UnknownSelectorType(kind) => "Unknown type of selector "@ + kind,
                MergeErrorView::InvalidSelector(body) => "Invalid selector "@ + body,
            },
    {
        match self {
            MergeError::UnknownSelector(key) => concat2("Unknown selector ", key.as_str()),
            MergeError::UnknownSelectorType(kind) => concat2(
                "Unknown type of selector ",
                kind.as_str(),
            ),
            MergeError::InvalidSelector(body) => concat2("Invalid selector ", body.as_str()),
        }
    }
}

/// One `k:` entry of an array's ownership: the fields that identify an
/// element, and what is owned inside that element.
#[derive(Debug, Clone)]
pub struct Selector {
    pub matcher: Vec<(String, Json)>,
    pub data: Json,
}

/// The mathematical value of a `Selector`.
pub struct SelectorView {
    pub matcher: Seq<(Seq<char>, JsonView)>,
    pub data: JsonView,
}

impl View for Selector {
    type V = SelectorView;

    open spec fn view(&self) -> SelectorView {
        SelectorView { matcher: members_view(self.matcher@), data: self.data@ }
    }
}

/// The views of a vector of selectors.
pub open spec fn selectors_view(selectors: Seq<Selector>) -> Seq<SelectorView> {
    Seq::new(selectors.len(), |i: int| selectors[i]@)
}

/// What a merge gives: the merged document and the removal paths so far, or
/// the first error met.
pub type Outcome = Result<(JsonView, Seq<Seq<char>>), MergeErrorView>;

/// The ownership tree says that the whole subtree is owned: it is an empty
/// object, or it holds the self-marker `.`.
pub open spec fn owns_entirely(managed: JsonView) -> bool {
    managed matches JsonView::Object(entries) && (entries.len() == 0 || has_key(entries, "."@))
}

/// The member `key`, or `null` where there is none.
pub open spec fn member_or_null(members: Seq<(Seq<char>, JsonView)>, key: Seq<char>) -> JsonView {
    match value_of(members, key) {
        Some(value) => value,
        None => JsonView::Null,
    }
}

/// What is owned inside the field `key`: the entry `f:` + `key` of the
/// ownership tree, or `null`.
pub open spec fn field_ownership(managed: JsonView, key: Seq<char>) -> JsonView {
    match managed {
        JsonView::Object(entries) => member_or_null(entries, "f:"@ + key),
        _ => JsonView::Null,
    }
}

/// The removal path of the element `index` below `path`.
pub open spec fn removal_path(path: Seq<Seq<char>>, index: nat) -> Seq<char> {
    joined(path.push(decimal(index)), "/"@)
}

/// The selectors of the ownership entries from `from` on, in order, or the
/// first error: a key without `:`, a kind other than `k`, a body that is no
/// JSON object.
pub open spec fn selectors_from(entries: Seq<(Seq<char>, JsonView)>, from: int) -> Result<
    Seq<SelectorView>,
    MergeErrorView,
>
    decreases entries.len() - from,
{
    if from < 0 || from >= entries.len() {
        Ok(Seq::empty())
    } else {
        let key = entries[from].0;
        let colon = first_index_of(key, ':');
        if colon >= key.len() {
            Err(MergeErrorView::UnknownSelector(key))
        } else if key.subrange(0, colon) != "k"@ {
            Err(MergeErrorView::UnknownSelectorType(key.subrange(0, colon)))
        } else {
            let body = key.subrange(colon + 1, key.len() as int);
            match parsed_object(body) {
                None => Err(MergeErrorView::InvalidSelector(body)),
                Some(matcher) => match selectors_from(entries, from + 1) {
                    Err(e) => Err(e),
                    Ok(rest) => Ok(
                        seq![SelectorView { matcher, data: entries[from].1 }] + rest,
                    ),
                },
            }
        }
    }
}

/// Every field of the matcher is a member of the element with an equal value.
pub open spec fn selector_matches(matcher: Seq<(Seq<char>, JsonView)>, element: JsonView) -> bool {
    forall|i: int|
        0 <= i < matcher.len() ==> {
            &&& element is Object
            &&& value_of(element->Object_0, (#[trigger] matcher[i]).0) == Some(matcher[i].1)
        }
}

/// The index of the first selector from `from` on that is unused and matches
/// the element, or the number of selectors. A selector that `used` does not
/// reach is unused.
pub open spec fn first_match(
    selectors: Seq<SelectorView>,
    used: Seq<bool>,
    element: JsonView,
    from: int,
) -> int
    decreases selectors.len() - from,
{
    if from < 0 || from >= selectors.len() {
        selectors.len() as int
    } else if !(from < used.len() && used[from]) && selector_matches(
        selectors[from].matcher,
        element,
    ) {
        from
    } else {
        first_match(selectors, used, element, from + 1)
    }
}

/// Some selector, used or not, matches the element: the element is one that
/// this manager owns.
pub open spec fn claimed(selectors: Seq<SelectorView>, element: JsonView) -> bool {
    exists|i: int|
        0 <= i < selectors.len() && selector_matches((#[trigger] selectors[i]).matcher, element)
}

/// `copy` with the members of `rest` from `from` on bound in order.
pub open spec fn overlaid(
    copy: Seq<(Seq<char>, JsonView)>,
    rest: Seq<(Seq<char>, JsonView)>,
    from: int,
) -> Seq<(Seq<char>, JsonView)>
    decreases rest.len() - from,
{
    if from < 0 || from >= rest.len() {
        copy
    } else {
        overlaid(with_entry(copy, rest[from].0, rest[from].1), rest, from + 1)
    }
}

/// The merge of `want` into `have` under the ownership tree `managed`, at
/// `path`, with the removal paths collected so far.
///
/// - A string that is wanted as a number becomes the number's text.
/// - A wanted `null` clears what `managed` says something of, and keeps what
///   it is silent on.
/// - What is owned entirely is taken as wanted.
/// - Two arrays are merged place by place, two objects member by member.
/// - Anything else is taken as wanted.
pub open spec fn merged(
    have: JsonView,
    want: JsonView,
    managed: JsonView,
    path: Seq<Seq<char>>,
    removals: Seq<Seq<char>>,
) -> Outcome
    decreases have, 0nat,
{
    match (have, want) {
        (JsonView::String(_), JsonView::Number(text)) => Ok((JsonView::String(text), removals)),
        (_, JsonView::Null) => if managed is Null {
            Ok((have, removals))
        } else {
            Ok((JsonView::Null, removals))
        },
        (JsonView::Array(have_items), JsonView::Array(want_items)) => if owns_entirely(managed) {
            Ok((want, removals))
        } else {
            match managed {
                JsonView::Object(entries) => match selectors_from(entries, 0) {
                    Err(e) => Err(e),
                    Ok(selectors) => merged_selected(
                        have_items,
                        want_items,
                        selectors,
                        Seq::new(selectors.len(), |i: int| false),
                        path,
                        0,
                        Seq::empty(),
                        removals,
                    ),
                },
                JsonView::Null => merged_positional(
                    have_items,
                    want_items,
                    path,
                    0,
                    Seq::empty(),
                    removals,
                ),
                _ => Ok((want, removals)),
            }
        },
        (JsonView::Object(have_members), JsonView::Object(want_members)) => if owns_entirely(
            managed,
        ) {
            Ok((want, removals))
        } else if managed is Object || managed is Null {
            merged_members(have_members, 0, want_members, managed, path, Seq::empty(), removals)
        } else {
            Ok((want, removals))
        },
        _ => Ok((want, removals)),
    }
}

/// The merge of two objects from the member `at` of `have` on: each member of
/// `have` is merged with the member of that key that is left in `remaining`
/// (`null` where there is none) and bound in `copy`; what is then left of
/// `remaining` is bound on top.
pub open spec fn merged_members(
    have: Seq<(Seq<char>, JsonView)>,
    at: int,
    remaining: Seq<(Seq<char>, JsonView)>,
    managed: JsonView,
    path: Seq<Seq<char>>,
    copy: Seq<(Seq<char>, JsonView)>,
    removals: Seq<Seq<char>>,
) -> Outcome
    decreases have, have.len() - at,
{
    if at < 0 || at >= have.len() {
        Ok((JsonView::Object(overlaid(copy, remaining, 0)), removals))
    } else {
        let key = have[at].0;
        match merged(
            have[at].1,
            member_or_null(remaining, key),
            field_ownership(managed, key),
            path.push(key),
            removals,
        ) {
            Err(e) => Err(e),
            Ok((value, collected)) => merged_members(
                have,
                at + 1,
                without_key(remaining, key),
                managed,
                path,
                with_entry(copy, key, value),
                collected,
            ),
        }
    }
}

/// The merge of two arrays place by place, from place `at` on, where nothing
/// is owned: a wanted `null` over a live value that is not `null` gives a
/// removal path and no element; what `want` has beyond `have` is taken as it is.
pub open spec fn merged_positional(
    have: Seq<JsonView>,
    want: Seq<JsonView>,
    path: Seq<Seq<char>>,
    at: int,
    items: Seq<JsonView>,
    removals: Seq<Seq<char>>,
) -> Outcome
    decreases have, want.len() - at,
{
    if at < 0 || at >= want.len() {
        Ok((JsonView::Array(items), removals))
    } else if at >= have.len() {
        merged_positional(have, want, path, at + 1, items.push(want[at]), removals)
    } else if want[at] is Null {
        if have[at] is Null {
            merged_positional(have, want, path, at + 1, items.push(JsonView::Null), removals)
        } else {
            merged_positional(
                have,
                want,
                path,
                at + 1,
                items,
                removals.push(removal_path(path, at as nat)),
            )
        }
    } else {
        match merged(have[at], want[at], JsonView::Null, path.push(decimal(at as nat)), removals) {
            Err(e) => Err(e),
            Ok((value, collected)) => merged_positional(
                have,
                want,
                path,
                at + 1,
                items.push(value),
                collected,
            ),
        }
    }
}

/// The merge of two arrays place by place, from place `at` on, under the
/// selectors of the ownership tree. The wanted element takes the first unused
/// selector that matches it and is merged under what that selector owns. With
/// no such selector it is merged with nothing owned, unless the live element
/// in its place is one that some selector claims: then it is taken as wanted.
/// A wanted `null` with no selector, over a live value that is not `null`,
/// gives a removal path and no element.
pub open spec fn merged_selected(
    have: Seq<JsonView>,
    want: Seq<JsonView>,
    selectors: Seq<SelectorView>,
    used: Seq<bool>,
    path: Seq<Seq<char>>,
    at: int,
    items: Seq<JsonView>,
    removals: Seq<Seq<char>>,
) -> Outcome
    decreases have, want.len() - at,
{
    if at < 0 || at >= want.len() {
        Ok((JsonView::Array(items), removals))
    } else if at >= have.len() {
        merged_selected(have, want, selectors, used, path, at + 1, items.push(want[at]), removals)
    } else {
        let chosen = first_match(selectors, used, want[at], 0);
        let found = chosen < selectors.len();
        let marked = if found {
            used.update(chosen, true)
        } else {
            used
        };
        if want[at] is Null {
            if have[at] is Null || found {
                merged_selected(
                    have,
                    want,
                    selectors,
                    marked,
                    path,
                    at + 1,
                    items.push(JsonView::Null),
                    removals,
                )
            } else {
                merged_selected(
                    have,
                    want,
                    selectors,
                    marked,
                    path,
                    at + 1,
                    items,
                    removals.push(removal_path(path, at as nat)),
                )
            }
        } else if !found && claimed(selectors, have[at]) {
            merged_selected(
                have,
                want,
                selectors,
                marked,
                path,
                at + 1,
                items.push(want[at]),
                removals,
            )
        } else {
            let owned_here = if found {
                selectors[chosen].data
            } else {
                JsonView::Null
            };
            match merged(have[at], want[at], owned_here, path.push(decimal(at as nat)), removals) {
                Err(e) => Err(e),
                Ok((value, collected)) => merged_selected(
                    have,
                    want,
                    selectors,
                    marked,
                    path,
                    at + 1,
                    items.push(value),
                    collected,
                ),
            }
        }
    }
}

/// The outcome that the caller sees is the one that the merge defines: on
/// success the document, the path as it was and the removal paths; on failure
/// the error.
pub open spec fn delivers(
    outcome: Outcome,
    r: Result<Json, MergeError>,
    path_before: Seq<String>,
    path_after: Seq<String>,
    removals_after: Seq<String>,
) -> bool {
    match outcome {
        Ok((value, removals)) => {
            &&& r matches Ok(document)
            &&& document@ == value
            &&& texts(path_after) == texts(path_before)
            &&& texts(removals_after) == removals
        },
        Err(e) => r matches Err(error) && error@ == e,
    }
}

/// Whether the ownership tree says that the whole subtree is owned.
pub fn owns_whole(managed: &Json) -> (r: bool)
    ensures
        r == owns_entirely(managed@),
{
    proof {
        lemma_view_children(*managed);
    }
    match managed {
        Json::Object(entries) => entries.len() == 0 || member(entries, ".").is_some(),
        _ => false,
    }
}

/// A deep copy of the members of an object.
pub fn duplicate_members(members: &Vec<(String, Json)>) -> (r: Vec<(String, Json)>)
    ensures
        members_view(r@) == members_view(members@),
{
    let mut out: Vec<(String, Json)> = Vec::new();
    let mut i: usize = 0;
    while i < members.len()
        invariant
            0 <= i <= members@.len(),
            out@.len() == i,
            forall|j: int|
                0 <= j < i ==> (#[trigger] out@[j]).0@ == members@[j].0@ && out@[j].1@
                    == members@[j].1@,
        decreases members@.len() - i,
    {
        let copy = members[i].1.duplicate();
        out.push((members[i].0.clone(), copy));
        i += 1;
    }
    proof {
        assert(members_view(out@) =~= members_view(members@));
    }
    out
}

/// Reads the `k:` entries of an array's ownership tree, in order.
pub fn build_selectors(entries: &Vec<(String, Json)>) -> (r: Result<Vec<Selector>, MergeError>)
    ensures
        match selectors_from(members_view(entries@), 0) {
            Ok(selectors) => r matches Ok(built) && selectors_view(built@) == selectors,
            Err(e) => r matches Err(error) && error@ == e,
        },
{
    let ghost all = members_view(entries@);
    let mut built: Vec<Selector> = Vec::new();
    let mut i: usize = 0;
    while i < entries.len()
        invariant
            0 <= i <= entries@.len(),
            all == members_view(entries@),
            selectors_from(all, 0) == match selectors_from(all, i as int) {
                Ok(rest) => Ok::<Seq<SelectorView>, MergeErrorView>(selectors_view(built@) + rest),
                Err(e) => Err(e),
            },
        decreases entries@.len() - i,
    {
        let key = &entries[i].0;
        proof {
            lemma_first_index_of(key@, ':');
            assert(all[i as int].0 == key@);
            assert(all[i as int].1 == entries@[i as int].1@);
        }
        match split_once(key.as_str(), ':') {
            None => {
                return Err(MergeError::UnknownSelector(key.clone()));
            },
            Some((kind, body)) => {
                if kind != owned("k") {
                    return Err(MergeError::UnknownSelectorType(kind));
                }
                match parse_object(body.as_str()) {
                    Err(_) => {
                        return Err(MergeError::InvalidSelector(body));
                    },
                    Ok(matcher) => {
                        let data = entries[i].1.duplicate();
                        let ghost before = selectors_view(built@);
                        let selector = Selector { matcher, data };
                        built.push(selector);
                        proof {
                            assert(selectors_view(built@) =~= before + seq![selector@]);
                            match selectors_from(all, i as int + 1) {
                                Ok(rest) => {
                                    assert(before + (seq![selector@] + rest) =~= selectors_view(
                                        built@,
                                    ) + rest);
                                },
                                Err(_) => {},
                            }
                        }
                    },
                }
            },
        }
        i += 1;
    }
    proof {
        assert(selectors_view(built@) + Seq::<SelectorView>::empty() =~= selectors_view(built@));
    }
    Ok(built)
}

/// Whether every field of the matcher is a member of the element with an
/// equal value.
pub fn matches_selector(matcher: &Vec<(String, Json)>, element: &Json) -> (r: bool)
    ensures
        r == selector_matches(members_view(matcher@), element@),
{
    proof {
        lemma_view_children(*element);
    }
    let ghost fields = members_view(matcher@);
    let mut i: usize = 0;
    while i < matcher.len()
        invariant
            0 <= i <= matcher@.len(),
            fields == members_view(matcher@),
            element matches Json::Object(members) ==> element@ == JsonView::Object(
                members_view(members@),
            ),
            !(element is Object) ==> !(element@ is Object),
            forall|j: int|
                0 <= j < i ==> {
                    &&& element@ is Object
                    &&& value_of(element@->Object_0, (#[trigger] fields[j]).0) == Some(fields[j].1)
                },
        decreases matcher@.len() - i,
    {
        let holds = match element {
            Json::Object(members) => match member(members, matcher[i].0.as_str()) {
                Some(value) => value.equals(&matcher[i].1),
                None => false,
            },
            _ => false,
        };
        proof {
            assert(fields[i as int].0 == matcher@[i as int].0@);
            assert(fields[i as int].1 == matcher@[i as int].1@);
        }
        if !holds {
            return false;
        }
        i += 1;
    }
    true
}

/// The first unused selector that matches the element.
pub fn choose_selector(selectors: &Vec<Selector>, used: &Vec<bool>, element: &Json) -> (r: Option<
    usize,
>)
    ensures
        match r {
            Some(i) => i < selectors@.len() && i == first_match(
                selectors_view(selectors@),
                used@,
                element@,
                0,
            ),
            None => first_match(selectors_view(selectors@), used@, element@, 0)
                == selectors@.len(),
        },
{
    let ghost all = selectors_view(selectors@);
    let mut i: usize = 0;
    while i < selectors.len()
        invariant
            0 <= i <= selectors@.len(),
            all == selectors_view(selectors@),
            first_match(all, used@, element@, 0) == first_match(all, used@, element@, i as int),
        decreases selectors@.len() - i,
    {
        proof {
            assert(all[i as int] == selectors@[i as int]@);
        }
        let taken = i < used.len() && used[i];
        if !taken && matches_selector(&selectors[i].matcher, element) {
            return Some(i);
        }
        i += 1;
    }
    None
}

/// Whether some selector, used or not, matches the element.
pub fn is_claimed(selectors: &Vec<Selector>, element: &Json) -> (r: bool)
    ensures
        r == claimed(selectors_view(selectors@), element@),
{
    let ghost all = selectors_view(selectors@);
    let mut i: usize = 0;
    while i < selectors.len()
        invariant
            0 <= i <= selectors@.len(),
            all == selectors_view(selectors@),
            forall|j: int| 0 <= j < i ==> !selector_matches((#[trigger] all[j]).matcher, element@),
        decreases selectors@.len() - i,
    {
        proof {
            assert(all[i as int] == selectors@[i as int]@);
        }
        if matches_selector(&selectors[i].matcher, element) {
            return true;
        }
        i += 1;
    }
    false
}

/// Puts the removal path of the element `index` below `path` at the end of
/// `remove_patches`.
fn record_removal(path: &mut Vec<String>, index: usize, remove_patches: &mut Vec<String>)
    ensures
        texts(final(path)@) == texts(old(path)@),
        texts(final(remove_patches)@) == texts(old(remove_patches)@).push(
            removal_path(texts(old(path)@), index as nat),
        ),
{
    path.push(index_text(index));
    proof {
        assert(texts(path@) =~= texts(old(path)@).push(decimal(index as nat)));
    }
    let joined_path = join(path, "/");
    remove_patches.push(joined_path);
    path.pop();
    proof {
        assert(texts(path@) =~= texts(old(path)@));
        assert(texts(remove_patches@) =~= texts(old(remove_patches)@).push(
            removal_path(texts(old(path)@), index as nat),
        ));
    }
}

/// Rewrites `want` so that what this manager does not own is carried over from
/// `have`. `managed` is the ownership tree of this manager in `have`; `path`
/// is where the two documents stand, and comes back as it was; the paths of
/// elements that are wanted gone though not owned are put at the end of
/// `remove_patches`.
pub fn copy_unmanaged_fields(
    have: &Json,
    want: &Json,
    managed: &Json,
    path: &mut Vec<String>,
    remove_patches: &mut Vec<String>,
) -> (r: Result<Json, MergeError>)
    ensures
        delivers(
            merged(have@, want@, managed@, texts(old(path)@), texts(old(remove_patches)@)),
            r,
            old(path)@,
            final(path)@,
            final(remove_patches)@,
        ),
        r matches Ok(document) ==> (well_formed(have@) && well_formed(want@) ==> well_formed(
            document@,
        )),
    decreases have,
{
    proof {
        lemma_view_children(*have);
        lemma_view_children(*want);
        lemma_view_children(*managed);
        let outcome = merged(
            have@,
            want@,
            managed@,
            texts(old(path)@),
            texts(old(remove_patches)@),
        );
        if well_formed(have@) && well_formed(want@) && outcome is Ok {
            crate::merge_laws::lemma_merged_well_formed(
                have@,
                want@,
                managed@,
                texts(old(path)@),
                texts(old(remove_patches)@),
            );
        }
    }
    match (have, want) {
        (Json::String(_), Json::Number(text)) => Ok(Json::String(text.clone())),
        (_, Json::Null) => {
            if managed.is_null() {
                Ok(have.duplicate())
            } else {
                Ok(Json::Null)
            }
        },
        (Json::Array(have_items), Json::Array(want_items)) => {
            if owns_whole(managed) {
                Ok(want.duplicate())
            } else {
                match managed {
                    Json::Object(entries) => match build_selectors(entries) {
                        Err(e) => Err(e),
                        Ok(selectors) => merge_selected(
                            have_items,
                            want_items,
                            &selectors,
                            path,
                            remove_patches,
                        ),
                    },
                    Json::Null => merge_positional(have_items, want_items, path, remove_patches),
                    _ => Ok(want.duplicate()),
                }
            }
        },
        (Json::Object(have_members), Json::Object(want_members)) => {
            if owns_whole(managed) {
                Ok(want.duplicate())
            } else {
                match managed {
                    Json::Object(_) => merge_members(
                        have_members,
                        want_members,
                        managed,
                        path,
                        remove_patches,
                    ),
                    Json::Null => merge_members(
                        have_members,
                        want_members,
                        managed,
                        path,
                        remove_patches,
                    ),
                    _ => Ok(want.duplicate()),
                }
            }
        },
        _ => Ok(want.duplicate()),
    }
}

/// Merges two objects member by member under the ownership tree `managed`.
pub fn merge_members(
    have: &Vec<(String, Json)>,
    want: &Vec<(String, Json)>,
    managed: &Json,
    path: &mut Vec<String>,
    remove_patches: &mut Vec<String>,
) -> (r: Result<Json, MergeError>)
    ensures
        delivers(
            merged_members(
                members_view(have@),
                0,
                members_view(want@),
                managed@,
                texts(old(path)@),
                Seq::empty(),
                texts(old(remove_patches)@),
            ),
            r,
            old(path)@,
            final(path)@,
            final(remove_patches)@,
        ),
    decreases have,
{
    let ghost goal = merged_members(
        members_view(have@),
        0,
        members_view(want@),
        managed@,
        texts(old(path)@),
        Seq::empty(),
        texts(old(remove_patches)@),
    );
    let null = Json::Null;
    let mut remaining = duplicate_members(want);
    let mut copy: Vec<(String, Json)> = Vec::new();
    let mut i: usize = 0;
    proof {
        lemma_view_children(*managed);
        assert(members_view(copy@) =~= Seq::empty());
    }
    while i < have.len()
        invariant
            0 <= i <= have@.len(),
            null@ is Null,
            texts(path@) == texts(old(path)@),
            managed matches Json::Object(entries) ==> managed@ == JsonView::Object(
                members_view(entries@),
            ),
            !(managed is Object) ==> !(managed@ is Object),
            goal == merged_members(
                members_view(have@),
                0,
                members_view(want@),
                managed@,
                texts(old(path)@),
                Seq::empty(),
                texts(old(remove_patches)@),
            ),
            goal == merged_members(
                members_view(have@),
                i as int,
                members_view(remaining@),
                managed@,
                texts(path@),
                members_view(copy@),
                texts(remove_patches@),
            ),
        decreases have@.len() - i,
    {
        let key = &have[i].0;
        let ghost path_before = path@;
        proof {
            vstd::std_specs::vec::axiom_vec_index_decreases(*have, i as int);
            assert(members_view(have@)[i as int].0 == key@);
            assert(members_view(have@)[i as int].1 == have@[i as int].1@);
        }
        path.push(key.clone());
        proof {
            lemma_texts_push(path_before, path@.last());
        }
        let wanted = match take_member(&mut remaining, key.as_str()) {
            Some(value) => value,
            None => Json::Null,
        };
        let owned_here: &Json = match managed {
            Json::Object(entries) => match member(entries, concat2("f:", key.as_str()).as_str()) {
                Some(value) => value,
                None => &null,
            },
            _ => &null,
        };
        let ghost step = merged(
            have@[i as int].1@,
            wanted@,
            owned_here@,
            texts(path@),
            texts(remove_patches@),
        );
        proof {
            assert(goal == match step {
                Err(e) => Err::<(JsonView, Seq<Seq<char>>), MergeErrorView>(e),
                Ok((value, collected)) => merged_members(
                    members_view(have@),
                    i as int + 1,
                    members_view(remaining@),
                    managed@,
                    texts(path_before),
                    with_entry(members_view(copy@), key@, value),
                    collected,
                ),
            });
        }
        match copy_unmanaged_fields(&have[i].1, &wanted, owned_here, path, remove_patches) {
            Err(e) => {
                return Err(e);
            },
            Ok(value) => {
                proof {
                    lemma_texts_pop(path_before, path@, key@);
                }
                path.pop();
                set_member(&mut copy, key.clone(), value);
            },
        }
        i += 1;
    }
    let ghost base = members_view(copy@);
    let ghost rest = members_view(remaining@);
    let mut j: usize = 0;
    while j < remaining.len()
        invariant
            0 <= j <= remaining@.len(),
            rest == members_view(remaining@),
            overlaid(base, rest, 0) == overlaid(members_view(copy@), rest, j as int),
        decreases remaining@.len() - j,
    {
        proof {
            assert(rest[j as int].0 == remaining@[j as int].0@);
            assert(rest[j as int].1 == remaining@[j as int].1@);
        }
        let value = remaining[j].1.duplicate();
        set_member(&mut copy, remaining[j].0.clone(), value);
        j += 1;
    }
    let document = Json::Object(copy);
    proof {
        lemma_view_children(document);
    }
    Ok(document)
}

/// Merges two arrays place by place where nothing is owned.
pub fn merge_positional(
    have: &Vec<Json>,
    want: &Vec<Json>,
    path: &mut Vec<String>,
    remove_patches: &mut Vec<String>,
) -> (r: Result<Json, MergeError>)
    ensures
        delivers(
            merged_positional(
                items_view(have@),
                items_view(want@),
                texts(old(path)@),
                0,
                Seq::empty(),
                texts(old(remove_patches)@),
            ),
            r,
            old(path)@,
            final(path)@,
            final(remove_patches)@,
        ),
    decreases have,
{
    let ghost goal = merged_positional(
        items_view(have@),
        items_view(want@),
        texts(old(path)@),
        0,
        Seq::empty(),
        texts(old(remove_patches)@),
    );
    let null = Json::Null;
    let mut items: Vec<Json> = Vec::new();
    let mut i: usize = 0;
    proof {
        assert(items_view(items@) =~= Seq::empty());
    }
    while i < want.len()
        invariant
            0 <= i <= want@.len(),
            null@ is Null,
            texts(path@) == texts(old(path)@),
            goal == merged_positional(
                items_view(have@),
                items_view(want@),
                texts(old(path)@),
                0,
                Seq::empty(),
                texts(old(remove_patches)@),
            ),
            goal == merged_positional(
                items_view(have@),
                items_view(want@),
                texts(path@),
                i as int,
                items_view(items@),
                texts(remove_patches@),
            ),
        decreases want@.len() - i,
    {
        let ghost items_before = items_view(items@);
        let ghost path_before = path@;
        if i >= have.len() {
            let element = want[i].duplicate();
            items.push(element);
            proof {
                assert(items_view(items@) =~= items_before.push(items_view(want@)[i as int]));
            }
        } else if want[i].is_null() {
            if have[i].is_null() {
                items.push(Json::Null);
                proof {
                    assert(items_view(items@) =~= items_before.push(JsonView::Null));
                }
            } else {
                record_removal(path, i, remove_patches);
            }
        } else {
            proof {
                vstd::std_specs::vec::axiom_vec_index_decreases(*have, i as int);
            }
            path.push(index_text(i));
            proof {
                assert(texts(path@) =~= texts(path_before).push(decimal(i as nat)));
            }
            match copy_unmanaged_fields(&have[i], &want[i], &null, path, remove_patches) {
                Err(e) => {
                    return Err(e);
                },
                Ok(value) => {
                    proof {
                        lemma_texts_pop(path_before, path@, decimal(i as nat));
                    }
                    path.pop();
                    let ghost merged_value = value@;
                    items.push(value);
                    proof {
                        assert(items_view(items@) =~= items_before.push(merged_value));
                    }
                },
            }
        }
        i += 1;
    }
    let document = Json::Array(items);
    proof {
        lemma_view_children(document);
    }
    Ok(document)
}

/// Merges two arrays place by place under the selectors of the ownership tree.
pub fn merge_selected(
    have: &Vec<Json>,
    want: &Vec<Json>,
    selectors: &Vec<Selector>,
    path: &mut Vec<String>,
    remove_patches: &mut Vec<String>,
) -> (r: Result<Json, MergeError>)
    ensures
        delivers(
            merged_selected(
                items_view(have@),
                items_view(want@),
                selectors_view(selectors@),
                Seq::new(selectors@.len(), |i: int| false),
                texts(old(path)@),
                0,
                Seq::empty(),
                texts(old(remove_patches)@),
            ),
            r,
            old(path)@,
            final(path)@,
            final(remove_patches)@,
        ),
    decreases have,
{
    let ghost goal = merged_selected(
        items_view(have@),
        items_view(want@),
        selectors_view(selectors@),
        Seq::new(selectors@.len(), |i: int| false),
        texts(old(path)@),
        0,
        Seq::empty(),
        texts(old(remove_patches)@),
    );
    let null = Json::Null;
    let mut used: Vec<bool> = Vec::new();
    let mut k: usize = 0;
    while k < selectors.len()
        invariant
            0 <= k <= selectors@.len(),
            used@.len() == k,
            forall|j: int| 0 <= j < k ==> !(#[trigger] used@[j]),
        decreases selectors@.len() - k,
    {
        used.push(false);
        k += 1;
    }
    let mut items: Vec<Json> = Vec::new();
    let mut i: usize = 0;
    proof {
        assert(items_view(items@) =~= Seq::empty());
        assert(used@ =~= Seq::new(selectors@.len(), |i: int| false));
    }
    while i < want.len()
        invariant
            0 <= i <= want@.len(),
            null@ is Null,
            used@.len() == selectors@.len(),
            texts(path@) == texts(old(path)@),
            goal == merged_selected(
                items_view(have@),
                items_view(want@),
                selectors_view(selectors@),
                Seq::new(selectors@.len(), |i: int| false),
                texts(old(path)@),
                0,
                Seq::empty(),
                texts(old(remove_patches)@),
            ),
            goal == merged_selected(
                items_view(have@),
                items_view(want@),
                selectors_view(selectors@),
                used@,
                texts(path@),
                i as int,
                items_view(items@),
                texts(remove_patches@),
            ),
        decreases want@.len() - i,
    {
        let ghost items_before = items_view(items@);
        let ghost path_before = path@;
        if i >= have.len() {
            let element = want[i].duplicate();
            items.push(element);
            proof {
                assert(items_view(items@) =~= items_before.push(items_view(want@)[i as int]));
            }
        } else {
            let chosen = choose_selector(selectors, &used, &want[i]);
            match chosen {
                Some(s) => {
                    used.set(s, true);
                },
                None => {},
            }
            if want[i].is_null() {
                if have[i].is_null() || chosen.is_some() {
                    items.push(Json::Null);
                    proof {
                        assert(items_view(items@) =~= items_before.push(JsonView::Null));
                    }
                } else {
                    record_removal(path, i, remove_patches);
                }
            } else if chosen.is_none() && is_claimed(selectors, &have[i]) {
                let element = want[i].duplicate();
                items.push(element);
                proof {
                    assert(items_view(items@) =~= items_before.push(items_view(want@)[i as int]));
                }
            } else {
                let owned_here: &Json = match chosen {
                    Some(s) => &selectors[s].data,
                    None => &null,
                };
                proof {
                    vstd::std_specs::vec::axiom_vec_index_decreases(*have, i as int);
                }
                path.push(index_text(i));
                proof {
                    assert(texts(path@) =~= texts(path_before).push(decimal(i as nat)));
                }
                match copy_unmanaged_fields(&have[i], &want[i], owned_here, path, remove_patches) {
                    Err(e) => {
                        return Err(e);
                    },
                    Ok(value) => {
                        proof {
                            lemma_texts_pop(path_before, path@, decimal(i as nat));
                        }
                        path.pop();
                        let ghost merged_value = value@;
                        items.push(value);
                        proof {
                            assert(items_view(items@) =~= items_before.push(merged_value));
                        }
                    },
                }
            }
        }
        i += 1;
    }
    let document = Json::Array(items);
    proof {
        lemma_view_children(document);
    }
    Ok(document)
}

} // verus!
