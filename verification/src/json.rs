//! JSON documents: the executable tree, its mathematical view, deep equality
//! and copying.
use crate::assoc::{
    find, has_key, insert, keyed, lemma_index_of, lemma_rank_of, lemma_same_keys, remove, same_keys,
    sorted, value_of, with_entry, without_key,
};
use vstd::prelude::*;
use vstd::std_specs::cmp::PartialEqSpecImpl;

verus! {

/// A JSON value. A number holds its decimal text; an object holds its members
/// in increasing key order.
#[derive(Debug)]
pub enum Json {
    Null,
    Bool(bool),
    Number(String),
    String(String),
    Array(Vec<Json>),
    Object(Vec<(String, Json)>),
}

/// The mathematical value of a JSON document.
pub enum JsonView {
    Null,
    Bool(bool),
    Number(Seq<char>),
    String(Seq<char>),
    Array(Seq<JsonView>),
    Object(Seq<(Seq<char>, JsonView)>),
}

/// The views of the items of an array.
pub open spec fn items_view(items: Seq<Json>) -> Seq<JsonView> {
    Seq::new(items.len(), |i: int| items[i]@)
}

/// The views of the members of an object.
pub open spec fn members_view(members: Seq<(String, Json)>) -> Seq<(Seq<char>, JsonView)> {
    Seq::new(members.len(), |i: int| (members[i].0@, members[i].1@))
}

/// The keys of the members of an object.
pub open spec fn member_keys(members: Seq<(String, Json)>) -> Seq<Seq<char>> {
    Seq::new(members.len(), |i: int| members[i].0@)
}

/// Keys and values put together, pair by pair.
pub open spec fn paired(keys: Seq<Seq<char>>, values: Seq<JsonView>) -> Seq<(Seq<char>, JsonView)> {
    Seq::new(keys.len(), |i: int| (keys[i], values[i]))
}

impl View for Json {
    type V = JsonView;

    open spec fn view(&self) -> JsonView
        decreases self,
    {
        match self {
            Json::Null => JsonView::Null,
            Json::Bool(b) => JsonView::Bool(*b),
            Json::Number(text) => JsonView::Number(text@),
            Json::String(text) => JsonView::String(text@),
            Json::Array(items) => JsonView::Array(
                Seq::new(
                    items@.len(),
                    |i: int|
                        if 0 <= i < items@.len() {
                            items@[i].view()
                        } else {
                            JsonView::Null
                        },
                ),
            ),
            Json::Object(members) => JsonView::Object(
                paired(
                    member_keys(members@),
                    Seq::new(
                        members@.len(),
                        |i: int|
                            if 0 <= i < members@.len() {
                                members@[i].1.view()
                            } else {
                                JsonView::Null
                            },
                    ),
                ),
            ),
        }
    }
}

/// The view of an array or an object is the view of its items or members.
pub proof fn lemma_view_children(j: Json)
    ensures
        j matches Json::Array(items) ==> j@ == JsonView::Array(items_view(items@)),
        j matches Json::Object(members) ==> j@ == JsonView::Object(members_view(members@)),
{
    match j {
        Json::Array(items) => {
            assert(j@->Array_0 =~= items_view(items@));
        },
        Json::Object(members) => {
            assert(j@->Object_0 =~= members_view(members@));
        },
        _ => {},
    }
}

/// The members of an object and their views have the same keys.
pub proof fn lemma_members_keys(members: Seq<(String, Json)>)
    ensures
        same_keys(keyed(members), members_view(members)),
{
}

/// Every object in the document has its members in strictly increasing key order.
pub open spec fn well_formed(v: JsonView) -> bool
    decreases v,
{
    match v {
        JsonView::Array(items) => forall|i: int|
            0 <= i < items.len() ==> well_formed(#[trigger] items[i]),
        JsonView::Object(members) => sorted(members) && forall|i: int|
            0 <= i < members.len() ==> well_formed((#[trigger] members[i]).1),
        _ => true,
    }
}

impl Json {
    /// Whether the value is `null`.
    pub fn is_null(&self) -> (r: bool)
        ensures
            r == (self@ is Null),
    {
        match self {
            Json::Null => true,
            _ => false,
        }
    }

    /// Deep equality of two documents.
    pub fn equals(&self, other: &Json) -> (r: bool)
        ensures
            r == (self@ == other@),
        decreases self,
    {
        proof {
            lemma_view_children(*self);
            lemma_view_children(*other);
        }
        match (self, other) {
            (Json::Null, Json::Null) => true,
            (Json::Bool(a), Json::Bool(b)) => *a == *b,
            (Json::Number(a), Json::Number(b)) => {
                let same = *a == *b;
                assert(same == (self@ == other@));
                same
            },
            (Json::String(a), Json::String(b)) => {
                let same = *a == *b;
                assert(same == (self@ == other@));
                same
            },
            (Json::Array(a), Json::Array(b)) => {
                if a.len() != b.len() {
                    proof {
                        assert(items_view(a@).len() != items_view(b@).len());
                    }
                    return false;
                }
                let mut i: usize = 0;
                while i < a.len()
                    invariant
                        0 <= i <= a@.len(),
                        a@.len() == b@.len(),
                        decreases_to!(*self => *a),
                        self@ == JsonView::Array(items_view(a@)),
                        other@ == JsonView::Array(items_view(b@)),
                        forall|j: int| 0 <= j < i ==> (#[trigger] a@[j])@ == b@[j]@,
                    decreases a@.len() - i,
                {
                    proof {
                        vstd::std_specs::vec::axiom_vec_index_decreases(*a, i as int);
                    }
                    if !a[i].equals(&b[i]) {
                        proof {
                            assert(items_view(a@)[i as int] != items_view(b@)[i as int]);
                        }
                        return false;
                    }
                    i += 1;
                }
                proof {
                    assert(items_view(a@) =~= items_view(b@));
                }
                true
            },
            (Json::Object(a), Json::Object(b)) => {
                if a.len() != b.len() {
                    proof {
                        assert(members_view(a@).len() != members_view(b@).len());
                    }
                    return false;
                }
                let mut i: usize = 0;
                while i < a.len()
                    invariant
                        0 <= i <= a@.len(),
                        a@.len() == b@.len(),
                        decreases_to!(*self => *a),
                        self@ == JsonView::Object(members_view(a@)),
                        other@ == JsonView::Object(members_view(b@)),
                        forall|j: int|
                            0 <= j < i ==> (#[trigger] a@[j]).0@ == b@[j].0@ && a@[j].1@ == b@[j].1@,
                    decreases a@.len() - i,
                {
                    proof {
                        vstd::std_specs::vec::axiom_vec_index_decreases(*a, i as int);
                    }
                    if !(a[i].0 == b[i].0) || !a[i].1.equals(&b[i].1) {
                        proof {
                            assert(members_view(a@)[i as int] != members_view(b@)[i as int]);
                        }
                        return false;
                    }
                    i += 1;
                }
                proof {
                    assert(members_view(a@) =~= members_view(b@));
                }
                true
            },
            _ => false,
        }
    }

    /// A deep copy of the document.
    pub fn duplicate(&self) -> (r: Json)
        ensures
            r@ == self@,
        decreases self,
    {
        proof {
            lemma_view_children(*self);
        }
        match self {
            Json::Null => Json::Null,
            Json::Bool(b) => Json::Bool(*b),
            Json::Number(text) => Json::Number(text.clone()),
            Json::String(text) => Json::String(text.clone()),
            Json::Array(items) => {
                let mut out: Vec<Json> = Vec::new();
                let mut i: usize = 0;
                while i < items.len()
                    invariant
                        0 <= i <= items@.len(),
                        decreases_to!(*self => *items),
                        out@.len() == i,
                        forall|j: int| 0 <= j < i ==> (#[trigger] out@[j])@ == items@[j]@,
                    decreases items@.len() - i,
                {
                    proof {
                        vstd::std_specs::vec::axiom_vec_index_decreases(*items, i as int);
                    }
                    let copy = items[i].duplicate();
                    out.push(copy);
                    i += 1;
                }
                let r = Json::Array(out);
                proof {
                    lemma_view_children(r);
                    assert(items_view(out@) =~= items_view(items@));
                }
                r
            },
            Json::Object(members) => {
                let mut out: Vec<(String, Json)> = Vec::new();
                let mut i: usize = 0;
                while i < members.len()
                    invariant
                        0 <= i <= members@.len(),
                        decreases_to!(*self => *members),
                        out@.len() == i,
                        forall|j: int|
                            0 <= j < i ==> (#[trigger] out@[j]).0@ == members@[j].0@ && out@[j].1@
                                == members@[j].1@,
                    decreases members@.len() - i,
                {
                    proof {
                        vstd::std_specs::vec::axiom_vec_index_decreases(*members, i as int);
                    }
                    let copy = members[i].1.duplicate();
                    out.push((members[i].0.clone(), copy));
                    i += 1;
                }
                let r = Json::Object(out);
                proof {
                    lemma_view_children(r);
                    assert(members_view(out@) =~= members_view(members@));
                }
                r
            },
        }
    }
}

/// The value of the member `key` of an object, by view.
pub fn member<'a>(members: &'a Vec<(String, Json)>, key: &str) -> (r: Option<&'a Json>)
    ensures
        r is Some == has_key(members_view(members@), key@),
        r matches Some(value) ==> value_of(members_view(members@), key@) == Some(value@),
{
    proof {
        lemma_members_keys(members@);
        lemma_same_keys(keyed(members@), members_view(members@), key@);
    }
    match find(members, key) {
        Some(i) => Some(&members[i].1),
        None => None,
    }
}

/// Binds the member `key` of an object to `value`.
pub fn set_member(members: &mut Vec<(String, Json)>, key: String, value: Json)
    ensures
        members_view(final(members)@) == with_entry(members_view(old(members)@), key@, value@),
{
    proof {
        lemma_members_keys(members@);
        lemma_same_keys(keyed(members@), members_view(members@), key@);
        lemma_rank_of(keyed(members@), key@);
    }
    insert(members, key, value);
    proof {
        let before = old(members)@;
        let after = members@;
        let expected = with_entry(members_view(before), key@, value@);
        assert(keyed(after).len() == after.len());
        assert(members_view(after).len() == expected.len());
        assert forall|i: int| 0 <= i < after.len() implies members_view(after)[i] == expected[i] by {
            assert(keyed(after)[i] == with_entry(keyed(before), key@, value)[i]);
        }
        assert(members_view(after) =~= expected);
    }
}

/// Takes the member `key` out of an object and returns its value.
pub fn take_member(members: &mut Vec<(String, Json)>, key: &str) -> (r: Option<Json>)
    ensures
        members_view(final(members)@) == without_key(members_view(old(members)@), key@),
        r is Some == has_key(members_view(old(members)@), key@),
        r matches Some(value) ==> value_of(members_view(old(members)@), key@) == Some(value@),
{
    proof {
        lemma_members_keys(members@);
        lemma_same_keys(keyed(members@), members_view(members@), key@);
        lemma_index_of(keyed(members@), key@);
    }
    let r = remove(members, key);
    proof {
        let before = old(members)@;
        let after = members@;
        let expected = without_key(members_view(before), key@);
        assert(keyed(after).len() == after.len());
        assert(members_view(after).len() == expected.len());
        assert forall|i: int| 0 <= i < after.len() implies members_view(after)[i] == expected[i] by {
            assert(keyed(after)[i] == without_key(keyed(before), key@)[i]);
        }
        assert(members_view(after) =~= expected);
    }
    r
}

impl PartialEq for Json {
    fn eq(&self, other: &Json) -> (r: bool) {
        self.equals(other)
    }
}

impl PartialEqSpecImpl for Json {
    open spec fn obeys_eq_spec() -> bool {
        true
    }

    open spec fn eq_spec(&self, other: &Json) -> bool {
        self@ == other@
    }
}

impl Clone for Json {
    fn clone(&self) -> (r: Json)
        ensures
            r@ == self@,
    {
        self.duplicate()
    }
}

} // verus!
