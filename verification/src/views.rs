//! Views of the values that hold other values: each item by its own view.
use vstd::prelude::*;

verus! {

/// The views of the items of a sequence.
pub open spec fn views<T: View>(s: Seq<T>) -> Seq<T::V> {
    Seq::new(s.len(), |i: int| s[i]@)
}

/// The view of an optional value.
pub open spec fn optional<T: View>(o: Option<T>) -> Option<T::V> {
    match o {
        Some(value) => Some(value@),
        None => None,
    }
}

/// The views of the items of an optional vector.
pub open spec fn optional_views<T: View>(o: Option<Vec<T>>) -> Option<Seq<T::V>> {
    match o {
        Some(items) => Some(views(items@)),
        None => None,
    }
}

/// The views of the entries of an optional map from texts.
pub open spec fn optional_map<T: View>(o: Option<Vec<(String, T)>>) -> Option<
    Seq<(Seq<char>, T::V)>,
> {
    match o {
        Some(entries) => Some(crate::assoc::viewed(entries@)),
        None => None,
    }
}

/// The views of a vector with one more item are the views with one more view.
pub proof fn lemma_views_push<T: View>(s: Seq<T>, item: T)
    ensures
        views(s.push(item)) == views(s).push(item@),
{
    assert(views(s.push(item)) =~= views(s).push(item@));
}

/// Puts an item at the end of a vector, by view.
pub fn push_view<T: View>(v: &mut Vec<T>, item: T)
    ensures
        views(final(v)@) == views(old(v)@).push(item@),
{
    v.push(item);
    proof {
        lemma_views_push(old(v)@, item);
    }
}

/// A value that can be copied so that the copy has the same view.
pub trait Duplicate: View + Sized {
    fn duplicate(&self) -> (r: Self)
        ensures
            r@ == self@,
    ;
}

impl Duplicate for String {
    fn duplicate(&self) -> (r: String) {
        self.clone()
    }
}

/// A copy of a vector, item by item.
pub fn copy_items<T: Duplicate>(items: &Vec<T>) -> (r: Vec<T>)
    ensures
        views(r@) == views(items@),
{
    let mut out: Vec<T> = Vec::new();
    let mut i: usize = 0;
    while i < items.len()
        invariant
            0 <= i <= items@.len(),
            out@.len() == i,
            forall|j: int| 0 <= j < i ==> (#[trigger] out@[j])@ == items@[j]@,
        decreases items@.len() - i,
    {
        out.push(items[i].duplicate());
        i += 1;
    }
    proof {
        assert(views(out@) =~= views(items@));
    }
    out
}

/// A copy of a map from texts, entry by entry.
pub fn copy_map<T: Duplicate>(entries: &Vec<(String, T)>) -> (r: Vec<(String, T)>)
    ensures
        crate::assoc::viewed(r@) == crate::assoc::viewed(entries@),
{
    let mut out: Vec<(String, T)> = Vec::new();
    let mut i: usize = 0;
    while i < entries.len()
        invariant
            0 <= i <= entries@.len(),
            out@.len() == i,
            forall|j: int|
                0 <= j < i ==> (#[trigger] out@[j]).0@ == entries@[j].0@ && out@[j].1@
                    == entries@[j].1@,
        decreases entries@.len() - i,
    {
        out.push((entries[i].0.clone(), entries[i].1.duplicate()));
        i += 1;
    }
    proof {
        assert(crate::assoc::viewed(out@) =~= crate::assoc::viewed(entries@));
    }
    out
}

/// A copy of an optional value.
pub fn copy_optional<T: Duplicate>(value: &Option<T>) -> (r: Option<T>)
    ensures
        optional(r) == optional(*value),
{
    match value {
        Some(v) => Some(v.duplicate()),
        None => None,
    }
}

/// A copy of an optional vector.
pub fn copy_optional_items<T: Duplicate>(items: &Option<Vec<T>>) -> (r: Option<Vec<T>>)
    ensures
        optional_views(r) == optional_views(*items),
{
    match items {
        Some(v) => Some(copy_items(v)),
        None => None,
    }
}

/// A copy of an optional map from texts.
pub fn copy_optional_map<T: Duplicate>(entries: &Option<Vec<(String, T)>>) -> (r: Option<
    Vec<(String, T)>,
>)
    ensures
        optional_map(r) == optional_map(*entries),
{
    match entries {
        Some(v) => Some(copy_map(v)),
        None => None,
    }
}

/// The views of the items after the first are the views after the first.
pub proof fn lemma_views_tail<T: View>(s: Seq<T>)
    requires
        s.len() > 0,
    ensures
        views(s.remove(0)) == views(s).drop_first(),
        views(s)[0] == s[0]@,
{
    assert(views(s.remove(0)) =~= views(s).drop_first());
}

} // verus!
