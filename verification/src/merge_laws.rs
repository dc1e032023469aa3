//! What holds of the managed-field merge for all documents.
use crate::assoc::{
    has_key, index_of, lemma_has_key_value, lemma_index_of, lemma_sorted_entry,
    lemma_sorted_extensional, lemma_with_entry_last, lemma_with_entry_sorted,
    lemma_with_entry_value, lemma_without_key_sorted, lemma_without_key_value, sorted, value_of,
    with_entry, without_key,
};
use crate::json::{well_formed, JsonView};
use crate::assoc::{lemma_rank_of, rank_of};
use crate::merge::{
    field_ownership, member_or_null, merged, merged_members, merged_positional, merged_selected,
    overlaid, owns_entirely, selectors_from, MergeErrorView, SelectorView,
};
use crate::text::{decimal, lemma_lex_irreflexive, lex_lt};
use vstd::prelude::*;

verus! {

/// Some member from `at` on has the key.
pub open spec fn bound_from(members: Seq<(Seq<char>, JsonView)>, at: int, key: Seq<char>) -> bool {
    exists|j: int| at <= j < members.len() && (#[trigger] members[j]).0 == key
}

/// Overlaying sorted members on sorted members gives sorted members, in which
/// a key has the value that the overlay gives it, or else the value it had.
pub proof fn lemma_overlaid(
    copy: Seq<(Seq<char>, JsonView)>,
    rest: Seq<(Seq<char>, JsonView)>,
    at: int,
)
    requires
        sorted(copy),
        sorted(rest),
        0 <= at,
    ensures
        sorted(overlaid(copy, rest, at)),
        forall|key: Seq<char>|
            value_of(#[trigger] overlaid(copy, rest, at), key) == if bound_from(rest, at, key) {
                value_of(rest, key)
            } else {
                value_of(copy, key)
            },
    decreases rest.len() - at,
{
    if at < rest.len() {
        let next = with_entry(copy, rest[at].0, rest[at].1);
        lemma_with_entry_sorted(copy, rest[at].0, rest[at].1);
        lemma_overlaid(next, rest, at + 1);
        let out = overlaid(copy, rest, at);
        assert forall|key: Seq<char>| value_of(out, key) == if bound_from(rest, at, key) {
            value_of(rest, key)
        } else {
            value_of(copy, key)
        } by {
            lemma_with_entry_value(copy, rest[at].0, rest[at].1, key);
            if key == rest[at].0 {
                lemma_sorted_entry(rest, at);
                lemma_lex_irreflexive(key);
                if bound_from(rest, at + 1, key) {
                    let j = choose|j: int| at + 1 <= j < rest.len() && (#[trigger] rest[j]).0 == key;
                    assert(lex_lt(rest[at].0, rest[j].0));
                }
                assert(bound_from(rest, at, key));
            } else {
                if bound_from(rest, at, key) {
                    let j = choose|j: int| at <= j < rest.len() && (#[trigger] rest[j]).0 == key;
                    assert(at + 1 <= j);
                    assert(bound_from(rest, at + 1, key));
                }
                if bound_from(rest, at + 1, key) {
                    let j = choose|j: int| at + 1 <= j < rest.len() && (#[trigger] rest[j]).0 == key;
                    assert(bound_from(rest, at, key));
                }
            }
        }
    } else {
        assert forall|key: Seq<char>| !bound_from(rest, at, key) by {}
    }
}

/// A key is bound from the start exactly when it is there.
pub proof fn lemma_bound_is_has_key(members: Seq<(Seq<char>, JsonView)>, key: Seq<char>)
    ensures
        bound_from(members, 0, key) == has_key(members, key),
{
    lemma_index_of(members, key);
    if bound_from(members, 0, key) {
        let j = choose|j: int| 0 <= j < members.len() && (#[trigger] members[j]).0 == key;
        if index_of(members, key) >= members.len() {
            assert(members[j].0 != key);
        }
    }
    if has_key(members, key) {
        assert(members[index_of(members, key)].0 == key);
    }
}

/// No member of `have` from `at` on has the key.
pub open spec fn untouched(have: Seq<(Seq<char>, JsonView)>, at: int, key: Seq<char>) -> bool {
    forall|j: int| at <= j < have.len() ==> (#[trigger] have[j]).0 != key
}

/// The merge of two objects gives an object with sorted members, in which a
/// key that `have` does not hold has the value that `want` gives it.
pub proof fn lemma_members_untouched(
    have: Seq<(Seq<char>, JsonView)>,
    at: int,
    remaining: Seq<(Seq<char>, JsonView)>,
    managed: JsonView,
    path: Seq<Seq<char>>,
    copy: Seq<(Seq<char>, JsonView)>,
    removals: Seq<Seq<char>>,
)
    requires
        0 <= at,
        sorted(remaining),
        sorted(copy),
        merged_members(have, at, remaining, managed, path, copy, removals) is Ok,
    ensures
        ({
            let value = merged_members(have, at, remaining, managed, path, copy, removals)->Ok_0.0;
            &&& value is Object
            &&& sorted(value->Object_0)
            &&& forall|key: Seq<char>|
                untouched(have, at, key) ==> value_of(value->Object_0, key) == if has_key(
                    remaining,
                    key,
                ) {
                    #[trigger] value_of(remaining, key)
                } else {
                    value_of(copy, key)
                }
        }),
    decreases have.len() - at,
{
    let value = merged_members(have, at, remaining, managed, path, copy, removals)->Ok_0.0;
    if at < have.len() {
        let key = have[at].0;
        let step = merged(
            have[at].1,
            member_or_null(remaining, key),
            field_ownership(managed, key),
            path.push(key),
            removals,
        );
        let x = step->Ok_0.0;
        let fewer = without_key(remaining, key);
        let more = with_entry(copy, key, x);
        lemma_without_key_sorted(remaining, key);
        lemma_with_entry_sorted(copy, key, x);
        lemma_members_untouched(have, at + 1, fewer, managed, path, more, step->Ok_0.1);
        assert forall|other: Seq<char>| untouched(have, at, other) implies value_of(
            value->Object_0,
            other,
        ) == if has_key(remaining, other) {
            #[trigger] value_of(remaining, other)
        } else {
            value_of(copy, other)
        } by {
            assert(have[at].0 != other);
            assert(untouched(have, at + 1, other));
            lemma_without_key_value(remaining, key, other);
            lemma_with_entry_value(copy, key, x, other);
            lemma_has_key_value(fewer, other);
            lemma_has_key_value(remaining, other);
            assert(value_of(value->Object_0, other) == if has_key(fewer, other) {
                value_of(fewer, other)
            } else {
                value_of(more, other)
            });
        }
    } else {
        lemma_overlaid(copy, remaining, 0);
        assert forall|other: Seq<char>| value_of(value->Object_0, other) == if has_key(
            remaining,
            other,
        ) {
            #[trigger] value_of(remaining, other)
        } else {
            value_of(copy, other)
        } by {
            lemma_bound_is_has_key(remaining, other);
        }
    }
}

/// In the merge of two objects, the member of a key of `have` is the merge of
/// that member with what `want` has under the key, under what is owned of the
/// key. The lemma returns the path and the removal paths at which that merge
/// stands.
pub proof fn lemma_member_merge(
    have: Seq<(Seq<char>, JsonView)>,
    at: int,
    remaining: Seq<(Seq<char>, JsonView)>,
    managed: JsonView,
    path: Seq<Seq<char>>,
    copy: Seq<(Seq<char>, JsonView)>,
    removals: Seq<Seq<char>>,
    which: int,
) -> (stand: (Seq<Seq<char>>, Seq<Seq<char>>))
    requires
        0 <= at <= which < have.len(),
        sorted(have),
        sorted(remaining),
        sorted(copy),
        merged_members(have, at, remaining, managed, path, copy, removals) is Ok,
    ensures
        ({
            let value = merged_members(have, at, remaining, managed, path, copy, removals)->Ok_0.0;
            let child = merged(
                have[which].1,
                member_or_null(remaining, have[which].0),
                field_ownership(managed, have[which].0),
                stand.0,
                stand.1,
            );
            &&& child is Ok
            &&& value is Object
            &&& value_of(value->Object_0, have[which].0) == Some(child->Ok_0.0)
        }),
    decreases which - at,
{
    let key = have[at].0;
    let step = merged(
        have[at].1,
        member_or_null(remaining, key),
        field_ownership(managed, key),
        path.push(key),
        removals,
    );
    let x = step->Ok_0.0;
    let fewer = without_key(remaining, key);
    let more = with_entry(copy, key, x);
    lemma_without_key_sorted(remaining, key);
    lemma_with_entry_sorted(copy, key, x);
    if at == which {
        lemma_members_untouched(have, at + 1, fewer, managed, path, more, step->Ok_0.1);
        lemma_lex_irreflexive(key);
        assert(untouched(have, at + 1, key)) by {
            assert forall|j: int| at + 1 <= j < have.len() implies (#[trigger] have[j]).0 != key by {
                assert(lex_lt(have[at].0, have[j].0));
            }
        }
        lemma_without_key_value(remaining, key, key);
        lemma_has_key_value(fewer, key);
        lemma_with_entry_value(copy, key, x, key);
        (path.push(key), removals)
    } else {
        let other = have[which].0;
        lemma_lex_irreflexive(other);
        assert(lex_lt(have[at].0, have[which].0));
        lemma_without_key_value(remaining, key, other);
        lemma_member_merge(have, at + 1, fewer, managed, path, more, step->Ok_0.1, which)
    }
}

/// The value at a path of member names, where the document has one.
pub open spec fn at_path(document: JsonView, path: Seq<Seq<char>>) -> Option<JsonView>
    decreases path.len(),
{
    if path.len() == 0 {
        Some(document)
    } else {
        match document {
            JsonView::Object(members) => match value_of(members, path[0]) {
                Some(child) => at_path(child, path.drop_first()),
                None => None,
            },
            _ => None,
        }
    }
}

/// Neither `want` nor `managed` says anything of the path: somewhere along
/// it `want` has nothing and nothing is owned, and down to there both
/// documents are objects that are not owned entirely.
pub open spec fn unowned_at(
    have: JsonView,
    want: JsonView,
    managed: JsonView,
    path: Seq<Seq<char>>,
) -> bool
    decreases path.len(),
{
    if want is Null && managed is Null {
        true
    } else if path.len() == 0 {
        false
    } else {
        &&& have is Object
        &&& want is Object
        &&& !owns_entirely(managed)
        &&& (managed is Null || managed is Object)
        &&& has_key(have->Object_0, path[0])
        &&& unowned_at(
            value_of(have->Object_0, path[0])->Some_0,
            member_or_null(want->Object_0, path[0]),
            field_ownership(managed, path[0]),
            path.drop_first(),
        )
    }
}

/// The merge preserves what is not owned: at a path of which neither the
/// wanted document nor the ownership tree says anything, the merged document
/// has the value that the live document has.
pub proof fn lemma_unowned_preserved(
    have: JsonView,
    want: JsonView,
    managed: JsonView,
    at: Seq<Seq<char>>,
    path: Seq<Seq<char>>,
    removals: Seq<Seq<char>>,
)
    requires
        well_formed(have),
        well_formed(want),
        unowned_at(have, want, managed, at),
        merged(have, want, managed, path, removals) is Ok,
    ensures
        at_path(merged(have, want, managed, path, removals)->Ok_0.0, at) == at_path(have, at),
    decreases at.len(),
{
    if want is Null && managed is Null {
    } else {
        let mine = have->Object_0;
        let theirs = want->Object_0;
        let key = at[0];
        lemma_index_of(mine, key);
        let which = index_of(mine, key);
        let stand = lemma_member_merge(
            mine,
            0,
            theirs,
            managed,
            path,
            Seq::empty(),
            removals,
            which,
        );
        lemma_sorted_entry(mine, which);
        let child_want = member_or_null(theirs, key);
        if has_key(theirs, key) {
            lemma_index_of(theirs, key);
            assert(well_formed(theirs[index_of(theirs, key)].1));
        }
        assert(well_formed(mine[which].1));
        lemma_unowned_preserved(
            mine[which].1,
            child_want,
            field_ownership(managed, key),
            at.drop_first(),
            stand.0,
            stand.1,
        );
    }
}

/// Every member's value is well formed.
pub open spec fn members_formed(members: Seq<(Seq<char>, JsonView)>) -> bool {
    forall|i: int| 0 <= i < members.len() ==> well_formed((#[trigger] members[i]).1)
}

/// Every item is well formed.
pub open spec fn items_formed(items: Seq<JsonView>) -> bool {
    forall|i: int| 0 <= i < items.len() ==> well_formed(#[trigger] items[i])
}

/// Merging the items of an array into themselves, with nothing owned, gives
/// the items.
pub proof fn lemma_positional_same(
    items: Seq<JsonView>,
    at: int,
    path: Seq<Seq<char>>,
    removals: Seq<Seq<char>>,
)
    requires
        items_formed(items),
        0 <= at <= items.len(),
    ensures
        merged_positional(items, items, path, at, items.subrange(0, at), removals) == Ok::<
            (JsonView, Seq<Seq<char>>),
            MergeErrorView,
        >((JsonView::Array(items), removals)),
    decreases items, items.len() - at,
{
    if at < items.len() {
        assert(well_formed(items[at]));
        if !(items[at] is Null) {
            lemma_merged_same(items[at], path.push(decimal(at as nat)), removals);
        }
        assert(items.subrange(0, at).push(items[at]) =~= items.subrange(0, at + 1));
        lemma_positional_same(items, at + 1, path, removals);
    } else {
        assert(items.subrange(0, at) =~= items);
    }
}

/// Merging the members of an object into themselves, with nothing owned,
/// gives the members.
pub proof fn lemma_members_same(
    members: Seq<(Seq<char>, JsonView)>,
    at: int,
    path: Seq<Seq<char>>,
    removals: Seq<Seq<char>>,
)
    requires
        sorted(members),
        members_formed(members),
        0 <= at <= members.len(),
    ensures
        merged_members(
            members,
            at,
            members.subrange(at, members.len() as int),
            JsonView::Null,
            path,
            members.subrange(0, at),
            removals,
        ) == Ok::<(JsonView, Seq<Seq<char>>), MergeErrorView>(
            (JsonView::Object(members), removals),
        ),
    decreases members, members.len() - at,
{
    let remaining = members.subrange(at, members.len() as int);
    let copy = members.subrange(0, at);
    if at < members.len() {
        let key = members[at].0;
        assert(remaining[0] == members[at]);
        assert(index_of(remaining, key) == 0);
        assert(well_formed(members[at].1));
        lemma_merged_same(members[at].1, path.push(key), removals);
        assert(without_key(remaining, key) =~= members.subrange(at + 1, members.len() as int));
        assert forall|i: int| 0 <= i < copy.len() implies lex_lt((#[trigger] copy[i]).0, key) by {
            assert(lex_lt(members[i].0, members[at].0));
        }
        lemma_with_entry_last(copy, key, members[at].1);
        assert(copy.push((key, members[at].1)) =~= members.subrange(0, at + 1));
        lemma_members_same(members, at + 1, path, removals);
    } else {
        assert(copy =~= members);
        assert(remaining.len() == 0);
    }
}

/// Merging a document into itself, with nothing owned, gives the document
/// and no removal.
pub proof fn lemma_merged_same(document: JsonView, path: Seq<Seq<char>>, removals: Seq<Seq<char>>)
    requires
        well_formed(document),
    ensures
        merged(document, document, JsonView::Null, path, removals) == Ok::<
            (JsonView, Seq<Seq<char>>),
            MergeErrorView,
        >((document, removals)),
    decreases document, 0nat,
{
    match document {
        JsonView::Array(items) => {
            assert(items_formed(items));
            lemma_positional_same(items, 0, path, removals);
            assert(items.subrange(0, 0) =~= Seq::empty());
        },
        JsonView::Object(members) => {
            assert(members_formed(members));
            lemma_members_same(members, 0, path, removals);
            assert(members.subrange(0, 0) =~= Seq::empty());
            assert(members.subrange(0, members.len() as int) =~= members);
        },
        _ => {},
    }
}

/// The merge of the two documents removes no element of an array and merges
/// no array by selectors: wherever two arrays meet, they are owned entirely,
/// or nothing of them is owned and no element that is there is wanted `null`.
pub open spec fn steady(have: JsonView, want: JsonView, managed: JsonView) -> bool
    decreases have,
{
    match (have, want) {
        (JsonView::Array(mine), JsonView::Array(theirs)) => {
            ||| owns_entirely(managed)
            ||| !(managed is Null) && !(managed is Object)
            ||| managed is Null && forall|i: int|
                0 <= i < theirs.len() && i < mine.len() ==> {
                    &&& (theirs[i] is Null ==> (#[trigger] mine[i]) is Null)
                    &&& steady(mine[i], theirs[i], JsonView::Null)
                }
        },
        (JsonView::Object(mine), JsonView::Object(theirs)) => {
            ||| owns_entirely(managed)
            ||| !(managed is Null) && !(managed is Object)
            ||| forall|j: int|
                0 <= j < mine.len() ==> steady(
                    (#[trigger] mine[j]).1,
                    member_or_null(theirs, mine[j].0),
                    field_ownership(managed, mine[j].0),
                )
        },
        _ => true,
    }
}

/// The elements from `at` on are steady with nothing owned.
pub open spec fn steady_items(mine: Seq<JsonView>, theirs: Seq<JsonView>, at: int) -> bool {
    forall|i: int|
        at <= i < theirs.len() && i < mine.len() ==> {
            &&& (theirs[i] is Null ==> (#[trigger] mine[i]) is Null)
            &&& steady(mine[i], theirs[i], JsonView::Null)
        }
}

/// The members from `at` on are steady against what is left of `want`.
pub open spec fn steady_members(
    mine: Seq<(Seq<char>, JsonView)>,
    at: int,
    remaining: Seq<(Seq<char>, JsonView)>,
    managed: JsonView,
) -> bool {
    forall|j: int|
        at <= j < mine.len() ==> steady(
            (#[trigger] mine[j]).1,
            member_or_null(remaining, mine[j].0),
            field_ownership(managed, mine[j].0),
        )
}

/// No member of `mine` from `at` on has a key of `copy`.
pub open spec fn fresh(
    mine: Seq<(Seq<char>, JsonView)>,
    at: int,
    copy: Seq<(Seq<char>, JsonView)>,
) -> bool {
    forall|j: int| at <= j < mine.len() ==> !has_key(copy, (#[trigger] mine[j]).0)
}

/// No key of `copy` is a key of `remaining`.
pub open spec fn apart(
    copy: Seq<(Seq<char>, JsonView)>,
    remaining: Seq<(Seq<char>, JsonView)>,
) -> bool {
    forall|key: Seq<char>| #[trigger] has_key(copy, key) ==> !has_key(remaining, key)
}

/// `second` is `result` without the keys of `copy`.
pub open spec fn mirrors(
    second: Seq<(Seq<char>, JsonView)>,
    copy: Seq<(Seq<char>, JsonView)>,
    result: Seq<(Seq<char>, JsonView)>,
) -> bool {
    forall|key: Seq<char>|
        #[trigger] value_of(second, key) == if has_key(copy, key) {
            None
        } else {
            value_of(result, key)
        }
}

/// The value of a member, or of no member, of well-formed members is well
/// formed.
pub proof fn lemma_member_formed(members: Seq<(Seq<char>, JsonView)>, key: Seq<char>)
    requires
        members_formed(members),
    ensures
        well_formed(member_or_null(members, key)),
{
    lemma_index_of(members, key);
    if has_key(members, key) {
        assert(well_formed(members[index_of(members, key)].1));
    }
}

/// Taking a key out of well-formed members leaves well-formed members.
pub proof fn lemma_without_formed(members: Seq<(Seq<char>, JsonView)>, key: Seq<char>)
    requires
        members_formed(members),
    ensures
        members_formed(without_key(members, key)),
{
    lemma_index_of(members, key);
    let out = without_key(members, key);
    let k = index_of(members, key);
    assert forall|i: int| 0 <= i < out.len() implies well_formed((#[trigger] out[i]).1) by {
        if k < members.len() {
            if i < k {
                assert(out[i] == members[i]);
            } else {
                assert(out[i] == members[i + 1]);
            }
        }
    }
}

/// Idempotence of the merge of two arrays where nothing is owned: merging
/// the merged array again, from the same place on, gives the merged array.
pub proof fn lemma_positional_idempotent(
    mine: Seq<JsonView>,
    theirs: Seq<JsonView>,
    at: int,
    items: Seq<JsonView>,
    path: Seq<Seq<char>>,
    removals: Seq<Seq<char>>,
    path_again: Seq<Seq<char>>,
    removals_again: Seq<Seq<char>>,
)
    requires
        items_formed(mine),
        items_formed(theirs),
        0 <= at <= theirs.len(),
        items.len() == at,
        steady_items(mine, theirs, at),
        merged_positional(mine, theirs, path, at, items, removals) is Ok,
    ensures
        ({
            let once = merged_positional(mine, theirs, path, at, items, removals)->Ok_0.0;
            &&& once is Array
            &&& once->Array_0.len() == theirs.len()
            &&& once->Array_0.subrange(0, at) == items
            &&& merged_positional(mine, once->Array_0, path_again, at, items, removals_again)
                == Ok::<(JsonView, Seq<Seq<char>>), MergeErrorView>(
                (once, removals_again),
            )
        }),
    decreases mine, theirs.len() - at,
{
    let once = merged_positional(mine, theirs, path, at, items, removals)->Ok_0.0;
    if at < theirs.len() {
        if at >= mine.len() {
            let next = items.push(theirs[at]);
            lemma_positional_idempotent(
                mine,
                theirs,
                at + 1,
                next,
                path,
                removals,
                path_again,
                removals_again,
            );
            let result = once->Array_0;
            assert(result.subrange(0, at + 1)[at] == next[at]);
            assert(result.subrange(0, at) =~= items) by {
                assert forall|i: int| 0 <= i < at implies result.subrange(0, at)[i] == items[i] by {
                    assert(result.subrange(0, at + 1)[i] == next[i]);
                }
            }
        } else if theirs[at] is Null {
            assert(mine[at] is Null);
            let next = items.push(JsonView::Null);
            lemma_positional_idempotent(
                mine,
                theirs,
                at + 1,
                next,
                path,
                removals,
                path_again,
                removals_again,
            );
            let result = once->Array_0;
            assert(result.subrange(0, at + 1)[at] == next[at]);
            assert(result.subrange(0, at) =~= items) by {
                assert forall|i: int| 0 <= i < at implies result.subrange(0, at)[i] == items[i] by {
                    assert(result.subrange(0, at + 1)[i] == next[i]);
                }
            }
        } else {
            let step = merged(
                mine[at],
                theirs[at],
                JsonView::Null,
                path.push(decimal(at as nat)),
                removals,
            );
            assert(well_formed(mine[at]));
            assert(well_formed(theirs[at]));
            assert(steady(mine[at], theirs[at], JsonView::Null));
            lemma_merge_idempotent(
                mine[at],
                theirs[at],
                JsonView::Null,
                path.push(decimal(at as nat)),
                removals,
                path_again.push(decimal(at as nat)),
                removals_again,
            );
            let x = step->Ok_0.0;
            let next = items.push(x);
            lemma_positional_idempotent(
                mine,
                theirs,
                at + 1,
                next,
                path,
                step->Ok_0.1,
                path_again,
                removals_again,
            );
            let result = once->Array_0;
            assert(result.subrange(0, at + 1)[at] == next[at]);
            assert(result.subrange(0, at) =~= items) by {
                assert forall|i: int| 0 <= i < at implies result.subrange(0, at)[i] == items[i] by {
                    assert(result.subrange(0, at + 1)[i] == next[i]);
                }
            }
        }
    } else {
        assert(items.subrange(0, at) =~= items);
    }
}

/// Idempotence of the merge of two objects: merging what is left of the
/// merged members again, from the same member on, gives the merged members.
pub proof fn lemma_members_idempotent(
    mine: Seq<(Seq<char>, JsonView)>,
    at: int,
    remaining: Seq<(Seq<char>, JsonView)>,
    second: Seq<(Seq<char>, JsonView)>,
    managed: JsonView,
    path: Seq<Seq<char>>,
    path_again: Seq<Seq<char>>,
    copy: Seq<(Seq<char>, JsonView)>,
    removals: Seq<Seq<char>>,
    removals_again: Seq<Seq<char>>,
)
    requires
        sorted(mine),
        members_formed(mine),
        sorted(remaining),
        members_formed(remaining),
        sorted(second),
        sorted(copy),
        0 <= at <= mine.len(),
        steady_members(mine, at, remaining, managed),
        fresh(mine, at, copy),
        apart(copy, remaining),
        merged_members(mine, at, remaining, managed, path, copy, removals) is Ok,
        mirrors(
            second,
            copy,
            merged_members(mine, at, remaining, managed, path, copy, removals)->Ok_0.0->Object_0,
        ),
    ensures
        merged_members(mine, at, second, managed, path_again, copy, removals_again) == Ok::<
            (JsonView, Seq<Seq<char>>),
            MergeErrorView,
        >(
            (
                merged_members(mine, at, remaining, managed, path, copy, removals)->Ok_0.0,
                removals_again,
            ),
        ),
    decreases mine, mine.len() - at,
{
    let once = merged_members(mine, at, remaining, managed, path, copy, removals)->Ok_0.0;
    lemma_members_untouched(mine, at, remaining, managed, path, copy, removals);
    let result = once->Object_0;
    if at < mine.len() {
        let key = mine[at].0;
        let wanted = member_or_null(remaining, key);
        let owned_here = field_ownership(managed, key);
        let step = merged(mine[at].1, wanted, owned_here, path.push(key), removals);
        let x = step->Ok_0.0;
        let fewer = without_key(remaining, key);
        let more = with_entry(copy, key, x);
        lemma_without_key_sorted(remaining, key);
        lemma_with_entry_sorted(copy, key, x);
        lemma_without_formed(remaining, key);
        lemma_member_formed(remaining, key);
        assert(well_formed(mine[at].1));
        lemma_lex_irreflexive(key);
        // The member of the key in the merged object is the merged member.
        lemma_members_untouched(mine, at + 1, fewer, managed, path, more, step->Ok_0.1);
        assert(untouched(mine, at + 1, key)) by {
            assert forall|j: int| at + 1 <= j < mine.len() implies (#[trigger] mine[j]).0
                != key by {
                assert(lex_lt(mine[at].0, mine[j].0));
            }
        }
        lemma_without_key_value(remaining, key, key);
        lemma_has_key_value(fewer, key);
        lemma_with_entry_value(copy, key, x, key);
        assert(value_of(result, key) == Some(x));
        // The second merge meets the merged member under the key.
        assert(!has_key(copy, key));
        assert(value_of(second, key) == value_of(result, key));
        assert(member_or_null(second, key) == x);
        lemma_merge_idempotent(
            mine[at].1,
            wanted,
            owned_here,
            path.push(key),
            removals,
            path_again.push(key),
            removals_again,
        );
        // What is left for the members that follow.
        let fewer_again = without_key(second, key);
        lemma_without_key_sorted(second, key);
        assert(steady_members(mine, at + 1, fewer, managed)) by {
            assert forall|j: int| at + 1 <= j < mine.len() implies steady(
                (#[trigger] mine[j]).1,
                member_or_null(fewer, mine[j].0),
                field_ownership(managed, mine[j].0),
            ) by {
                assert(lex_lt(mine[at].0, mine[j].0));
                lemma_without_key_value(remaining, key, mine[j].0);
            }
        }
        assert(fresh(mine, at + 1, more)) by {
            assert forall|j: int| at + 1 <= j < mine.len() implies !has_key(
                more,
                (#[trigger] mine[j]).0,
            ) by {
                assert(lex_lt(mine[at].0, mine[j].0));
                lemma_with_entry_value(copy, key, x, mine[j].0);
                lemma_has_key_value(more, mine[j].0);
                lemma_has_key_value(copy, mine[j].0);
            }
        }
        assert(apart(more, fewer)) by {
            assert forall|other: Seq<char>| #[trigger] has_key(more, other) implies !has_key(
                fewer,
                other,
            ) by {
                lemma_with_entry_value(copy, key, x, other);
                lemma_without_key_value(remaining, key, other);
                lemma_has_key_value(more, other);
                lemma_has_key_value(copy, other);
                lemma_has_key_value(fewer, other);
                lemma_has_key_value(remaining, other);
            }
        }
        assert(mirrors(fewer_again, more, result)) by {
            assert forall|other: Seq<char>| #[trigger] value_of(fewer_again, other) == if has_key(
                more,
                other,
            ) {
                None
            } else {
                value_of(result, other)
            } by {
                lemma_without_key_value(second, key, other);
                lemma_with_entry_value(copy, key, x, other);
                lemma_has_key_value(more, other);
                lemma_has_key_value(copy, other);
                assert(value_of(second, other) == if has_key(copy, other) {
                    None
                } else {
                    value_of(result, other)
                });
            }
        }
        lemma_members_idempotent(
            mine,
            at + 1,
            fewer,
            fewer_again,
            managed,
            path,
            path_again,
            more,
            step->Ok_0.1,
            removals_again,
        );
    } else {
        lemma_overlaid(copy, remaining, 0);
        lemma_overlaid(copy, second, 0);
        let again = overlaid(copy, second, 0);
        assert forall|key: Seq<char>| value_of(again, key) == value_of(result, key) by {
            lemma_bound_is_has_key(remaining, key);
            lemma_bound_is_has_key(second, key);
            lemma_has_key_value(second, key);
            lemma_has_key_value(copy, key);
            lemma_has_key_value(remaining, key);
            assert(value_of(second, key) == if has_key(copy, key) {
                None
            } else {
                value_of(result, key)
            });
            if has_key(copy, key) {
                assert(!has_key(remaining, key));
            }
        }
        lemma_sorted_extensional(again, result);
    }
}

/// The merge is idempotent wherever it is steady: merging what a merge gave
/// into the same live document, under the same ownership, gives it again, and
/// asks for no removal. A wanted value that is not `null` is not merged to
/// `null`.
pub proof fn lemma_merge_idempotent(
    have: JsonView,
    want: JsonView,
    managed: JsonView,
    path: Seq<Seq<char>>,
    removals: Seq<Seq<char>>,
    path_again: Seq<Seq<char>>,
    removals_again: Seq<Seq<char>>,
)
    requires
        well_formed(have),
        well_formed(want),
        steady(have, want, managed),
        merged(have, want, managed, path, removals) is Ok,
    ensures
        ({
            let once = merged(have, want, managed, path, removals)->Ok_0.0;
            &&& merged(have, once, managed, path_again, removals_again) == Ok::<
                (JsonView, Seq<Seq<char>>),
                MergeErrorView,
            >((once, removals_again))
            &&& !(want is Null) ==> !(once is Null)
        }),
    decreases have, 0nat,
{
    let once = merged(have, want, managed, path, removals)->Ok_0.0;
    match (have, want) {
        (JsonView::String(_), JsonView::Number(_)) => {},
        (_, JsonView::Null) => {
            if managed is Null {
                lemma_merged_same(have, path_again, removals_again);
            }
        },
        (JsonView::Array(mine), JsonView::Array(theirs)) => {
            if !owns_entirely(managed) && managed is Null {
                assert(items_formed(mine));
                assert(items_formed(theirs));
                assert(steady_items(mine, theirs, 0));
                lemma_positional_idempotent(
                    mine,
                    theirs,
                    0,
                    Seq::empty(),
                    path,
                    removals,
                    path_again,
                    removals_again,
                );
            }
        },
        (JsonView::Object(mine), JsonView::Object(theirs)) => {
            if !owns_entirely(managed) && (managed is Null || managed is Object) {
                assert(members_formed(mine));
                assert(members_formed(theirs));
                assert(steady_members(mine, 0, theirs, managed));
                lemma_members_untouched(mine, 0, theirs, managed, path, Seq::empty(), removals);
                let result = once->Object_0;
                lemma_members_idempotent(
                    mine,
                    0,
                    theirs,
                    result,
                    managed,
                    path,
                    path_again,
                    Seq::empty(),
                    removals,
                    removals_again,
                );
            }
        },
        _ => {},
    }
}

/// Binding a well-formed value in well-formed members leaves them well formed.
pub proof fn lemma_with_entry_formed(
    members: Seq<(Seq<char>, JsonView)>,
    key: Seq<char>,
    value: JsonView,
)
    requires
        members_formed(members),
        well_formed(value),
    ensures
        members_formed(with_entry(members, key, value)),
{
    lemma_rank_of(members, key);
    let r = rank_of(members, key);
    let out = with_entry(members, key, value);
    assert forall|i: int| 0 <= i < out.len() implies well_formed((#[trigger] out[i]).1) by {
        if r < members.len() && members[r].0 == key {
            if i != r {
                assert(out[i] == members[i]);
            }
        } else if i < r {
            assert(out[i] == members[i]);
        } else if i > r {
            assert(out[i] == members[i - 1]);
        }
    }
}

/// Overlaying well-formed members on well-formed members leaves them well
/// formed.
pub proof fn lemma_overlaid_formed(
    copy: Seq<(Seq<char>, JsonView)>,
    rest: Seq<(Seq<char>, JsonView)>,
    at: int,
)
    requires
        members_formed(copy),
        members_formed(rest),
        0 <= at,
    ensures
        members_formed(overlaid(copy, rest, at)),
    decreases rest.len() - at,
{
    if at < rest.len() {
        assert(well_formed(rest[at].1));
        lemma_with_entry_formed(copy, rest[at].0, rest[at].1);
        lemma_overlaid_formed(with_entry(copy, rest[at].0, rest[at].1), rest, at + 1);
    }
}

/// The merge of the members of two well-formed objects is a well-formed object.
pub proof fn lemma_members_formed(
    have: Seq<(Seq<char>, JsonView)>,
    at: int,
    remaining: Seq<(Seq<char>, JsonView)>,
    managed: JsonView,
    path: Seq<Seq<char>>,
    copy: Seq<(Seq<char>, JsonView)>,
    removals: Seq<Seq<char>>,
)
    requires
        0 <= at,
        members_formed(have),
        sorted(remaining),
        members_formed(remaining),
        sorted(copy),
        members_formed(copy),
        merged_members(have, at, remaining, managed, path, copy, removals) is Ok,
    ensures
        well_formed(merged_members(have, at, remaining, managed, path, copy, removals)->Ok_0.0),
    decreases have, have.len() - at,
{
    let value = merged_members(have, at, remaining, managed, path, copy, removals)->Ok_0.0;
    lemma_members_untouched(have, at, remaining, managed, path, copy, removals);
    if at < have.len() {
        let key = have[at].0;
        let wanted = member_or_null(remaining, key);
        let step = merged(have[at].1, wanted, field_ownership(managed, key), path.push(key), removals);
        assert(well_formed(have[at].1));
        lemma_member_formed(remaining, key);
        lemma_merged_well_formed(
            have[at].1,
            wanted,
            field_ownership(managed, key),
            path.push(key),
            removals,
        );
        let x = step->Ok_0.0;
        lemma_without_key_sorted(remaining, key);
        lemma_without_formed(remaining, key);
        lemma_with_entry_sorted(copy, key, x);
        lemma_with_entry_formed(copy, key, x);
        lemma_members_formed(
            have,
            at + 1,
            without_key(remaining, key),
            managed,
            path,
            with_entry(copy, key, x),
            step->Ok_0.1,
        );
    } else {
        lemma_overlaid_formed(copy, remaining, 0);
        assert(members_formed(value->Object_0));
    }
}

/// The merge of the items of two well-formed arrays, with nothing owned, is
/// a well-formed array.
pub proof fn lemma_positional_formed(
    have: Seq<JsonView>,
    want: Seq<JsonView>,
    path: Seq<Seq<char>>,
    at: int,
    items: Seq<JsonView>,
    removals: Seq<Seq<char>>,
)
    requires
        0 <= at,
        items_formed(have),
        items_formed(want),
        items_formed(items),
        merged_positional(have, want, path, at, items, removals) is Ok,
    ensures
        well_formed(merged_positional(have, want, path, at, items, removals)->Ok_0.0),
    decreases have, want.len() - at,
{
    if at < want.len() {
        assert(well_formed(want[at]));
        if at >= have.len() {
            lemma_positional_formed(have, want, path, at + 1, items.push(want[at]), removals);
        } else if want[at] is Null {
            if have[at] is Null {
                lemma_positional_formed(
                    have,
                    want,
                    path,
                    at + 1,
                    items.push(JsonView::Null),
                    removals,
                );
            } else {
                lemma_positional_formed(
                    have,
                    want,
                    path,
                    at + 1,
                    items,
                    removals.push(crate::merge::removal_path(path, at as nat)),
                );
            }
        } else {
            assert(well_formed(have[at]));
            let step = merged(
                have[at],
                want[at],
                JsonView::Null,
                path.push(decimal(at as nat)),
                removals,
            );
            lemma_merged_well_formed(
                have[at],
                want[at],
                JsonView::Null,
                path.push(decimal(at as nat)),
                removals,
            );
            lemma_positional_formed(
                have,
                want,
                path,
                at + 1,
                items.push(step->Ok_0.0),
                step->Ok_0.1,
            );
        }
    } else {
        let value = merged_positional(have, want, path, at, items, removals)->Ok_0.0;
        assert(value->Array_0 == items);
    }
}

/// The merge of the items of two well-formed arrays under selectors is a
/// well-formed array.
pub proof fn lemma_selected_formed(
    have: Seq<JsonView>,
    want: Seq<JsonView>,
    selectors: Seq<SelectorView>,
    used: Seq<bool>,
    path: Seq<Seq<char>>,
    at: int,
    items: Seq<JsonView>,
    removals: Seq<Seq<char>>,
)
    requires
        0 <= at,
        items_formed(have),
        items_formed(want),
        items_formed(items),
        merged_selected(have, want, selectors, used, path, at, items, removals) is Ok,
    ensures
        well_formed(
            merged_selected(have, want, selectors, used, path, at, items, removals)->Ok_0.0,
        ),
    decreases have, want.len() - at,
{
    if at < want.len() {
        assert(well_formed(want[at]));
        if at >= have.len() {
            lemma_selected_formed(
                have,
                want,
                selectors,
                used,
                path,
                at + 1,
                items.push(want[at]),
                removals,
            );
        } else {
            let chosen = crate::merge::first_match(selectors, used, want[at], 0);
            let found = chosen < selectors.len();
            let marked = if found {
                used.update(chosen, true)
            } else {
                used
            };
            if want[at] is Null {
                if have[at] is Null || found {
                    lemma_selected_formed(
                        have,
                        want,
                        selectors,
                        marked,
                        path,
                        at + 1,
                        items.push(JsonView::Null),
                        removals,
                    );
                } else {
                    lemma_selected_formed(
                        have,
                        want,
                        selectors,
                        marked,
                        path,
                        at + 1,
                        items,
                        removals.push(crate::merge::removal_path(path, at as nat)),
                    );
                }
            } else if !found && crate::merge::claimed(selectors, have[at]) {
                lemma_selected_formed(
                    have,
                    want,
                    selectors,
                    marked,
                    path,
                    at + 1,
                    items.push(want[at]),
                    removals,
                );
            } else {
                let owned_here = if found {
                    selectors[chosen].data
                } else {
                    JsonView::Null
                };
                assert(well_formed(have[at]));
                let step = merged(
                    have[at],
                    want[at],
                    owned_here,
                    path.push(decimal(at as nat)),
                    removals,
                );
                lemma_merged_well_formed(
                    have[at],
                    want[at],
                    owned_here,
                    path.push(decimal(at as nat)),
                    removals,
                );
                lemma_selected_formed(
                    have,
                    want,
                    selectors,
                    marked,
                    path,
                    at + 1,
                    items.push(step->Ok_0.0),
                    step->Ok_0.1,
                );
            }
        }
    } else {
        let value = merged_selected(have, want, selectors, used, path, at, items, removals)->Ok_0.0;
        assert(value->Array_0 == items);
    }
}

/// The merge keeps documents well formed: where the live and the wanted
/// document have the members of every object in increasing key order, so has
/// the merged document.
pub proof fn lemma_merged_well_formed(
    have: JsonView,
    want: JsonView,
    managed: JsonView,
    path: Seq<Seq<char>>,
    removals: Seq<Seq<char>>,
)
    requires
        well_formed(have),
        well_formed(want),
        merged(have, want, managed, path, removals) is Ok,
    ensures
        well_formed(merged(have, want, managed, path, removals)->Ok_0.0),
    decreases have, 0nat,
{
    match (have, want) {
        (JsonView::String(_), JsonView::Number(_)) => {},
        (_, JsonView::Null) => {},
        (JsonView::Array(mine), JsonView::Array(theirs)) => {
            if !owns_entirely(managed) {
                assert(items_formed(mine));
                assert(items_formed(theirs));
                match managed {
                    JsonView::Object(entries) => {
                        let selectors = selectors_from(entries, 0)->Ok_0;
                        lemma_selected_formed(
                            mine,
                            theirs,
                            selectors,
                            Seq::new(selectors.len(), |i: int| false),
                            path,
                            0,
                            Seq::empty(),
                            removals,
                        );
                    },
                    JsonView::Null => {
                        lemma_positional_formed(mine, theirs, path, 0, Seq::empty(), removals);
                    },
                    _ => {},
                }
            }
        },
        (JsonView::Object(mine), JsonView::Object(theirs)) => {
            if !owns_entirely(managed) && (managed is Null || managed is Object) {
                assert(members_formed(mine));
                assert(members_formed(theirs));
                lemma_members_formed(mine, 0, theirs, managed, path, Seq::empty(), removals);
            }
        },
        _ => {},
    }
}

} // verus!
