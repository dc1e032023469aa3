//! Maps from strings to values, kept as sequences of entries in increasing key
//! order. The spec functions work on entries whose key is a character
//! sequence; the executable functions work on vectors of `(String, V)`.
use crate::text::{lemma_lex_irreflexive, lemma_lex_total, lemma_lex_transitive, lex_lt, owned, str_lt};
use vstd::prelude::*;

verus! {

/// The index of the first entry with key `key`, or the length of `s`.
pub open spec fn index_of<T>(s: Seq<(Seq<char>, T)>, key: Seq<char>) -> int
    decreases s.len(),
{
    if s.len() == 0 {
        0
    } else if s[0].0 == key {
        0
    } else {
        1 + index_of(s.drop_first(), key)
    }
}

/// Whether some entry has key `key`.
pub open spec fn has_key<T>(s: Seq<(Seq<char>, T)>, key: Seq<char>) -> bool {
    index_of(s, key) < s.len()
}

/// The value of the first entry with key `key`.
pub open spec fn value_of<T>(s: Seq<(Seq<char>, T)>, key: Seq<char>) -> Option<T> {
    if has_key(s, key) {
        Some(s[index_of(s, key)].1)
    } else {
        None
    }
}

/// The index of the first entry whose key is not below `key`, or the length of `s`.
pub open spec fn rank_of<T>(s: Seq<(Seq<char>, T)>, key: Seq<char>) -> int
    decreases s.len(),
{
    if s.len() == 0 {
        0
    } else if !lex_lt(s[0].0, key) {
        0
    } else {
        1 + rank_of(s.drop_first(), key)
    }
}

/// `s` with `key` bound to `value`: the entry at the key's rank is replaced
/// when it has that key, and a new entry is put there otherwise.
pub open spec fn with_entry<T>(s: Seq<(Seq<char>, T)>, key: Seq<char>, value: T) -> Seq<
    (Seq<char>, T),
> {
    let r = rank_of(s, key);
    if r < s.len() && s[r].0 == key {
        s.update(r, (key, value))
    } else {
        s.insert(r, (key, value))
    }
}

/// `s` without its first entry of key `key`.
pub open spec fn without_key<T>(s: Seq<(Seq<char>, T)>, key: Seq<char>) -> Seq<(Seq<char>, T)> {
    if has_key(s, key) {
        s.remove(index_of(s, key))
    } else {
        s
    }
}

/// The keys are strictly increasing, so no key occurs twice.
pub open spec fn sorted<T>(s: Seq<(Seq<char>, T)>) -> bool {
    forall|i: int, j: int| 0 <= i < j < s.len() ==> lex_lt(#[trigger] s[i].0, #[trigger] s[j].0)
}

/// What `index_of` returns: it is in range, the entry there has the key, and
/// no earlier entry has it.
pub proof fn lemma_index_of<T>(s: Seq<(Seq<char>, T)>, key: Seq<char>)
    ensures
        0 <= index_of(s, key) <= s.len(),
        index_of(s, key) < s.len() ==> s[index_of(s, key)].0 == key,
        forall|i: int| 0 <= i < index_of(s, key) ==> (#[trigger] s[i]).0 != key,
    decreases s.len(),
{
    if s.len() > 0 && s[0].0 != key {
        lemma_index_of(s.drop_first(), key);
        assert forall|i: int| 0 <= i < index_of(s, key) implies (#[trigger] s[i]).0 != key by {
            if i > 0 {
                assert(s[i] == s.drop_first()[i - 1]);
            }
        }
    }
}

/// An entry with the key at `i`, and none before it, makes `i` the index.
pub proof fn lemma_index_of_is<T>(s: Seq<(Seq<char>, T)>, key: Seq<char>, i: int)
    requires
        0 <= i <= s.len(),
        i < s.len() ==> s[i].0 == key,
        forall|j: int| 0 <= j < i ==> (#[trigger] s[j]).0 != key,
    ensures
        index_of(s, key) == i,
{
    lemma_index_of(s, key);
    let k = index_of(s, key);
    if k < i {
        assert(s[k].0 == key);
    }
}

/// What `rank_of` returns: every entry before it is below the key, and the
/// entry there is not.
pub proof fn lemma_rank_of<T>(s: Seq<(Seq<char>, T)>, key: Seq<char>)
    ensures
        0 <= rank_of(s, key) <= s.len(),
        rank_of(s, key) < s.len() ==> !lex_lt(s[rank_of(s, key)].0, key),
        forall|i: int| 0 <= i < rank_of(s, key) ==> lex_lt((#[trigger] s[i]).0, key),
    decreases s.len(),
{
    if s.len() > 0 && lex_lt(s[0].0, key) {
        lemma_rank_of(s.drop_first(), key);
        assert forall|i: int| 0 <= i < rank_of(s, key) implies lex_lt((#[trigger] s[i]).0, key) by {
            if i > 0 {
                assert(s[i] == s.drop_first()[i - 1]);
            }
        }
    }
}

/// Entries below the key up to `i`, and none below it at `i`, make `i` the rank.
pub proof fn lemma_rank_of_is<T>(s: Seq<(Seq<char>, T)>, key: Seq<char>, i: int)
    requires
        0 <= i <= s.len(),
        i < s.len() ==> !lex_lt(s[i].0, key),
        forall|j: int| 0 <= j < i ==> lex_lt((#[trigger] s[j]).0, key),
    ensures
        rank_of(s, key) == i,
{
    lemma_rank_of(s, key);
    let r = rank_of(s, key);
    if r < i {
        assert(lex_lt(s[r].0, key));
    } else if i < r {
        assert(lex_lt(s[i].0, key));
    }
}

/// Binding a key keeps a sorted sequence sorted.
pub proof fn lemma_with_entry_sorted<T>(s: Seq<(Seq<char>, T)>, key: Seq<char>, value: T)
    requires
        sorted(s),
    ensures
        sorted(with_entry(s, key, value)),
{
    lemma_rank_of(s, key);
    let r = rank_of(s, key);
    let out = with_entry(s, key, value);
    if r < s.len() && s[r].0 == key {
        assert forall|i: int, j: int| 0 <= i < j < out.len() implies lex_lt(
            #[trigger] out[i].0,
            #[trigger] out[j].0,
        ) by {
            assert(lex_lt(s[i].0, s[j].0));
        }
    } else {
        assert forall|i: int, j: int| 0 <= i < j < out.len() implies lex_lt(
            #[trigger] out[i].0,
            #[trigger] out[j].0,
        ) by {
            if j < r {
                assert(lex_lt(s[i].0, s[j].0));
            } else if j == r {
                assert(lex_lt(s[i].0, key));
            } else if i == r {
                lemma_lex_total(s[r].0, key);
                assert(lex_lt(key, s[r].0));
                if j - 1 > r {
                    assert(lex_lt(s[r].0, s[j - 1].0));
                    lemma_lex_transitive(key, s[r].0, s[j - 1].0);
                }
            } else if i < r {
                assert(lex_lt(s[i].0, s[j - 1].0));
            } else {
                assert(lex_lt(s[i - 1].0, s[j - 1].0));
            }
        }
    }
}

/// After binding `key`, that key has the new value and every other key has
/// the value it had.
pub proof fn lemma_with_entry_value<T>(
    s: Seq<(Seq<char>, T)>,
    key: Seq<char>,
    value: T,
    other: Seq<char>,
)
    requires
        sorted(s),
    ensures
        value_of(with_entry(s, key, value), other) == if other == key {
            Some(value)
        } else {
            value_of(s, other)
        },
{
    lemma_rank_of(s, key);
    lemma_index_of(s, other);
    lemma_with_entry_sorted(s, key, value);
    let r = rank_of(s, key);
    let out = with_entry(s, key, value);
    let replaced = r < s.len() && s[r].0 == key;
    lemma_lex_irreflexive(key);
    if other == key {
        assert(out[r].0 == key);
        assert forall|j: int| 0 <= j < r implies (#[trigger] out[j]).0 != key by {
            assert(out[j] == s[j]);
            assert(lex_lt(s[j].0, key));
        }
        lemma_index_of_is(out, key, r);
    } else {
        let i = index_of(s, other);
        if i < s.len() {
            let shifted = if replaced || i < r {
                i
            } else {
                i + 1
            };
            assert(out[shifted] == s[i]);
            assert forall|j: int| 0 <= j < shifted implies (#[trigger] out[j]).0 != other by {
                if replaced {
                    if j != r {
                        assert(out[j] == s[j]);
                    }
                } else if j < r {
                    assert(out[j] == s[j]);
                } else if j > r {
                    assert(out[j] == s[j - 1]);
                }
            }
            lemma_index_of_is(out, other, shifted);
        } else {
            assert forall|j: int| 0 <= j < out.len() implies (#[trigger] out[j]).0 != other by {
                if replaced {
                    if j != r {
                        assert(out[j] == s[j]);
                    }
                } else if j < r {
                    assert(out[j] == s[j]);
                } else if j > r {
                    assert(out[j] == s[j - 1]);
                }
            }
            lemma_index_of_is(out, other, out.len() as int);
        }
    }
}

/// Removing a key keeps a sorted sequence sorted.
pub proof fn lemma_without_key_sorted<T>(s: Seq<(Seq<char>, T)>, key: Seq<char>)
    requires
        sorted(s),
    ensures
        sorted(without_key(s, key)),
{
    lemma_index_of(s, key);
    let out = without_key(s, key);
    let k = index_of(s, key);
    assert forall|i: int, j: int| 0 <= i < j < out.len() implies lex_lt(
        #[trigger] out[i].0,
        #[trigger] out[j].0,
    ) by {
        if k < s.len() {
            let si = if i < k {
                i
            } else {
                i + 1
            };
            let sj = if j < k {
                j
            } else {
                j + 1
            };
            assert(lex_lt(s[si].0, s[sj].0));
        } else {
            assert(lex_lt(s[i].0, s[j].0));
        }
    }
}

/// After removing `key` from a sorted sequence it is gone, and every other
/// key has the value it had.
pub proof fn lemma_without_key_value<T>(s: Seq<(Seq<char>, T)>, key: Seq<char>, other: Seq<char>)
    requires
        sorted(s),
    ensures
        value_of(without_key(s, key), other) == if other == key {
            None
        } else {
            value_of(s, other)
        },
{
    lemma_index_of(s, key);
    lemma_index_of(s, other);
    let out = without_key(s, key);
    let k = index_of(s, key);
    if k < s.len() {
        lemma_lex_irreflexive(key);
        if other == key {
            assert forall|j: int| 0 <= j < out.len() implies (#[trigger] out[j]).0 != key by {
                if j < k {
                    assert(out[j] == s[j]);
                } else {
                    assert(out[j] == s[j + 1]);
                    assert(lex_lt(s[k].0, s[j + 1].0));
                }
            }
            lemma_index_of_is(out, key, out.len() as int);
        } else {
            let i = index_of(s, other);
            let shifted = if i < k {
                i
            } else {
                i - 1
            };
            if i < s.len() {
                assert(out[shifted] == s[i]);
            }
            assert forall|j: int| 0 <= j < shifted implies (#[trigger] out[j]).0 != other by {
                if j < k {
                    assert(out[j] == s[j]);
                } else {
                    assert(out[j] == s[j + 1]);
                }
            }
            lemma_index_of_is(out, other, shifted);
        }
    }
}

/// The entries of a vector of pairs, each key by its view.
pub open spec fn keyed<V>(v: Seq<(String, V)>) -> Seq<(Seq<char>, V)> {
    Seq::new(v.len(), |i: int| (v[i].0@, v[i].1))
}

/// Finds the first entry with key `key`.
pub fn find<V>(entries: &Vec<(String, V)>, key: &str) -> (r: Option<usize>)
    ensures
        r is Some == has_key(keyed(entries@), key@),
        r matches Some(i) ==> i == index_of(keyed(entries@), key@) && i < entries@.len(),
{
    let owned_key = owned(key);
    let mut i: usize = 0;
    while i < entries.len()
        invariant
            0 <= i <= entries@.len(),
            owned_key@ == key@,
            forall|j: int| 0 <= j < i ==> (#[trigger] keyed(entries@)[j]).0 != key@,
        decreases entries@.len() - i,
    {
        if entries[i].0 == owned_key {
            proof {
                assert(keyed(entries@)[i as int].0 == key@);
                lemma_index_of_is(keyed(entries@), key@, i as int);
            }
            return Some(i);
        }
        proof {
            assert(keyed(entries@)[i as int].0 != key@);
        }
        i += 1;
    }
    proof {
        lemma_index_of_is(keyed(entries@), key@, entries@.len() as int);
    }
    None
}

/// Binds `key` to `value`, replacing the value of an entry with that key.
pub fn insert<V>(entries: &mut Vec<(String, V)>, key: String, value: V)
    ensures
        keyed(final(entries)@) == with_entry(keyed(old(entries)@), key@, value),
{
    let mut i: usize = 0;
    while i < entries.len() && str_lt(entries[i].0.as_str(), key.as_str())
        invariant
            0 <= i <= entries@.len(),
            entries@ == old(entries)@,
            forall|j: int| 0 <= j < i ==> lex_lt((#[trigger] keyed(entries@)[j]).0, key@),
        decreases entries@.len() - i,
    {
        proof {
            assert(lex_lt(keyed(entries@)[i as int].0, key@));
        }
        i += 1;
    }
    proof {
        if i < entries@.len() {
            assert(!lex_lt(keyed(entries@)[i as int].0, key@));
        }
        lemma_rank_of_is(keyed(entries@), key@, i as int);
    }
    if i < entries.len() && entries[i].0 == key {
        entries.remove(i);
        entries.insert(i, (key, value));
        proof {
            assert(keyed(entries@) =~= with_entry(keyed(old(entries)@), key@, value));
        }
    } else {
        entries.insert(i, (key, value));
        proof {
            assert(keyed(entries@) =~= with_entry(keyed(old(entries)@), key@, value));
        }
    }
}

/// Takes out the first entry with key `key` and returns its value.
pub fn remove<V>(entries: &mut Vec<(String, V)>, key: &str) -> (r: Option<V>)
    ensures
        keyed(final(entries)@) == without_key(keyed(old(entries)@), key@),
        r == value_of(keyed(old(entries)@), key@),
{
    match find(entries, key) {
        Some(i) => {
            let entry = entries.remove(i);
            proof {
                assert(keyed(entries@) =~= without_key(keyed(old(entries)@), key@));
            }
            Some(entry.1)
        },
        None => None,
    }
}

/// Two sequences with the same keys at the same places.
pub open spec fn same_keys<A, B>(a: Seq<(Seq<char>, A)>, b: Seq<(Seq<char>, B)>) -> bool {
    a.len() == b.len() && forall|i: int| 0 <= i < a.len() ==> (#[trigger] a[i]).0 == b[i].0
}

/// Sequences with the same keys agree on where each key is found and ranked.
pub proof fn lemma_same_keys<A, B>(a: Seq<(Seq<char>, A)>, b: Seq<(Seq<char>, B)>, key: Seq<char>)
    requires
        same_keys(a, b),
    ensures
        index_of(a, key) == index_of(b, key),
        rank_of(a, key) == rank_of(b, key),
        has_key(a, key) == has_key(b, key),
        sorted(a) == sorted(b),
{
    lemma_index_of(a, key);
    lemma_rank_of(a, key);
    let i = index_of(a, key);
    let r = rank_of(a, key);
    assert forall|j: int| 0 <= j < i implies (#[trigger] b[j]).0 != key by {
        assert(a[j].0 != key);
    }
    if i < a.len() {
        assert(a[i].0 == b[i].0);
    }
    lemma_index_of_is(b, key, i);
    assert forall|j: int| 0 <= j < r implies lex_lt((#[trigger] b[j]).0, key) by {
        assert(lex_lt(a[j].0, key));
    }
    if r < a.len() {
        assert(a[r].0 == b[r].0);
    }
    lemma_rank_of_is(b, key, r);
    if sorted(a) {
        assert forall|x: int, y: int| 0 <= x < y < b.len() implies lex_lt(
            #[trigger] b[x].0,
            #[trigger] b[y].0,
        ) by {
            assert(lex_lt(a[x].0, a[y].0));
            assert(a[x].0 == b[x].0);
            assert(a[y].0 == b[y].0);
        }
    }
    if sorted(b) {
        assert forall|x: int, y: int| 0 <= x < y < a.len() implies lex_lt(
            #[trigger] a[x].0,
            #[trigger] a[y].0,
        ) by {
            assert(lex_lt(b[x].0, b[y].0));
            assert(a[x].0 == b[x].0);
            assert(a[y].0 == b[y].0);
        }
    }
}

/// The entries of a vector of pairs, each key and each value by its view.
pub open spec fn viewed<V: View>(v: Seq<(String, V)>) -> Seq<(Seq<char>, V::V)> {
    Seq::new(v.len(), |i: int| (v[i].0@, v[i].1@))
}

/// The entries and their views have the same keys.
pub proof fn lemma_viewed_keys<V: View>(v: Seq<(String, V)>)
    ensures
        same_keys(keyed(v), viewed(v)),
{
}

/// The value bound to `key`, by view.
pub fn lookup<'a, V: View>(entries: &'a Vec<(String, V)>, key: &str) -> (r: Option<&'a V>)
    ensures
        r is Some == has_key(viewed(entries@), key@),
        r matches Some(value) ==> value_of(viewed(entries@), key@) == Some(value@),
{
    proof {
        lemma_viewed_keys(entries@);
        lemma_same_keys(keyed(entries@), viewed(entries@), key@);
    }
    match find(entries, key) {
        Some(i) => Some(&entries[i].1),
        None => None,
    }
}

/// Binds `key` to `value`, by view.
pub fn put<V: View>(entries: &mut Vec<(String, V)>, key: String, value: V)
    ensures
        viewed(final(entries)@) == with_entry(viewed(old(entries)@), key@, value@),
{
    proof {
        lemma_viewed_keys(entries@);
        lemma_same_keys(keyed(entries@), viewed(entries@), key@);
        lemma_rank_of(keyed(entries@), key@);
    }
    insert(entries, key, value);
    proof {
        let before = old(entries)@;
        let after = entries@;
        let expected = with_entry(viewed(before), key@, value@);
        assert(keyed(after).len() == after.len());
        assert(viewed(after).len() == expected.len());
        assert forall|i: int| 0 <= i < after.len() implies viewed(after)[i] == expected[i] by {
            assert(keyed(after)[i] == with_entry(keyed(before), key@, value)[i]);
        }
        assert(viewed(after) =~= expected);
    }
}

/// Takes the first entry with key `key` out and returns its value, by view.
pub fn take<V: View>(entries: &mut Vec<(String, V)>, key: &str) -> (r: Option<V>)
    ensures
        viewed(final(entries)@) == without_key(viewed(old(entries)@), key@),
        r is Some == has_key(viewed(old(entries)@), key@),
        r matches Some(value) ==> value_of(viewed(old(entries)@), key@) == Some(value@),
{
    proof {
        lemma_viewed_keys(entries@);
        lemma_same_keys(keyed(entries@), viewed(entries@), key@);
        lemma_index_of(keyed(entries@), key@);
    }
    let r = remove(entries, key);
    proof {
        let before = old(entries)@;
        let after = entries@;
        let expected = without_key(viewed(before), key@);
        assert(keyed(after).len() == after.len());
        assert(viewed(after).len() == expected.len());
        assert forall|i: int| 0 <= i < after.len() implies viewed(after)[i] == expected[i] by {
            assert(keyed(after)[i] == without_key(keyed(before), key@)[i]);
        }
        assert(viewed(after) =~= expected);
    }
    r
}

/// Taking one key out leaves the value of every other key as it was.
pub proof fn lemma_without_other<T>(s: Seq<(Seq<char>, T)>, key: Seq<char>, other: Seq<char>)
    requires
        key != other,
    ensures
        value_of(without_key(s, key), other) == value_of(s, other),
{
    lemma_index_of(s, key);
    lemma_index_of(s, other);
    let out = without_key(s, key);
    let k = index_of(s, key);
    let i = index_of(s, other);
    if k < s.len() {
        let shifted = if i < k {
            i
        } else {
            i - 1
        };
        if i < s.len() {
            assert(out[shifted] == s[i]);
        }
        assert forall|j: int| 0 <= j < shifted implies (#[trigger] out[j]).0 != other by {
            if j < k {
                assert(out[j] == s[j]);
            } else {
                assert(out[j] == s[j + 1]);
            }
        }
        lemma_index_of_is(out, other, shifted);
    }
}

/// In a sorted sequence every entry is the value of its key.
pub proof fn lemma_sorted_entry<T>(s: Seq<(Seq<char>, T)>, i: int)
    requires
        sorted(s),
        0 <= i < s.len(),
    ensures
        index_of(s, s[i].0) == i,
        value_of(s, s[i].0) == Some(s[i].1),
{
    lemma_lex_irreflexive(s[i].0);
    assert forall|j: int| 0 <= j < i implies (#[trigger] s[j]).0 != s[i].0 by {
        assert(lex_lt(s[j].0, s[i].0));
    }
    lemma_index_of_is(s, s[i].0, i);
}

/// Two sorted sequences that bind every key to the same value are the same.
pub proof fn lemma_sorted_extensional<T>(a: Seq<(Seq<char>, T)>, b: Seq<(Seq<char>, T)>)
    requires
        sorted(a),
        sorted(b),
        forall|key: Seq<char>| value_of(a, key) == value_of(b, key),
    ensures
        a == b,
    decreases a.len(),
{
    if a.len() == 0 {
        if b.len() > 0 {
            lemma_sorted_entry(b, 0);
            lemma_index_of(a, b[0].0);
            assert(value_of(a, b[0].0) == value_of(b, b[0].0));
        }
        assert(a =~= b);
    } else {
        let key = a[0].0;
        lemma_sorted_entry(a, 0);
        assert(value_of(a, key) == value_of(b, key));
        lemma_index_of(b, key);
        let j = index_of(b, key);
        if j > 0 {
            let first = b[0].0;
            lemma_sorted_entry(b, 0);
            assert(value_of(a, first) == value_of(b, first));
            lemma_index_of(a, first);
            let i = index_of(a, first);
            assert(lex_lt(b[0].0, b[j].0));
            lemma_lex_irreflexive(key);
            if i > 0 {
                assert(lex_lt(a[0].0, a[i].0));
                lemma_lex_transitive(key, first, key);
            }
        }
        assert(b[0] == a[0]);
        let ta = a.drop_first();
        let tb = b.drop_first();
        assert forall|x: int, y: int| 0 <= x < y < ta.len() implies lex_lt(
            #[trigger] ta[x].0,
            #[trigger] ta[y].0,
        ) by {
            assert(lex_lt(a[x + 1].0, a[y + 1].0));
        }
        assert forall|x: int, y: int| 0 <= x < y < tb.len() implies lex_lt(
            #[trigger] tb[x].0,
            #[trigger] tb[y].0,
        ) by {
            assert(lex_lt(b[x + 1].0, b[y + 1].0));
        }
        assert forall|other: Seq<char>| value_of(ta, other) == value_of(tb, other) by {
            assert(value_of(a, other) == value_of(b, other));
            assert(ta =~= without_key(a, key));
            assert(tb =~= without_key(b, key));
            lemma_without_key_value(a, key, other);
            lemma_without_key_value(b, key, other);
        }
        lemma_sorted_extensional(ta, tb);
        assert(a =~= seq![a[0]] + ta);
        assert(b =~= seq![b[0]] + tb);
    }
}

/// Binding a key that is above every key of a sorted sequence puts the entry
/// at the end.
pub proof fn lemma_with_entry_last<T>(s: Seq<(Seq<char>, T)>, key: Seq<char>, value: T)
    requires
        forall|i: int| 0 <= i < s.len() ==> lex_lt((#[trigger] s[i]).0, key),
    ensures
        with_entry(s, key, value) == s.push((key, value)),
{
    lemma_rank_of_is(s, key, s.len() as int);
    assert(with_entry(s, key, value) =~= s.push((key, value)));
}

/// Whether a bound key has a value says whether the key is there.
pub proof fn lemma_has_key_value<T>(s: Seq<(Seq<char>, T)>, key: Seq<char>)
    ensures
        has_key(s, key) == (value_of(s, key) is Some),
{
}

} // verus!
