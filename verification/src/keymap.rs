//! Maps from object keys to values, kept as sequences of entries in increasing
//! key order. The spec functions work on entries whose key is a key's view;
//! the executable functions work on vectors of `(KubernetesKey, V)`.
use crate::key::{
    key_before, lemma_key_irreflexive, lemma_key_total, lemma_key_transitive, KeyView,
    KubernetesKey,
};
use vstd::prelude::*;

verus! {

/// The index of the first entry with key `key`, or the length of `s`.
pub open spec fn index_of<T>(s: Seq<(KeyView, T)>, key: KeyView) -> int
    decreases s.len(),
{
    if s.len() == 0 {
        0
    } else if s[0].0 == key {
        0
    } else {
        1 + index_of(s.drop_first(), key)
    }
}

/// Whether some entry has key `key`.
pub open spec fn has_key<T>(s: Seq<(KeyView, T)>, key: KeyView) -> bool {
    index_of(s, key) < s.len()
}

/// The value of the first entry with key `key`.
pub open spec fn value_of<T>(s: Seq<(KeyView, T)>, key: KeyView) -> Option<T> {
    if has_key(s, key) {
        Some(s[index_of(s, key)].1)
    } else {
        None
    }
}

/// The index of the first entry whose key is not below `key`, or the length of `s`.
pub open spec fn rank_of<T>(s: Seq<(KeyView, T)>, key: KeyView) -> int
    decreases s.len(),
{
    if s.len() == 0 {
        0
    } else if !key_before(s[0].0, key) {
        0
    } else {
        1 + rank_of(s.drop_first(), key)
    }
}

/// `s` with `key` bound to `value`: the entry at the key's rank is replaced
/// when it has that key, and a new entry is put there otherwise.
pub open spec fn with_entry<T>(s: Seq<(KeyView, T)>, key: KeyView, value: T) -> Seq<(KeyView, T)> {
    let r = rank_of(s, key);
    if r < s.len() && s[r].0 == key {
        s.update(r, (key, value))
    } else {
        s.insert(r, (key, value))
    }
}

/// `s` without its first entry of key `key`.
pub open spec fn without_key<T>(s: Seq<(KeyView, T)>, key: KeyView) -> Seq<(KeyView, T)> {
    if has_key(s, key) {
        s.remove(index_of(s, key))
    } else {
        s
    }
}

/// The keys are strictly increasing, so no key occurs twice.
pub open spec fn sorted<T>(s: Seq<(KeyView, T)>) -> bool {
    forall|i: int, j: int| 0 <= i < j < s.len() ==> key_before(#[trigger] s[i].0, #[trigger] s[j].0)
}

/// What `index_of` returns: it is in range, the entry there has the key, and
/// no earlier entry has it.
pub proof fn lemma_index_of<T>(s: Seq<(KeyView, T)>, key: KeyView)
    ensures
        0 <= index_of(s, key) <= s.len(),
        index_of(s, key) < s.len() ==> s[index_of(s, key)].0 == key,
        forall|i: int| 0 <= i < index_of(s, key) ==> (#[trigger] s[i]).0 != key,
    decreases s.len(),
{
    if s.len() > 0 && s[0].0 != key {
        lemma_index_of(s.drop_first(), key);
        assert forall|i: int| 0 <= i < index_of(s, key) implies (#[trigger] s[i]).0 != key by {
            if i > 0 {
                assert(s[i] == s.drop_first()[i - 1]);
            }
        }
    }
}

/// An entry with the key at `i`, and none before it, makes `i` the index.
pub proof fn lemma_index_of_is<T>(s: Seq<(KeyView, T)>, key: KeyView, i: int)
    requires
        0 <= i <= s.len(),
        i < s.len() ==> s[i].0 == key,
        forall|j: int| 0 <= j < i ==> (#[trigger] s[j]).0 != key,
    ensures
        index_of(s, key) == i,
{
    lemma_index_of(s, key);
    let k = index_of(s, key);
    if k < i {
        assert(s[k].0 == key);
    }
}

/// What `rank_of` returns: every entry before it is below the key, and the
/// entry there is not.
pub proof fn lemma_rank_of<T>(s: Seq<(KeyView, T)>, key: KeyView)
    ensures
        0 <= rank_of(s, key) <= s.len(),
        rank_of(s, key) < s.len() ==> !key_before(s[rank_of(s, key)].0, key),
        forall|i: int| 0 <= i < rank_of(s, key) ==> key_before((#[trigger] s[i]).0, key),
    decreases s.len(),
{
    if s.len() > 0 && key_before(s[0].0, key) {
        lemma_rank_of(s.drop_first(), key);
        assert forall|i: int| 0 <= i < rank_of(s, key) implies key_before((#[trigger] s[i]).0, key) by {
            if i > 0 {
                assert(s[i] == s.drop_first()[i - 1]);
            }
        }
    }
}

/// Entries below the key up to `i`, and none below it at `i`, make `i` the rank.
pub proof fn lemma_rank_of_is<T>(s: Seq<(KeyView, T)>, key: KeyView, i: int)
    requires
        0 <= i <= s.len(),
        i < s.len() ==> !key_before(s[i].0, key),
        forall|j: int| 0 <= j < i ==> key_before((#[trigger] s[j]).0, key),
    ensures
        rank_of(s, key) == i,
{
    lemma_rank_of(s, key);
    let r = rank_of(s, key);
    if r < i {
        assert(key_before(s[r].0, key));
    } else if i < r {
        assert(key_before(s[i].0, key));
    }
}

/// Binding a key keeps a sorted sequence sorted.
pub proof fn lemma_with_entry_sorted<T>(s: Seq<(KeyView, T)>, key: KeyView, value: T)
    requires
        sorted(s),
    ensures
        sorted(with_entry(s, key, value)),
{
    lemma_rank_of(s, key);
    let r = rank_of(s, key);
    let out = with_entry(s, key, value);
    if r < s.len() && s[r].0 == key {
        assert forall|i: int, j: int| 0 <= i < j < out.len() implies key_before(
            #[trigger] out[i].0,
            #[trigger] out[j].0,
        ) by {
            assert(key_before(s[i].0, s[j].0));
        }
    } else {
        assert forall|i: int, j: int| 0 <= i < j < out.len() implies key_before(
            #[trigger] out[i].0,
            #[trigger] out[j].0,
        ) by {
            if j < r {
                assert(key_before(s[i].0, s[j].0));
            } else if j == r {
                assert(key_before(s[i].0, key));
            } else if i == r {
                lemma_key_total(s[r].0, key);
                assert(key_before(key, s[r].0));
                if j - 1 > r {
                    assert(key_before(s[r].0, s[j - 1].0));
                    lemma_key_transitive(key, s[r].0, s[j - 1].0);
                }
            } else if i < r {
                assert(key_before(s[i].0, s[j - 1].0));
            } else {
                assert(key_before(s[i - 1].0, s[j - 1].0));
            }
        }
    }
}

/// After binding `key`, that key has the new value and every other key has
/// the value it had.
pub proof fn lemma_with_entry_value<T>(
    s: Seq<(KeyView, T)>,
    key: KeyView,
    value: T,
    other: KeyView,
)
    requires
        sorted(s),
    ensures
        value_of(with_entry(s, key, value), other) == if other == key {
            Some(value)
        } else {
            value_of(s, other)
        },
{
    lemma_rank_of(s, key);
    lemma_index_of(s, other);
    lemma_with_entry_sorted(s, key, value);
    let r = rank_of(s, key);
    let out = with_entry(s, key, value);
    let replaced = r < s.len() && s[r].0 == key;
    lemma_key_irreflexive(key);
    if other == key {
        assert(out[r].0 == key);
        assert forall|j: int| 0 <= j < r implies (#[trigger] out[j]).0 != key by {
            assert(out[j] == s[j]);
            assert(key_before(s[j].0, key));
        }
        lemma_index_of_is(out, key, r);
    } else {
        let i = index_of(s, other);
        if i < s.len() {
            let shifted = if replaced || i < r {
                i
            } else {
                i + 1
            };
            assert(out[shifted] == s[i]);
            assert forall|j: int| 0 <= j < shifted implies (#[trigger] out[j]).0 != other by {
                if replaced {
                    if j != r {
                        assert(out[j] == s[j]);
                    }
                } else if j < r {
                    assert(out[j] == s[j]);
                } else if j > r {
                    assert(out[j] == s[j - 1]);
                }
            }
            lemma_index_of_is(out, other, shifted);
        } else {
            assert forall|j: int| 0 <= j < out.len() implies (#[trigger] out[j]).0 != other by {
                if replaced {
                    if j != r {
                        assert(out[j] == s[j]);
                    }
                } else if j < r {
                    assert(out[j] == s[j]);
                } else if j > r {
                    assert(out[j] == s[j - 1]);
                }
            }
            lemma_index_of_is(out, other, out.len() as int);
        }
    }
}

/// Removing a key keeps a sorted sequence sorted.
pub proof fn lemma_without_key_sorted<T>(s: Seq<(KeyView, T)>, key: KeyView)
    requires
        sorted(s),
    ensures
        sorted(without_key(s, key)),
{
    lemma_index_of(s, key);
    let out = without_key(s, key);
    let k = index_of(s, key);
    assert forall|i: int, j: int| 0 <= i < j < out.len() implies key_before(
        #[trigger] out[i].0,
        #[trigger] out[j].0,
    ) by {
        if k < s.len() {
            let si = if i < k {
                i
            } else {
                i + 1
            };
            let sj = if j < k {
                j
            } else {
                j + 1
            };
            assert(key_before(s[si].0, s[sj].0));
        } else {
            assert(key_before(s[i].0, s[j].0));
        }
    }
}

/// After removing `key` from a sorted sequence it is gone, and every other
/// key has the value it had.
pub proof fn lemma_without_key_value<T>(s: Seq<(KeyView, T)>, key: KeyView, other: KeyView)
    requires
        sorted(s),
    ensures
        value_of(without_key(s, key), other) == if other == key {
            None
        } else {
            value_of(s, other)
        },
{
    lemma_index_of(s, key);
    lemma_index_of(s, other);
    let out = without_key(s, key);
    let k = index_of(s, key);
    if k < s.len() {
        lemma_key_irreflexive(key);
        if other == key {
            assert forall|j: int| 0 <= j < out.len() implies (#[trigger] out[j]).0 != key by {
                if j < k {
                    assert(out[j] == s[j]);
                } else {
                    assert(out[j] == s[j + 1]);
                    assert(key_before(s[k].0, s[j + 1].0));
                }
            }
            lemma_index_of_is(out, key, out.len() as int);
        } else {
            let i = index_of(s, other);
            let shifted = if i < k {
                i
            } else {
                i - 1
            };
            if i < s.len() {
                assert(out[shifted] == s[i]);
            }
            assert forall|j: int| 0 <= j < shifted implies (#[trigger] out[j]).0 != other by {
                if j < k {
                    assert(out[j] == s[j]);
                } else {
                    assert(out[j] == s[j + 1]);
                }
            }
            lemma_index_of_is(out, other, shifted);
        }
    }
}

/// The entries of a vector of pairs, each key by its view.
pub open spec fn keyed<V>(v: Seq<(KubernetesKey, V)>) -> Seq<(KeyView, V)> {
    Seq::new(v.len(), |i: int| (v[i].0@, v[i].1))
}

/// Finds the first entry with key `key`.
pub fn find<V>(entries: &Vec<(KubernetesKey, V)>, key: &KubernetesKey) -> (r: Option<usize>)
    ensures
        r is Some == has_key(keyed(entries@), key@),
        r matches Some(i) ==> i == index_of(keyed(entries@), key@) && i < entries@.len(),
{
    let mut i: usize = 0;
    while i < entries.len()
        invariant
            0 <= i <= entries@.len(),
            forall|j: int| 0 <= j < i ==> (#[trigger] keyed(entries@)[j]).0 != key@,
        decreases entries@.len() - i,
    {
        if entries[i].0.same(key) {
            proof {
                assert(keyed(entries@)[i as int].0 == key@);
                lemma_index_of_is(keyed(entries@), key@, i as int);
            }
            return Some(i);
        }
        proof {
            assert(keyed(entries@)[i as int].0 != key@);
        }
        i += 1;
    }
    proof {
        lemma_index_of_is(keyed(entries@), key@, entries@.len() as int);
    }
    None
}

/// The value bound to `key`, if any.
pub fn get<'a, V>(entries: &'a Vec<(KubernetesKey, V)>, key: &KubernetesKey) -> (r: Option<&'a V>)
    ensures
        r is Some == has_key(keyed(entries@), key@),
        r matches Some(value) ==> Some(*value) == value_of(keyed(entries@), key@),
{
    match find(entries, key) {
        Some(i) => Some(&entries[i].1),
        None => None,
    }
}

/// Binds `key` to `value`, replacing the value of an entry with that key.
pub fn insert<V>(entries: &mut Vec<(KubernetesKey, V)>, key: KubernetesKey, value: V)
    ensures
        keyed(final(entries)@) == with_entry(keyed(old(entries)@), key@, value),
{
    let mut i: usize = 0;
    while i < entries.len() && entries[i].0.before(&key)
        invariant
            0 <= i <= entries@.len(),
            entries@ == old(entries)@,
            forall|j: int| 0 <= j < i ==> key_before((#[trigger] keyed(entries@)[j]).0, key@),
        decreases entries@.len() - i,
    {
        proof {
            assert(key_before(keyed(entries@)[i as int].0, key@));
        }
        i += 1;
    }
    proof {
        if i < entries@.len() {
            assert(!key_before(keyed(entries@)[i as int].0, key@));
        }
        lemma_rank_of_is(keyed(entries@), key@, i as int);
    }
    if i < entries.len() && entries[i].0.same(&key) {
        entries.remove(i);
        entries.insert(i, (key, value));
        proof {
            assert(keyed(entries@) =~= with_entry(keyed(old(entries)@), key@, value));
        }
    } else {
        entries.insert(i, (key, value));
        proof {
            assert(keyed(entries@) =~= with_entry(keyed(old(entries)@), key@, value));
        }
    }
}

/// Takes out the first entry with key `key` and returns its value.
pub fn remove<V>(entries: &mut Vec<(KubernetesKey, V)>, key: &KubernetesKey) -> (r: Option<V>)
    ensures
        keyed(final(entries)@) == without_key(keyed(old(entries)@), key@),
        r == value_of(keyed(old(entries)@), key@),
{
    match find(entries, key) {
        Some(i) => {
            let entry = entries.remove(i);
            proof {
                assert(keyed(entries@) =~= without_key(keyed(old(entries)@), key@));
            }
            Some(entry.1)
        },
        None => None,
    }
}

/// Two sequences with the same keys at the same places.
pub open spec fn same_keys<A, B>(a: Seq<(KeyView, A)>, b: Seq<(KeyView, B)>) -> bool {
    a.len() == b.len() && forall|i: int| 0 <= i < a.len() ==> (#[trigger] a[i]).0 == b[i].0
}

/// Sequences with the same keys agree on where each key is found and ranked.
pub proof fn lemma_same_keys<A, B>(a: Seq<(KeyView, A)>, b: Seq<(KeyView, B)>, key: KeyView)
    requires
        same_keys(a, b),
    ensures
        index_of(a, key) == index_of(b, key),
        rank_of(a, key) == rank_of(b, key),
        has_key(a, key) == has_key(b, key),
        sorted(a) == sorted(b),
{
    lemma_index_of(a, key);
    lemma_rank_of(a, key);
    let i = index_of(a, key);
    let r = rank_of(a, key);
    assert forall|j: int| 0 <= j < i implies (#[trigger] b[j]).0 != key by {
        assert(a[j].0 != key);
    }
    if i < a.len() {
        assert(a[i].0 == b[i].0);
    }
    lemma_index_of_is(b, key, i);
    assert forall|j: int| 0 <= j < r implies key_before((#[trigger] b[j]).0, key) by {
        assert(key_before(a[j].0, key));
    }
    if r < a.len() {
        assert(a[r].0 == b[r].0);
    }
    lemma_rank_of_is(b, key, r);
    if sorted(a) {
        assert forall|x: int, y: int| 0 <= x < y < b.len() implies key_before(
            #[trigger] b[x].0,
            #[trigger] b[y].0,
        ) by {
            assert(key_before(a[x].0, a[y].0));
            assert(a[x].0 == b[x].0);
            assert(a[y].0 == b[y].0);
        }
    }
    if sorted(b) {
        assert forall|x: int, y: int| 0 <= x < y < a.len() implies key_before(
            #[trigger] a[x].0,
            #[trigger] a[y].0,
        ) by {
            assert(key_before(b[x].0, b[y].0));
            assert(a[x].0 == b[x].0);
            assert(a[y].0 == b[y].0);
        }
    }
}

/// The entries of a vector of pairs, each key and each value by its view.
pub open spec fn viewed<V: View>(v: Seq<(KubernetesKey, V)>) -> Seq<(KeyView, V::V)> {
    Seq::new(v.len(), |i: int| (v[i].0@, v[i].1@))
}

/// The entries and their views have the same keys.
pub proof fn lemma_viewed_keys<V: View>(v: Seq<(KubernetesKey, V)>)
    ensures
        same_keys(keyed(v), viewed(v)),
{
}

/// Binds `key` to `value`, by view.
pub fn put<V: View>(entries: &mut Vec<(KubernetesKey, V)>, key: KubernetesKey, value: V)
    ensures
        viewed(final(entries)@) == with_entry(viewed(old(entries)@), key@, value@),
{
    proof {
        lemma_viewed_keys(entries@);
        lemma_same_keys(keyed(entries@), viewed(entries@), key@);
        lemma_rank_of(keyed(entries@), key@);
    }
    insert(entries, key, value);
    proof {
        let before = old(entries)@;
        let after = entries@;
        let expected = with_entry(viewed(before), key@, value@);
        assert(keyed(after).len() == after.len());
        assert(viewed(after).len() == expected.len());
        assert forall|i: int| 0 <= i < after.len() implies viewed(after)[i] == expected[i] by {
            assert(keyed(after)[i] == with_entry(keyed(before), key@, value)[i]);
        }
        assert(viewed(after) =~= expected);
    }
}

} // verus!
