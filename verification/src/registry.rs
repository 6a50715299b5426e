//! Lists of records keyed by a device identifier, read as maps.

use vstd::prelude::*;

verus! {

/// The map a list of records stands for: each record's key to its value, a later
/// record winning over an earlier one with the same key.
pub open spec fn keyed<T, V>(s: Seq<T>, key: spec_fn(T) -> Seq<char>, val: spec_fn(T) -> V) -> Map<
    Seq<char>,
    V,
>
    decreases s.len(),
{
    if s.len() == 0 {
        Map::empty()
    } else {
        keyed(s.drop_last(), key, val).insert(key(s.last()), val(s.last()))
    }
}

/// No two records share a key.
pub open spec fn keys_unique<T>(s: Seq<T>, key: spec_fn(T) -> Seq<char>) -> bool {
    forall|i: int, j: int| 0 <= i < j < s.len() ==> key(#[trigger] s[i]) != key(#[trigger] s[j])
}

/// With unique keys, the map holds exactly the keys of the records, each with
/// the value of its record.
pub proof fn lemma_keyed_index<T, V>(s: Seq<T>, key: spec_fn(T) -> Seq<char>, val: spec_fn(T) -> V)
    requires
        keys_unique(s, key),
    ensures
        forall|i: int|
            0 <= i < s.len() ==> #[trigger] keyed(s, key, val).dom().contains(key(s[i]))
                && keyed(s, key, val)[key(s[i])] == val(s[i]),
        forall|k: Seq<char>|
            #[trigger] keyed(s, key, val).dom().contains(k) ==> exists|i: int|
                0 <= i < s.len() && key(s[i]) == k,
    decreases s.len(),
{
    if s.len() > 0 {
        let t = s.drop_last();
        assert(keys_unique(t, key)) by {
            assert forall|i: int, j: int| 0 <= i < j < t.len() implies key(#[trigger] t[i]) != key(
                #[trigger] t[j],
            ) by {
                assert(t[i] == s[i]);
                assert(t[j] == s[j]);
            }
        }
        lemma_keyed_index(t, key, val);
        assert forall|i: int| 0 <= i < s.len() implies #[trigger] keyed(s, key, val).dom().contains(
            key(s[i]),
        ) && keyed(s, key, val)[key(s[i])] == val(s[i]) by {
            if i < s.len() - 1 {
                assert(t[i] == s[i]);
                assert(keyed(t, key, val).dom().contains(key(t[i])));
                assert(key(s[i]) != key(s[s.len() - 1]));
            }
        }
        assert forall|k: Seq<char>| #[trigger]
            keyed(s, key, val).dom().contains(k) implies exists|i: int|
            0 <= i < s.len() && key(s[i]) == k by {
            if k != key(s.last()) {
                assert(keyed(t, key, val).dom().contains(k));
                let i = choose|i: int| 0 <= i < t.len() && key(t[i]) == k;
                assert(t[i] == s[i]);
            }
        }
    }
}

/// Appending a record with a new key adds that key, keeping the keys unique.
pub proof fn lemma_keyed_push<T, V>(
    s: Seq<T>,
    key: spec_fn(T) -> Seq<char>,
    val: spec_fn(T) -> V,
    x: T,
)
    requires
        keys_unique(s, key),
        !keyed(s, key, val).dom().contains(key(x)),
    ensures
        keys_unique(s.push(x), key),
        keyed(s.push(x), key, val) == keyed(s, key, val).insert(key(x), val(x)),
{
    lemma_keyed_index(s, key, val);
    assert(s.push(x).drop_last() =~= s);
    let t = s.push(x);
    assert forall|i: int, j: int| 0 <= i < j < t.len() implies key(#[trigger] t[i]) != key(
        #[trigger] t[j],
    ) by {
        if j == s.len() {
            assert(t[i] == s[i]);
            assert(keyed(s, key, val).dom().contains(key(s[i])));
        } else {
            assert(t[i] == s[i] && t[j] == s[j]);
        }
    }
}

/// Replacing the record at `i` by one with the same key changes only that
/// key's value.
pub proof fn lemma_keyed_update<T, V>(
    s: Seq<T>,
    key: spec_fn(T) -> Seq<char>,
    val: spec_fn(T) -> V,
    i: int,
    x: T,
)
    requires
        keys_unique(s, key),
        0 <= i < s.len(),
        key(x) == key(s[i]),
    ensures
        keys_unique(s.update(i, x), key),
        keyed(s.update(i, x), key, val) == keyed(s, key, val).insert(key(x), val(x)),
    decreases s.len(),
{
    let u = s.update(i, x);
    assert forall|a: int, b: int| 0 <= a < b < u.len() implies key(#[trigger] u[a]) != key(
        #[trigger] u[b],
    ) by {
        assert(key(u[a]) == key(s[a]));
        assert(key(u[b]) == key(s[b]));
    }
    lemma_keyed_index(s, key, val);
    lemma_keyed_index(u, key, val);
    let m1 = keyed(u, key, val);
    let m2 = keyed(s, key, val).insert(key(x), val(x));
    assert forall|k: Seq<char>| m1.dom().contains(k) <==> m2.dom().contains(k) by {
        if m1.dom().contains(k) {
            let j = choose|j: int| 0 <= j < u.len() && key(u[j]) == k;
            if j != i {
                assert(u[j] == s[j]);
            }
        }
        if m2.dom().contains(k) && k != key(x) {
            let j = choose|j: int| 0 <= j < s.len() && key(s[j]) == k;
            assert(u[j] == s[j]);
        }
        if k == key(x) {
            assert(key(u[i]) == k);
        }
    }
    assert forall|k: Seq<char>| #[trigger] m1.dom().contains(k) implies m1[k] == m2[k] by {
        let j = choose|j: int| 0 <= j < u.len() && key(u[j]) == k;
        if j != i {
            assert(u[j] == s[j]);
            assert(key(s[j]) != key(s[i]));
        }
    }
    assert(m1 =~= m2);
}

} // verus!
