use vstd::prelude::*;
use vstd::string::StrSliceExecFns;

verus! {

/// Whether no key occurs twice.
pub open spec fn unique_keys(keys: Seq<Seq<char>>) -> bool {
    forall|i: int, j: int| 0 <= i < j < keys.len() ==> keys[i] != keys[j]
}

/// The map from each key to the value stored beside it.
pub open spec fn keyed_map<V>(keys: Seq<Seq<char>>, vals: Seq<V>) -> Map<Seq<char>, V> {
    Map::new(
        |k: Seq<char>| keys.contains(k),
        |k: Seq<char>| vals[choose|i: int| 0 <= i < keys.len() && keys[i] == k],
    )
}

/// Looking up the key at position `i` yields the value at `i`.
pub proof fn lemma_keyed_lookup<V>(keys: Seq<Seq<char>>, vals: Seq<V>, i: int)
    requires
        unique_keys(keys),
        0 <= i < keys.len(),
    ensures
        keyed_map(keys, vals).contains_key(keys[i]),
        keyed_map(keys, vals)[keys[i]] == vals[i],
{
    let k = keys[i];
    assert(keys.contains(k));
    let j = choose|j: int| 0 <= j < keys.len() && keys[j] == k;
    if j < i {
        assert(keys[j] != keys[i]);
    } else if i < j {
        assert(keys[i] != keys[j]);
    }
}

/// Replacing the value at position `i` replaces it in the map.
pub proof fn lemma_keyed_update<V>(keys: Seq<Seq<char>>, vals: Seq<V>, i: int, v: V)
    requires
        unique_keys(keys),
        0 <= i < keys.len(),
        vals.len() == keys.len(),
    ensures
        keyed_map(keys, vals.update(i, v)) == keyed_map(keys, vals).insert(keys[i], v),
{
    let m1 = keyed_map(keys, vals.update(i, v));
    let m2 = keyed_map(keys, vals).insert(keys[i], v);
    assert forall|k: Seq<char>| #[trigger] m1.contains_key(k) implies m1[k] == m2[k] by {
        let j = choose|j: int| 0 <= j < keys.len() && keys[j] == k;
        lemma_keyed_lookup(keys, vals.update(i, v), j);
        lemma_keyed_lookup(keys, vals, j);
        if j != i {
            if j < i {
                assert(keys[j] != keys[i]);
            } else {
                assert(keys[i] != keys[j]);
            }
        }
    }
    assert(m1 =~= m2);
}

/// Appending a fresh key adds it to the map.
pub proof fn lemma_keyed_push<V>(keys: Seq<Seq<char>>, vals: Seq<V>, k: Seq<char>, v: V)
    requires
        unique_keys(keys),
        !keys.contains(k),
        vals.len() == keys.len(),
    ensures
        unique_keys(keys.push(k)),
        keyed_map(keys.push(k), vals.push(v)) == keyed_map(keys, vals).insert(k, v),
{
    let ks = keys.push(k);
    let vs = vals.push(v);
    assert forall|i: int, j: int| 0 <= i < j < ks.len() implies ks[i] != ks[j] by {
        if j == keys.len() {
            assert(keys[i] == ks[i]);
        }
    }
    let m1 = keyed_map(ks, vs);
    let m2 = keyed_map(keys, vals).insert(k, v);
    assert forall|q: Seq<char>| #[trigger] m1.contains_key(q) implies m1[q] == m2[q] by {
        let j = choose|j: int| 0 <= j < ks.len() && ks[j] == q;
        lemma_keyed_lookup(ks, vs, j);
        if j < keys.len() {
            lemma_keyed_lookup(keys, vals, j);
        }
    }
    assert forall|q: Seq<char>| #[trigger] m2.contains_key(q) implies m1.contains_key(q) by {
        if q != k {
            let j = choose|j: int| 0 <= j < keys.len() && keys[j] == q;
            assert(ks[j] == q);
        } else {
            assert(ks[keys.len() as int] == q);
        }
    }
    assert(m1 =~= m2);
}

/// Whether two strings hold the same characters.
pub fn str_eq(a: &str, b: &str) -> (r: bool)
    ensures
        r == (a@ == b@),
{
    let n = a.unicode_len();
    if n != b.unicode_len() {
        return false;
    }
    let mut i: usize = 0;
    while i < n
        invariant
            n == a@.len() == b@.len(),
            i <= n,
            forall|j: int| 0 <= j < i ==> a@[j] == b@[j],
        decreases n - i,
    {
        if a.get_char(i) != b.get_char(i) {
            return false;
        }
        i = i + 1;
    }
    assert(a@ =~= b@);
    true
}

} // verus!
