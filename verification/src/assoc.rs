//! Text-keyed association lists: vectors of `(key, value)` pairs with
//! distinct keys, read as maps from the keys' characters to the values.
use vstd::prelude::*;

verus! {

/// No key occurs twice.
pub open spec fn keys_unique<V>(v: Seq<(String, V)>) -> bool {
    forall|i: int, j: int| 0 <= i < v.len() && 0 <= j < v.len() && i != j ==> #[trigger] v[i].0@ != #[trigger] v[j].0@
}

/// Some pair has key `k`.
pub open spec fn has_key<V>(v: Seq<(String, V)>, k: Seq<char>) -> bool {
    exists|j: int| 0 <= j < v.len() && #[trigger] v[j].0@ == k
}

/// The map the pairs stand for.
pub open spec fn assoc_map<V>(v: Seq<(String, V)>) -> Map<Seq<char>, V> {
    Map::new(
        |k: Seq<char>| has_key(v, k),
        |k: Seq<char>| v[choose|j: int| 0 <= j < v.len() && #[trigger] v[j].0@ == k].1,
    )
}

/// Position of the pair with key `k`, if any.
pub fn assoc_position<V>(v: &Vec<(String, V)>, k: &String) -> (r: Option<usize>)
    ensures
        r is None <==> !has_key(v@, k@),
        r matches Some(j) ==> j < v@.len() && v@[j as int].0@ == k@,
{
    let mut j: usize = 0;
    while j < v.len()
        invariant
            j <= v@.len(),
            forall|i: int| 0 <= i < j ==> #[trigger] v@[i].0@ != k@,
        decreases v@.len() - j,
    {
        if v[j].0 == *k {
            return Some(j);
        }
        j += 1;
    }
    None
}

/// Sets the value of key `k` to `val`, adding the key when it is new.
pub fn assoc_insert<V>(v: &mut Vec<(String, V)>, k: String, val: V)
    requires
        keys_unique(old(v)@),
    ensures
        keys_unique(final(v)@),
        assoc_map(final(v)@) == assoc_map(old(v)@).insert(k@, val),
{
    let ghost kv = k@;
    match assoc_position(v, &k) {
        Some(j) => {
            let ghost before = v@;
            v.set(j, (k, val));
            let ghost after = v@;
            assert(after =~= before.update(j as int, (after[j as int].0, val)));
            assert forall|key: Seq<char>| #[trigger] has_key(after, key) <==> has_key(before, key) by {
                if has_key(before, key) {
                    let i = choose|i: int| 0 <= i < before.len() && before[i].0@ == key;
                    assert(after[i].0@ == key);
                }
                if has_key(after, key) {
                    let i = choose|i: int| 0 <= i < after.len() && after[i].0@ == key;
                    assert(before[i].0@ == key);
                }
            }
            assert(assoc_map(after) =~= assoc_map(before).insert(kv, val)) by {
                assert forall|key: Seq<char>| #[trigger] assoc_map(after).contains_key(key) implies assoc_map(after)[key]
                    == assoc_map(before).insert(kv, val)[key] by {
                    let i = choose|i: int| 0 <= i < after.len() && #[trigger] after[i].0@ == key;
                    if key == kv {
                        assert(i == j);
                    } else {
                        let i2 = choose|i2: int| 0 <= i2 < before.len() && #[trigger] before[i2].0@ == key;
                        assert(i2 == i);
                    }
                }
            }
        },
        None => {
            let ghost before = v@;
            v.push((k, val));
            let ghost after = v@;
            assert(after[before.len() as int].0@ == kv);
            assert forall|key: Seq<char>| #[trigger] has_key(after, key) <==> (has_key(before, key) || key == kv) by {
                if has_key(before, key) {
                    let i = choose|i: int| 0 <= i < before.len() && before[i].0@ == key;
                    assert(after[i].0@ == key);
                }
                if has_key(after, key) && key != kv {
                    let i = choose|i: int| 0 <= i < after.len() && after[i].0@ == key;
                    assert(i < before.len());
                    assert(before[i].0@ == key);
                }
                if key == kv {
                    assert(after[before.len() as int].0@ == key);
                }
            }
            assert(assoc_map(after) =~= assoc_map(before).insert(kv, val)) by {
                assert forall|key: Seq<char>| #[trigger] assoc_map(after).contains_key(key) implies assoc_map(after)[key]
                    == assoc_map(before).insert(kv, val)[key] by {
                    let i = choose|i: int| 0 <= i < after.len() && #[trigger] after[i].0@ == key;
                    if key == kv {
                        assert(i == before.len());
                    } else {
                        let i2 = choose|i2: int| 0 <= i2 < before.len() && #[trigger] before[i2].0@ == key;
                        assert(after[i2].0@ == key);
                        assert(i2 == i);
                    }
                }
            }
        },
    }
}

/// The value of key `k`, if some pair has it.
pub fn assoc_get<'b, V>(v: &'b Vec<(String, V)>, k: &String) -> (r: Option<&'b V>)
    requires
        keys_unique(v@),
    ensures
        r is Some <==> assoc_map(v@).contains_key(k@),
        r matches Some(x) ==> *x == assoc_map(v@)[k@],
{
    match assoc_position(v, k) {
        Some(j) => {
            let ghost c = choose|i: int| 0 <= i < v@.len() && #[trigger] v@[i].0@ == k@;
            assert(c == j);
            Some(&v[j].1)
        },
        None => None,
    }
}

} // verus!
