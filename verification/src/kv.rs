//! Lists of (name, value) text pairs read as maps: a later pair for a name
//! replaces an earlier one, as inserting into a map does.

use vstd::prelude::*;
use crate::text::{chars_of, seq_eq};

verus! {

/// The pairs as character sequences.
pub open spec fn pairs_view<T: View>(v: Seq<(String, T)>) -> Seq<(Seq<char>, T::V)> {
    v.map_values(|p: (String, T)| (p.0@, p.1@))
}

/// The map that inserting the pairs in order gives.
pub open spec fn kv_map<V>(v: Seq<(Seq<char>, V)>) -> Map<Seq<char>, V>
    decreases v.len(),
{
    if v.len() == 0 {
        Map::empty()
    } else {
        kv_map(v.drop_last()).insert(v.last().0, v.last().1)
    }
}

/// The map of a list of pairs.
pub open spec fn map_of<T: View>(v: Seq<(String, T)>) -> Map<Seq<char>, T::V> {
    kv_map(pairs_view(v))
}

/// Inserting a pair at the end inserts into the map.
pub proof fn lemma_map_of_push<T: View>(v: Seq<(String, T)>, k: String, x: T)
    ensures
        map_of(v.push((k, x))) == map_of(v).insert(k@, x@),
{
    assert(pairs_view(v.push((k, x))).drop_last() =~= pairs_view(v));
}

/// A name is in the map exactly where some pair carries it.
pub proof fn lemma_kv_dom<V>(v: Seq<(Seq<char>, V)>, k: Seq<char>)
    ensures
        kv_map(v).contains_key(k) <==> exists|i: int| 0 <= i < v.len() && (#[trigger] v[i]).0 == k,
    decreases v.len(),
{
    if v.len() > 0 {
        lemma_kv_dom(v.drop_last(), k);
        if kv_map(v.drop_last()).contains_key(k) {
            let i = choose|i: int| 0 <= i < v.drop_last().len() && (#[trigger] v.drop_last()[i]).0 == k;
            assert(v[i] == v.drop_last()[i]);
        }
        if exists|i: int| 0 <= i < v.len() && (#[trigger] v[i]).0 == k {
            let i = choose|i: int| 0 <= i < v.len() && (#[trigger] v[i]).0 == k;
            if i < v.len() - 1 {
                assert(v.drop_last()[i] == v[i]);
            }
        }
    }
}

/// The map's value for a name is that of the last pair carrying it.
pub proof fn lemma_kv_last<V>(v: Seq<(Seq<char>, V)>, i: int)
    requires
        0 <= i < v.len(),
        forall|j: int| i < j < v.len() ==> (#[trigger] v[j]).0 != v[i].0,
    ensures
        kv_map(v).contains_key(v[i].0),
        kv_map(v)[v[i].0] == v[i].1,
    decreases v.len(),
{
    if i < v.len() - 1 {
        assert forall|j: int| i < j < v.drop_last().len() implies (#[trigger] v.drop_last()[j]).0
            != v.drop_last()[i].0 by {
            assert(v.drop_last()[j] == v[j]);
        }
        lemma_kv_last(v.drop_last(), i);
        assert(v.drop_last()[i] == v[i]);
        assert(v[v.len() - 1].0 != v[i].0);
    }
}

/// The value for `key`: that of the last pair carrying it.
pub fn kv_get<'a, T: View>(v: &'a Vec<(String, T)>, key: &str) -> (r: Option<&'a T>)
    ensures
        match r {
            Some(x) => map_of(v@).contains_key(key@) && map_of(v@)[key@] == x@,
            None => !map_of(v@).contains_key(key@),
        },
{
    let k = chars_of(key);
    let mut i = v.len();
    while i > 0
        invariant
            0 <= i <= v@.len(),
            k@ == key@,
            forall|j: int| i <= j < v@.len() ==> (#[trigger] v@[j]).0@ != key@,
        decreases i,
    {
        let name = chars_of(v[i - 1].0.as_str());
        if seq_eq(name.as_slice(), k.as_slice()) {
            proof {
                let pv = pairs_view(v@);
                assert forall|j: int| (i - 1) < j < pv.len() implies (#[trigger] pv[j]).0 != pv[i
                    - 1].0 by {
                    assert(pv[j].0 == v@[j].0@);
                }
                lemma_kv_last(pv, i - 1);
            }
            return Some(&v[i - 1].1);
        }
        i = i - 1;
    }
    proof {
        let pv = pairs_view(v@);
        lemma_kv_dom(pv, key@);
        if exists|j: int| 0 <= j < pv.len() && (#[trigger] pv[j]).0 == key@ {
            let j = choose|j: int| 0 <= j < pv.len() && (#[trigger] pv[j]).0 == key@;
            assert(v@[j].0@ == pv[j].0);
        }
    }
    None
}

/// Inserts `key` with `value` (a later insertion of the same name wins).
pub fn kv_insert<T: View>(v: &mut Vec<(String, T)>, key: String, value: T)
    ensures
        map_of(final(v)@) == map_of(old(v)@).insert(key@, value@),
        final(v)@ == old(v)@.push((key, value)),
{
    proof {
        lemma_map_of_push(v@, key, value);
    }
    v.push((key, value));
}

} // verus!
