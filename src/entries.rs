//! The entries of a vault: pairs of an id and a secret value, with distinct
//! ids, seen as a map from ids to values.
use std::collections::BTreeMap;
use vstd::prelude::*;
use vstd::string::StringExecFns;

verus! {

#[verifier::external_type_specification]
#[verifier::external_body]
pub struct ExJsonError(serde_json::Error);

/// The JSON object that serde_json writes for the map from ids to values.
pub uninterp spec fn entries_json(m: Map<Seq<char>, Seq<char>>) -> Seq<u8>;

/// The map from ids to values that serde_json reads from `b` as a JSON object
/// of strings, or none where `b` is not one.
pub uninterp spec fn entries_of_json(b: Seq<u8>) -> Option<Map<Seq<char>, Seq<char>>>;

/// Some pair of `s` has the id `k`.
pub open spec fn has_id(s: Seq<(String, String)>, k: Seq<char>) -> bool {
    exists|i: int| 0 <= i < s.len() && #[trigger] s[i].0@ == k
}

/// No two pairs of `s` share an id.
pub open spec fn ids_unique(s: Seq<(String, String)>) -> bool {
    forall|i: int, j: int|
        0 <= i < s.len() && 0 <= j < s.len() && i != j ==> #[trigger] s[i].0@ != #[trigger] s[j].0@
}

/// The map from ids to values that the pairs `s` hold.
pub open spec fn pairs_map(s: Seq<(String, String)>) -> Map<Seq<char>, Seq<char>> {
    Map::new(
        |k: Seq<char>| has_id(s, k),
        |k: Seq<char>| s[choose|i: int| 0 <= i < s.len() && #[trigger] s[i].0@ == k].1@,
    )
}

/// With distinct ids, each pair is what the map holds for its id.
pub proof fn lemma_pairs_map_at(s: Seq<(String, String)>, i: int)
    requires
        ids_unique(s),
        0 <= i < s.len(),
    ensures
        pairs_map(s).contains_key(s[i].0@),
        pairs_map(s)[s[i].0@] == s[i].1@,
{
    let k = s[i].0@;
    assert(has_id(s, k));
    let j = choose|j: int| 0 <= j < s.len() && #[trigger] s[j].0@ == k;
    assert(j == i);
}

/// The map of finitely many pairs is finite.
pub proof fn lemma_pairs_map_finite(s: Seq<(String, String)>)
    ensures
        pairs_map(s).dom().finite(),
    decreases s.len(),
{
    let ids = Set::new(|i: int| 0 <= i < s.len());
    let f = |i: int| s[i].0@;
    assert(ids =~= vstd::set_lib::set_int_range(0, s.len() as int));
    vstd::set_lib::lemma_int_range(0, s.len() as int);
    ids.lemma_map_finite(f);
    assert(pairs_map(s).dom() =~= ids.map(f)) by {
        assert forall|k: Seq<char>| pairs_map(s).dom().contains(k) implies ids.map(f).contains(k) by {
            let i = choose|i: int| 0 <= i < s.len() && #[trigger] s[i].0@ == k;
            assert(ids.contains(i) && f(i) == k);
        }
    }
}

/// The pairs and the map after appending a pair with a new id.
pub proof fn lemma_pairs_push(s: Seq<(String, String)>, p: (String, String))
    requires
        ids_unique(s),
        !has_id(s, p.0@),
    ensures
        ids_unique(s.push(p)),
        pairs_map(s.push(p)) == pairs_map(s).insert(p.0@, p.1@),
{
    let t = s.push(p);
    assert(forall|i: int| 0 <= i < s.len() ==> #[trigger] t[i] == s[i]);
    assert(ids_unique(t)) by {
        assert forall|i: int, j: int|
            0 <= i < t.len() && 0 <= j < t.len() && i != j implies #[trigger] t[i].0@
            != #[trigger] t[j].0@ by {
            if i < s.len() && j < s.len() {
            } else if i < s.len() {
                assert(s[i].0@ == t[i].0@);
            } else {
                assert(s[j].0@ == t[j].0@);
            }
        }
    }
    assert forall|k: Seq<char>| #[trigger] has_id(t, k) == (has_id(s, k) || k == p.0@) by {
        if has_id(t, k) && k != p.0@ {
            let i = choose|i: int| 0 <= i < t.len() && #[trigger] t[i].0@ == k;
            assert(s[i].0@ == k);
        }
        if has_id(s, k) {
            let i = choose|i: int| 0 <= i < s.len() && #[trigger] s[i].0@ == k;
            assert(t[i].0@ == k);
        }
        if k == p.0@ {
            assert(t[s.len() as int].0@ == k);
        }
    }
    assert forall|k: Seq<char>| #[trigger] pairs_map(t).contains_key(k) implies pairs_map(t)[k]
        == pairs_map(s).insert(p.0@, p.1@)[k] by {
        let i = choose|i: int| 0 <= i < t.len() && #[trigger] t[i].0@ == k;
        lemma_pairs_map_at(t, i);
        if i < s.len() {
            lemma_pairs_map_at(s, i);
        }
    }
    assert(pairs_map(t) =~= pairs_map(s).insert(p.0@, p.1@));
}

/// The pairs and the map after giving the pair at `i` a new value.
pub proof fn lemma_pairs_update(s: Seq<(String, String)>, i: int, p: (String, String))
    requires
        ids_unique(s),
        0 <= i < s.len(),
        p.0@ == s[i].0@,
    ensures
        ids_unique(s.update(i, p)),
        pairs_map(s.update(i, p)) == pairs_map(s).insert(p.0@, p.1@),
{
    let t = s.update(i, p);
    assert(forall|j: int| 0 <= j < s.len() ==> #[trigger] t[j].0@ == s[j].0@);
    assert forall|k: Seq<char>| #[trigger] has_id(t, k) == has_id(s, k) by {
        if has_id(t, k) {
            let j = choose|j: int| 0 <= j < t.len() && #[trigger] t[j].0@ == k;
            assert(s[j].0@ == k);
        }
        if has_id(s, k) {
            let j = choose|j: int| 0 <= j < s.len() && #[trigger] s[j].0@ == k;
            assert(t[j].0@ == k);
        }
    }
    lemma_pairs_map_at(s, i);
    assert forall|k: Seq<char>| #[trigger] pairs_map(t).contains_key(k) implies pairs_map(t)[k]
        == pairs_map(s).insert(p.0@, p.1@)[k] by {
        let j = choose|j: int| 0 <= j < t.len() && #[trigger] t[j].0@ == k;
        lemma_pairs_map_at(t, j);
        if j != i {
            lemma_pairs_map_at(s, j);
        }
    }
    assert(pairs_map(t) =~= pairs_map(s).insert(p.0@, p.1@));
}

/// The pairs and the map after taking out the pair at `i`.
pub proof fn lemma_pairs_remove(s: Seq<(String, String)>, i: int)
    requires
        ids_unique(s),
        0 <= i < s.len(),
    ensures
        ids_unique(s.remove(i)),
        pairs_map(s.remove(i)) == pairs_map(s).remove(s[i].0@),
{
    let t = s.remove(i);
    let k0 = s[i].0@;
    assert(forall|j: int| 0 <= j < i ==> #[trigger] t[j] == s[j]);
    assert(forall|j: int| i <= j < t.len() ==> #[trigger] t[j] == s[j + 1]);
    assert(ids_unique(t)) by {
        assert forall|a: int, b: int|
            0 <= a < t.len() && 0 <= b < t.len() && a != b implies #[trigger] t[a].0@
            != #[trigger] t[b].0@ by {
            let a2 = if a < i { a } else { a + 1 };
            let b2 = if b < i { b } else { b + 1 };
            assert(t[a] == s[a2]);
            assert(t[b] == s[b2]);
        }
    }
    assert forall|k: Seq<char>| #[trigger] has_id(t, k) == (has_id(s, k) && k != k0) by {
        if has_id(t, k) {
            let j = choose|j: int| 0 <= j < t.len() && #[trigger] t[j].0@ == k;
            let j2 = if j < i { j } else { j + 1 };
            assert(t[j] == s[j2]);
            assert(s[j2].0@ == k);
        }
        if has_id(s, k) && k != k0 {
            let j = choose|j: int| 0 <= j < s.len() && #[trigger] s[j].0@ == k;
            if j < i {
                assert(t[j].0@ == k);
            } else {
                assert(j != i);
                assert(t[j - 1] == s[j]);
                assert(t[j - 1].0@ == k);
            }
        }
    }
    assert forall|k: Seq<char>| #[trigger] pairs_map(t).contains_key(k) implies pairs_map(t)[k]
        == pairs_map(s).remove(k0)[k] by {
        let j = choose|j: int| 0 <= j < t.len() && #[trigger] t[j].0@ == k;
        let j2 = if j < i { j } else { j + 1 };
        assert(t[j] == s[j2]);
        lemma_pairs_map_at(t, j);
        lemma_pairs_map_at(s, j2);
    }
    assert(pairs_map(t) =~= pairs_map(s).remove(k0));
}

/// The position of the pair with id `key`, if there is one.
pub fn find(entries: &Vec<(String, String)>, key: &str) -> (r: Option<usize>)
    ensures
        r matches Some(i) ==> i < entries@.len() && entries@[i as int].0@ == key@,
        r is None ==> !has_id(entries@, key@),
{
    let wanted = String::from_str(key);
    let mut i: usize = 0;
    while i < entries.len()
        invariant
            i <= entries@.len(),
            wanted@ == key@,
            forall|j: int| 0 <= j < i ==> #[trigger] entries@[j].0@ != key@,
        decreases entries@.len() - i,
    {
        if entries[i].0 == wanted {
            return Some(i);
        }
        i += 1;
    }
    None
}

/// Relies on serde_json's `to_vec` on a `BTreeMap<&str, &str>` that holds the
/// pairs: the map's keys are strings, so it does not fail, and its output
/// depends on the map alone.
#[verifier::external_body]
fn json_encode(entries: &Vec<(String, String)>) -> (r: Result<Vec<u8>, serde_json::Error>)
    requires
        ids_unique(entries@),
    ensures
        r is Ok,
        r matches Ok(b) ==> b@ == entries_json(pairs_map(entries@)),
{
    let map: BTreeMap<&str, &str> = entries.iter().map(|(k, v)| (k.as_str(), v.as_str())).collect();
    serde_json::to_vec(&map)
}

/// Relies on serde_json's `from_slice` into a `BTreeMap<String, String>`, whose
/// keys come out distinct: it reads back what `to_vec` wrote for a map of
/// strings, and its result depends on the bytes alone.
#[verifier::external_body]
fn json_decode(bytes: &[u8]) -> (r: Result<Vec<(String, String)>, serde_json::Error>)
    ensures
        r is Ok <==> entries_of_json(bytes@) is Some,
        r matches Ok(v) ==> ids_unique(v@),
        r matches Ok(v) ==> entries_of_json(bytes@) == Some(pairs_map(v@)),
        forall|m: Map<Seq<char>, Seq<char>>| #![trigger entries_json(m)]
            (m.dom().finite() && bytes@ == entries_json(m)) ==> r is Ok,
        forall|m: Map<Seq<char>, Seq<char>>| #![trigger entries_json(m)]
            (m.dom().finite() && bytes@ == entries_json(m)) ==> (r matches Ok(v) ==> pairs_map(v@) == m),
{
    let map: BTreeMap<String, String> = serde_json::from_slice(bytes)?;
    Ok(map.into_iter().collect())
}

/// The JSON encoding of the map that `entries` hold.
pub fn encode_entries(entries: &Vec<(String, String)>) -> (r: Vec<u8>)
    requires
        ids_unique(entries@),
    ensures
        r@ == entries_json(pairs_map(entries@)),
{
    match json_encode(entries) {
        Ok(b) => b,
        Err(_) => Vec::new(),
    }
}

/// The pairs that the JSON object `bytes` holds; none where `bytes` is not a
/// JSON object of strings.
pub fn decode_entries(bytes: &[u8]) -> (r: Option<Vec<(String, String)>>)
    ensures
        match entries_of_json(bytes@) {
            Some(m) => r matches Some(v) && ids_unique(v@) && pairs_map(v@) == m,
            None => r is None,
        },
        forall|m: Map<Seq<char>, Seq<char>>| #![trigger entries_json(m)]
            (m.dom().finite() && bytes@ == entries_json(m)) ==> entries_of_json(bytes@) == Some(m),
{
    match json_decode(bytes) {
        Ok(v) => Some(v),
        Err(_) => None,
    }
}

} // verus!
