use vstd::prelude::*;

verus! {

/// Whether an association list binds each name at most once.
pub open spec fn keys_unique(s: Seq<(String, i64)>) -> bool {
    forall|p: int, q: int| 0 <= p < q < s.len() ==> (#[trigger] s[p]).0@ != (#[trigger] s[q]).0@
}

/// The mathematical map an association list stands for.
pub open spec fn as_map(s: Seq<(String, i64)>) -> Map<Seq<char>, i64>
    decreases s.len(),
{
    if s.len() == 0 {
        Map::<Seq<char>, i64>::empty()
    } else {
        as_map(s.drop_last()).insert(s.last().0@, s.last().1)
    }
}

/// A key is in the map exactly when some entry binds it.
pub proof fn lemma_as_map_contains(s: Seq<(String, i64)>, k: Seq<char>)
    ensures
        as_map(s).contains_key(k) <==> exists|p: int|
            0 <= p < s.len() && (#[trigger] s[p]).0@ == k,
    decreases s.len(),
{
    if s.len() > 0 {
        lemma_as_map_contains(s.drop_last(), k);
        if s.last().0@ == k {
            assert(s[s.len() - 1].0@ == k);
        } else {
            if as_map(s).contains_key(k) {
                let p = choose|p: int|
                    0 <= p < s.drop_last().len() && (#[trigger] s.drop_last()[p]).0@ == k;
                assert(s[p].0@ == k);
            }
            if exists|p: int| 0 <= p < s.len() && (#[trigger] s[p]).0@ == k {
                let p = choose|p: int| 0 <= p < s.len() && (#[trigger] s[p]).0@ == k;
                assert(s.drop_last()[p].0@ == k);
            }
        }
    }
}

/// With unique keys, the map's value at an entry's key is that entry's value.
pub proof fn lemma_as_map_index(s: Seq<(String, i64)>, p: int)
    requires
        keys_unique(s),
        0 <= p < s.len(),
    ensures
        as_map(s).contains_key(s[p].0@),
        as_map(s)[s[p].0@] == s[p].1,
    decreases s.len(),
{
    if p < s.len() - 1 {
        assert(keys_unique(s.drop_last()));
        lemma_as_map_index(s.drop_last(), p);
        assert(s.drop_last()[p] == s[p]);
    }
}

/// Replacing the entry that binds a key changes just that key's value, and
/// keeps the keys unique.
pub proof fn lemma_as_map_update(s: Seq<(String, i64)>, p: int, pair: (String, i64))
    requires
        keys_unique(s),
        0 <= p < s.len(),
        pair.0@ == s[p].0@,
    ensures
        as_map(s.update(p, pair)) == as_map(s).insert(pair.0@, pair.1),
        keys_unique(s.update(p, pair)),
    decreases s.len(),
{
    let t = s.update(p, pair);
    assert(keys_unique(t));
    if p == s.len() - 1 {
        assert(t.drop_last() =~= s.drop_last());
        assert(as_map(t) =~= as_map(s).insert(pair.0@, pair.1));
    } else {
        assert(t.drop_last() =~= s.drop_last().update(p, pair));
        assert(keys_unique(s.drop_last()));
        lemma_as_map_update(s.drop_last(), p, pair);
        assert(t.last() == s.last());
        assert(s.last().0@ != pair.0@);
        assert(as_map(t) =~= as_map(s).insert(pair.0@, pair.1));
    }
}

/// Appending a binding for a fresh key adds exactly that key, and keeps the
/// keys unique.
pub proof fn lemma_as_map_push(s: Seq<(String, i64)>, pair: (String, i64))
    requires
        keys_unique(s),
        forall|p: int| 0 <= p < s.len() ==> (#[trigger] s[p]).0@ != pair.0@,
    ensures
        as_map(s.push(pair)) == as_map(s).insert(pair.0@, pair.1),
        keys_unique(s.push(pair)),
{
    assert(s.push(pair).drop_last() =~= s);
    assert(s.push(pair).last() == pair);
}

/// Finds the entry that binds `key`, if there is one.
pub fn find_key(entries: &Vec<(String, i64)>, key: &String) -> (r: Option<usize>)
    ensures
        (r matches Some(p) ==> p < entries@.len() && entries@[p as int].0@ == key@),
        r is None ==> forall|p: int| 0 <= p < entries@.len() ==> (#[trigger] entries@[p]).0@
            != key@,
{
    let mut p: usize = 0;
    while p < entries.len()
        invariant
            p <= entries@.len(),
            forall|q: int| 0 <= q < p ==> (#[trigger] entries@[q]).0@ != key@,
        decreases entries@.len() - p,
    {
        if entries[p].0 == *key {
            return Some(p);
        }
        p = p + 1;
    }
    None
}

} // verus!
