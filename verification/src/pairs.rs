//! Keyed collections held as vectors of pairs with distinct keys.
use vstd::prelude::*;

verus! {

/// The map that a vector of pairs denotes; a later pair overrides an earlier one.
pub open spec fn pairs_map<V: View>(s: Seq<(String, V)>) -> Map<Seq<char>, V::V>
    decreases s.len(),
{
    if s.len() == 0 {
        Map::empty()
    } else {
        pairs_map(s.drop_last()).insert(s.last().0@, s.last().1@)
    }
}

/// No two pairs share a key.
pub open spec fn keys_distinct<V>(s: Seq<(String, V)>) -> bool {
    forall|i: int, j: int| 0 <= i < s.len() && 0 <= j < s.len() && i != j ==> s[i].0@ != s[j].0@
}

/// A key is in the map exactly when some pair holds it.
pub proof fn lemma_pairs_map_contains<V: View>(s: Seq<(String, V)>, k: Seq<char>)
    ensures
        pairs_map(s).contains_key(k) <==> exists|i: int| 0 <= i < s.len() && s[i].0@ == k,
    decreases s.len(),
{
    if s.len() > 0 {
        lemma_pairs_map_contains(s.drop_last(), k);
        if pairs_map(s).contains_key(k) {
            if s.last().0@ == k {
                assert(s[s.len() - 1].0@ == k);
            } else {
                let i = choose|i: int| 0 <= i < s.drop_last().len() && s.drop_last()[i].0@ == k;
                assert(s[i].0@ == k);
            }
        }
        if exists|i: int| 0 <= i < s.len() && s[i].0@ == k {
            let i = choose|i: int| 0 <= i < s.len() && s[i].0@ == k;
            if i < s.len() - 1 {
                assert(s.drop_last()[i].0@ == k);
            }
        }
    }
}

/// With distinct keys, each pair's value is the map's value at its key.
pub proof fn lemma_pairs_map_index<V: View>(s: Seq<(String, V)>, i: int)
    requires
        keys_distinct(s),
        0 <= i < s.len(),
    ensures
        pairs_map(s).contains_key(s[i].0@),
        pairs_map(s)[s[i].0@] == s[i].1@,
    decreases s.len(),
{
    if i < s.len() - 1 {
        assert(keys_distinct(s.drop_last()));
        lemma_pairs_map_index(s.drop_last(), i);
        assert(s.drop_last()[i] == s[i]);
        assert(s.last().0@ != s[i].0@);
    }
}

/// Appending a pair with a new key inserts it.
pub proof fn lemma_pairs_map_push<V: View>(s: Seq<(String, V)>, p: (String, V))
    requires
        keys_distinct(s),
        !pairs_map(s).contains_key(p.0@),
    ensures
        keys_distinct(s.push(p)),
        pairs_map(s.push(p)) == pairs_map(s).insert(p.0@, p.1@),
{
    assert(s.push(p).drop_last() == s);
    assert forall|i: int, j: int|
        0 <= i < s.push(p).len() && 0 <= j < s.push(p).len() && i != j implies s.push(p)[i].0@
        != s.push(p)[j].0@ by {
        if i == s.len() && j < s.len() {
            lemma_pairs_map_contains(s, p.0@);
            assert(s[j].0@ != p.0@);
        }
        if j == s.len() && i < s.len() {
            lemma_pairs_map_contains(s, p.0@);
            assert(s[i].0@ != p.0@);
        }
    }
}

/// Replacing the value of a pair updates the map at its key.
pub proof fn lemma_pairs_map_update<V: View>(s: Seq<(String, V)>, i: int, p: (String, V))
    requires
        keys_distinct(s),
        0 <= i < s.len(),
        p.0@ == s[i].0@,
    ensures
        keys_distinct(s.update(i, p)),
        pairs_map(s.update(i, p)) == pairs_map(s).insert(p.0@, p.1@),
    decreases s.len(),
{
    let t = s.update(i, p);
    assert forall|a: int, b: int| 0 <= a < t.len() && 0 <= b < t.len() && a != b implies t[a].0@
        != t[b].0@ by {
        assert(t[a].0@ == s[a].0@);
        assert(t[b].0@ == s[b].0@);
    }
    if i == s.len() - 1 {
        assert(t.drop_last() == s.drop_last());
        assert(pairs_map(s).insert(p.0@, p.1@) =~= pairs_map(s.drop_last()).insert(p.0@, p.1@));
    } else {
        assert(keys_distinct(s.drop_last()));
        lemma_pairs_map_update(s.drop_last(), i, p);
        assert(t.drop_last() == s.drop_last().update(i, p));
        assert(t.last() == s.last());
        assert(s.last().0@ != p.0@);
        assert(pairs_map(t) =~= pairs_map(s).insert(p.0@, p.1@));
    }
}

/// The index of the pair whose key is `key`, if any.
pub fn find_key<V>(pairs: &Vec<(String, V)>, key: &str) -> (r: Option<usize>)
    ensures
        match r {
            Some(i) => i < pairs@.len() && pairs@[i as int].0@ == key@,
            None => forall|i: int| 0 <= i < pairs@.len() ==> pairs@[i].0@ != key@,
        },
{
    let mut i: usize = 0;
    while i < pairs.len()
        invariant
            i <= pairs@.len(),
            forall|k: int| 0 <= k < i ==> pairs@[k].0@ != key@,
        decreases pairs@.len() - i,
    {
        if crate::text::text_equal(pairs[i].0.as_str(), key) {
            return Some(i);
        }
        i = i + 1;
    }
    None
}

} // verus!
