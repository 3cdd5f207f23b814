//! Lists of entries keyed by text, kept with each key at most once, and the
//! map from key to entry that such a list stands for.
use vstd::prelude::*;

verus! {

/// No key occurs twice.
pub open spec fn keys_distinct<V>(s: Seq<(Seq<char>, V)>) -> bool {
    forall|i: int, j: int| 0 <= i < j < s.len() ==> #[trigger] s[i].0 != #[trigger] s[j].0
}

/// The map from key to entry; a later entry wins.
pub open spec fn keyed_map<V>(s: Seq<(Seq<char>, V)>) -> Map<Seq<char>, V>
    decreases s.len(),
{
    if s.len() == 0 {
        Map::empty()
    } else {
        keyed_map(s.drop_last()).insert(s.last().0, s.last().1)
    }
}

/// A key is mapped exactly when some entry has it.
pub proof fn lemma_keyed_map_dom<V>(s: Seq<(Seq<char>, V)>, k: Seq<char>)
    ensures
        keyed_map(s).dom().contains(k) <==> exists|i: int| 0 <= i < s.len() && #[trigger] s[i].0 == k,
    decreases s.len(),
{
    if s.len() > 0 {
        lemma_keyed_map_dom(s.drop_last(), k);
        if keyed_map(s.drop_last()).dom().contains(k) {
            let i = choose|i: int| 0 <= i < s.drop_last().len() && #[trigger] s.drop_last()[i].0 == k;
            assert(s[i].0 == k);
        }
        if exists|i: int| 0 <= i < s.len() && #[trigger] s[i].0 == k {
            let i = choose|i: int| 0 <= i < s.len() && #[trigger] s[i].0 == k;
            if i < s.len() - 1 {
                assert(s.drop_last()[i].0 == k);
            }
        }
    }
}

/// Appending an entry with a new key keeps the keys distinct and maps it.
pub proof fn lemma_keyed_map_push<V>(s: Seq<(Seq<char>, V)>, x: (Seq<char>, V))
    requires
        keys_distinct(s),
        forall|i: int| 0 <= i < s.len() ==> #[trigger] s[i].0 != x.0,
    ensures
        keys_distinct(s.push(x)),
        keyed_map(s.push(x)) == keyed_map(s).insert(x.0, x.1),
{
    assert(s.push(x).drop_last() =~= s);
    assert forall|a: int, b: int| 0 <= a < b < s.push(x).len() implies #[trigger] s.push(x)[a].0
        != #[trigger] s.push(x)[b].0 by {
        if b == s.len() {
            assert(s[a].0 != x.0);
        }
    }
}

/// Replacing the entry of a key keeps the keys distinct and updates the
/// map.
pub proof fn lemma_keyed_map_update<V>(s: Seq<(Seq<char>, V)>, i: int, x: (Seq<char>, V))
    requires
        keys_distinct(s),
        0 <= i < s.len(),
        x.0 == s[i].0,
    ensures
        keyed_map(s.update(i, x)) == keyed_map(s).insert(x.0, x.1),
        keys_distinct(s.update(i, x)),
    decreases s.len(),
{
    let u = s.update(i, x);
    assert forall|a: int, b: int| 0 <= a < b < u.len() implies #[trigger] u[a].0 != #[trigger] u[b].0 by {
        assert(s[a].0 != s[b].0);
    }
    if i == s.len() - 1 {
        assert(u.drop_last() =~= s.drop_last());
        assert(keyed_map(u) =~= keyed_map(s).insert(x.0, x.1));
    } else {
        assert(u.drop_last() =~= s.drop_last().update(i, x));
        lemma_keyed_map_update(s.drop_last(), i, x);
        assert(s.last().0 != x.0) by {
            assert(s[i].0 != s[s.len() - 1].0);
        }
        assert(keyed_map(u) =~= keyed_map(s).insert(x.0, x.1));
    }
}

/// Removing the entry of a key keeps the keys distinct and unmaps it.
pub proof fn lemma_keyed_map_remove<V>(s: Seq<(Seq<char>, V)>, i: int)
    requires
        keys_distinct(s),
        0 <= i < s.len(),
    ensures
        keyed_map(s.remove(i)) == keyed_map(s).remove(s[i].0),
        keys_distinct(s.remove(i)),
    decreases s.len(),
{
    let r = s.remove(i);
    assert forall|a: int, b: int| 0 <= a < b < r.len() implies #[trigger] r[a].0 != #[trigger] r[b].0 by {
        let a2 = if a < i {
            a
        } else {
            a + 1
        };
        let b2 = if b < i {
            b
        } else {
            b + 1
        };
        assert(r[a] == s[a2]);
        assert(r[b] == s[b2]);
        assert(s[a2].0 != s[b2].0);
    }
    let k = s[i].0;
    if i == s.len() - 1 {
        assert(r =~= s.drop_last());
        lemma_keyed_map_dom(s.drop_last(), k);
        assert forall|j: int| 0 <= j < s.drop_last().len() implies #[trigger] s.drop_last()[j].0 != k by {
            assert(s[j].0 != s[i].0);
        }
        assert(keyed_map(r) =~= keyed_map(s).remove(k));
    } else {
        assert(r.drop_last() =~= s.drop_last().remove(i));
        assert(r.last() == s.last());
        lemma_keyed_map_remove(s.drop_last(), i);
        assert(s.last().0 != k) by {
            assert(s[i].0 != s[s.len() - 1].0);
        }
        assert(keyed_map(r) =~= keyed_map(s).remove(k));
    }
}

} // verus!
