//! Name/value lists read as maps: the last pair for a name wins.

use vstd::prelude::*;

verus! {

/// No name occurs twice in the list.
pub open spec fn distinct_names(pairs: Seq<(Seq<char>, Seq<char>)>) -> bool {
    forall|i: int, j: int|
        0 <= i < pairs.len() && 0 <= j < pairs.len() && i != j ==> #[trigger] pairs[i].0
            != #[trigger] pairs[j].0
}

/// The map that inserting the pairs one after another, in order, builds:
/// a later pair for a name replaces an earlier one.
pub open spec fn pairs_map(pairs: Seq<(Seq<char>, Seq<char>)>) -> Map<Seq<char>, Seq<char>>
    decreases pairs.len(),
{
    if pairs.len() == 0 {
        Map::empty()
    } else {
        pairs_map(pairs.drop_last()).insert(pairs.last().0, pairs.last().1)
    }
}

proof fn lemma_pairs_map_update(s: Seq<(Seq<char>, Seq<char>)>, j: int, k: Seq<char>, v: Seq<char>)
    requires
        distinct_names(s),
        0 <= j < s.len(),
        s[j].0 == k,
    ensures
        pairs_map(s.update(j, (k, v))) =~= pairs_map(s).insert(k, v),
    decreases s.len(),
{
    let u = s.update(j, (k, v));
    if j == s.len() - 1 {
        assert(u.drop_last() =~= s.drop_last());
    } else {
        let d = s.drop_last();
        assert(u.drop_last() =~= d.update(j, (k, v)));
        assert(distinct_names(d)) by {
            assert forall|a: int, b: int|
                0 <= a < d.len() && 0 <= b < d.len() && a != b implies #[trigger] d[a].0
                != #[trigger] d[b].0 by {
                assert(d[a] == s[a] && d[b] == s[b]);
            }
        }
        lemma_pairs_map_update(d, j, k, v);
        assert(s.last().0 != k) by {
            assert(s[s.len() - 1].0 != s[j].0);
        }
    }
}

/// Sets `name` to `value` in a list whose names are distinct: the pair for
/// `name` gets the new value, or a pair is added at the end.
pub fn upsert(pairs: &mut Vec<(String, String)>, name: &String, value: &String)
    requires
        distinct_names(old(pairs).deep_view()),
    ensures
        distinct_names(final(pairs).deep_view()),
        pairs_map(final(pairs).deep_view()) == pairs_map(old(pairs).deep_view()).insert(
            name@,
            value@,
        ),
{
    let ghost s = pairs.deep_view();
    let n = pairs.len();
    let mut i: usize = 0;
    while i < n
        invariant
            i <= n,
            n == pairs@.len(),
            s == pairs.deep_view(),
            s == old(pairs).deep_view(),
            distinct_names(s),
            forall|j: int| 0 <= j < i ==> s[j].0 != name@,
        decreases n - i,
    {
        if pairs[i].0.eq(name) {
            let ghost before = pairs.deep_view();
            let entry = (name.clone(), value.clone());
            pairs.set(i, entry);
            proof {
                assert(pairs.deep_view() =~= s.update(i as int, (name@, value@)));
                lemma_pairs_map_update(s, i as int, name@, value@);
                let t = pairs.deep_view();
                assert forall|a: int, b: int|
                    0 <= a < t.len() && 0 <= b < t.len() && a != b implies #[trigger] t[a].0
                    != #[trigger] t[b].0 by {
                    assert(s[a].0 != s[b].0);
                }
            }
            return;
        }
        i = i + 1;
    }
    pairs.push((name.clone(), value.clone()));
    proof {
        let t = pairs.deep_view();
        assert(t =~= s.push((name@, value@)));
        assert(t.drop_last() =~= s);
        assert forall|a: int, b: int|
            0 <= a < t.len() && 0 <= b < t.len() && a != b implies #[trigger] t[a].0
            != #[trigger] t[b].0 by {
            if a < s.len() && b < s.len() {
                assert(s[a].0 != s[b].0);
            }
        }
    }
}

/// Inserts every pair of `extra`, in order, into `pairs` (later pairs win).
pub fn upsert_all(pairs: &mut Vec<(String, String)>, extra: &Vec<(String, String)>)
    requires
        distinct_names(old(pairs).deep_view()),
    ensures
        distinct_names(final(pairs).deep_view()),
        pairs_map(final(pairs).deep_view()) == pairs_map(
            old(pairs).deep_view() + extra.deep_view(),
        ),
{
    let ghost start = pairs.deep_view();
    let ghost e = extra.deep_view();
    let n = extra.len();
    let mut i: usize = 0;
    assert(start + e.take(0) =~= start);
    while i < n
        invariant
            i <= n,
            n == e.len(),
            e == extra.deep_view(),
            distinct_names(pairs.deep_view()),
            pairs_map(pairs.deep_view()) == pairs_map(start + e.take(i as int)),
        decreases n - i,
    {
        upsert(pairs, &extra[i].0, &extra[i].1);
        assert((start + e.take(i + 1)).drop_last() =~= start + e.take(i as int));
        assert((start + e.take(i + 1)).last() == e[i as int]);
        i = i + 1;
    }
    assert(e.take(n as int) =~= e);
}


/// The labels of a name/value list, each name once with the value of its
/// last pair, as a map built from the list holds them.
pub fn distinct_labels(pairs: &Vec<(String, String)>) -> (r: Vec<(String, String)>)
    ensures
        distinct_names(r.deep_view()),
        pairs_map(r.deep_view()) == pairs_map(pairs.deep_view()),
{
    let mut r: Vec<(String, String)> = Vec::new();
    assert(distinct_names(r.deep_view()));
    upsert_all(&mut r, pairs);
    assert(Seq::<(Seq<char>, Seq<char>)>::empty() + pairs.deep_view() =~= pairs.deep_view());
    r
}

} // verus!
