//! Lists of pairs as maps: what a list with different keys stands for.
use vstd::prelude::*;

verus! {

/// Whether one of the pairs has the key `key`.
pub open spec fn has_key<V>(pairs: Seq<(Seq<char>, V)>, key: Seq<char>) -> bool {
    exists|i: int| 0 <= i < pairs.len() && (#[trigger] pairs[i]).0 == key
}

/// The value that stands beside `key`.
pub open spec fn value_of<V>(pairs: Seq<(Seq<char>, V)>, key: Seq<char>) -> V {
    pairs[choose|i: int| 0 <= i < pairs.len() && (#[trigger] pairs[i]).0 == key].1
}

/// The map that a list of pairs with different keys stands for.
pub open spec fn pairs_map<V>(pairs: Seq<(Seq<char>, V)>) -> Map<Seq<char>, V> {
    Map::new(|key: Seq<char>| has_key(pairs, key), |key: Seq<char>| value_of(pairs, key))
}

/// Whether no key occurs twice.
pub open spec fn distinct<V>(pairs: Seq<(Seq<char>, V)>) -> bool {
    forall|i: int, j: int|
        0 <= i < j < pairs.len() ==> (#[trigger] pairs[i]).0 != (#[trigger] pairs[j]).0
}

/// Among pairs with different keys a key picks its pair.
pub proof fn lemma_pair_at<V>(pairs: Seq<(Seq<char>, V)>, i: int)
    requires
        distinct(pairs),
        0 <= i < pairs.len(),
    ensures
        has_key(pairs, pairs[i].0),
        pairs_map(pairs).contains_pair(pairs[i].0, pairs[i].1),
{
    let key = pairs[i].0;
    let j = choose|j: int| 0 <= j < pairs.len() && (#[trigger] pairs[j]).0 == key;
    assert(i == j);
}

/// Replacing the value of the `i`-th pair changes the map at that key alone.
pub proof fn lemma_replace_value<V>(p: Seq<(Seq<char>, V)>, i: int, value: V)
    requires
        distinct(p),
        0 <= i < p.len(),
    ensures
        distinct(p.update(i, (p[i].0, value))),
        pairs_map(p.update(i, (p[i].0, value))) == pairs_map(p).insert(p[i].0, value),
{
    let k = p[i].0;
    let q = p.update(i, (k, value));
    assert(forall|j: int| 0 <= j < p.len() ==> (#[trigger] q[j]).0 == p[j].0);
    assert forall|key: Seq<char>| has_key(q, key) <==> has_key(p, key) by {
        if has_key(p, key) {
            let j = choose|j: int| 0 <= j < p.len() && (#[trigger] p[j]).0 == key;
            assert(q[j].0 == key);
        }
    }
    assert forall|key: Seq<char>| has_key(q, key) implies value_of(q, key) == (if key == k {
        value
    } else {
        value_of(p, key)
    }) by {
        let j = choose|j: int| 0 <= j < q.len() && (#[trigger] q[j]).0 == key;
        lemma_pair_at(q, j);
        lemma_pair_at(p, j);
        lemma_pair_at(q, i);
    }
    lemma_pair_at(p, i);
    assert(pairs_map(q) =~= pairs_map(p).insert(k, value));
}

/// Entering a pair with a new key adds that key to the map, wherever the pair is put.
pub proof fn lemma_insert_pair<V>(p: Seq<(Seq<char>, V)>, i: int, k: Seq<char>, value: V)
    requires
        distinct(p),
        0 <= i <= p.len(),
        !has_key(p, k),
    ensures
        distinct(p.insert(i, (k, value))),
        pairs_map(p.insert(i, (k, value))) == pairs_map(p).insert(k, value),
{
    let q = p.insert(i, (k, value));
    assert(q[i] == (k, value));
    assert(forall|j: int| 0 <= j < i ==> #[trigger] q[j] == p[j]);
    assert(forall|j: int| i < j < q.len() ==> #[trigger] q[j] == p[j - 1]);
    assert forall|a: int, b: int| 0 <= a < b < q.len() implies (#[trigger] q[a]).0 != (
    #[trigger] q[b]).0 by {
        let pa = if a < i {
            a
        } else {
            a - 1
        };
        let pb = if b < i {
            b
        } else {
            b - 1
        };
        if a != i && b != i {
            assert(p[pa].0 != p[pb].0);
        } else if a == i {
            assert(p[pb].0 != k);
        } else {
            assert(p[pa].0 != k);
        }
    }
    assert forall|key: Seq<char>| has_key(q, key) <==> (has_key(p, key) || key == k) by {
        if has_key(q, key) {
            let j = choose|j: int| 0 <= j < q.len() && (#[trigger] q[j]).0 == key;
            if j < i {
                assert(p[j].0 == key);
            } else if j > i {
                assert(p[j - 1].0 == key);
            }
        }
        if has_key(p, key) {
            let j = choose|j: int| 0 <= j < p.len() && (#[trigger] p[j]).0 == key;
            if j < i {
                assert(q[j].0 == key);
            } else {
                assert(q[j + 1].0 == key);
            }
        }
    }
    assert forall|key: Seq<char>| has_key(q, key) implies value_of(q, key) == (if key == k {
        value
    } else {
        value_of(p, key)
    }) by {
        lemma_pair_at(q, i);
        if key != k {
            let j = choose|j: int| 0 <= j < p.len() && (#[trigger] p[j]).0 == key;
            lemma_pair_at(p, j);
            if j < i {
                lemma_pair_at(q, j);
            } else {
                assert(q[j + 1] == p[j]);
                lemma_pair_at(q, j + 1);
            }
        }
    }
    assert(pairs_map(q) =~= pairs_map(p).insert(k, value));
}

/// Taking the `i`-th pair out removes its key from the map.
pub proof fn lemma_remove_pair<V>(p: Seq<(Seq<char>, V)>, i: int)
    requires
        distinct(p),
        0 <= i < p.len(),
    ensures
        distinct(p.remove(i)),
        pairs_map(p.remove(i)) == pairs_map(p).remove(p[i].0),
{
    let k = p[i].0;
    let q = p.remove(i);
    assert(forall|j: int| 0 <= j < i ==> #[trigger] q[j] == p[j]);
    assert(forall|j: int| i <= j < q.len() ==> #[trigger] q[j] == p[j + 1]);
    assert forall|a: int, b: int| 0 <= a < b < q.len() implies (#[trigger] q[a]).0 != (
    #[trigger] q[b]).0 by {
        let pa = if a < i {
            a
        } else {
            a + 1
        };
        let pb = if b < i {
            b
        } else {
            b + 1
        };
        assert(p[pa].0 != p[pb].0);
    }
    assert forall|key: Seq<char>| has_key(q, key) <==> (has_key(p, key) && key != k) by {
        if has_key(q, key) {
            let j = choose|j: int| 0 <= j < q.len() && (#[trigger] q[j]).0 == key;
            if j < i {
                assert(p[j].0 == key);
            } else {
                assert(p[j + 1].0 == key);
            }
        }
        if has_key(p, key) && key != k {
            let j = choose|j: int| 0 <= j < p.len() && (#[trigger] p[j]).0 == key;
            if j < i {
                assert(q[j].0 == key);
            } else {
                assert(q[j - 1].0 == key);
            }
        }
    }
    assert forall|key: Seq<char>| has_key(q, key) implies value_of(q, key) == value_of(p, key) by {
        let j = choose|j: int| 0 <= j < q.len() && (#[trigger] q[j]).0 == key;
        lemma_pair_at(q, j);
        if j < i {
            lemma_pair_at(p, j);
        } else {
            lemma_pair_at(p, j + 1);
        }
    }
    assert(pairs_map(q) =~= pairs_map(p).remove(k));
}

/// Lists with the same keys at the same places stand for maps with the same keys, whose values
/// are those of the lists.
pub proof fn lemma_same_keys<V>(p: Seq<(Seq<char>, V)>, q: Seq<(Seq<char>, V)>)
    requires
        distinct(p),
        p.len() == q.len(),
        forall|i: int| 0 <= i < p.len() ==> (#[trigger] q[i]).0 == p[i].0,
    ensures
        distinct(q),
        forall|key: Seq<char>| has_key(q, key) <==> has_key(p, key),
{
    assert forall|key: Seq<char>| has_key(q, key) <==> has_key(p, key) by {
        if has_key(p, key) {
            let j = choose|j: int| 0 <= j < p.len() && (#[trigger] p[j]).0 == key;
            assert(q[j].0 == key);
        }
    }
}

} // verus!
