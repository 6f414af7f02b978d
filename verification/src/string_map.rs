//! A map with string keys that is walked in key order.
use vstd::prelude::*;

use crate::pairs::{
    distinct, has_key, lemma_insert_pair, lemma_pair_at, lemma_remove_pair, lemma_replace_value,
    pairs_map,
};
use crate::text::{
    lex_less, lex_less_irreflexive, lex_less_total, lex_less_transitive, same_text, text_less,
};

verus! {

broadcast use vstd::string::group_string_axioms;

/// A map from strings to `V`. Each key occurs once, and the entries stand in the order of
/// their keys.
#[derive(PartialEq, Eq)]
pub struct StringMap<V> {
    entries: Vec<(String, V)>,
}

/// Whether the keys of `pairs` are in strictly ascending order, so that none occurs twice.
pub open spec fn ascending<V>(pairs: Seq<(Seq<char>, V)>) -> bool {
    forall|i: int, j: int|
        0 <= i < j < pairs.len() ==> lex_less(#[trigger] pairs[i].0, #[trigger] pairs[j].0)
}

/// The map after the pairs of `list` were entered into `map` one by one, a later pair taking
/// the place of an earlier one with the same key.
pub open spec fn entered<V>(map: Map<Seq<char>, V>, list: Seq<(String, V)>) -> Map<Seq<char>, V>
    decreases list.len(),
{
    if list.len() == 0 {
        map
    } else {
        entered(map, list.drop_last()).insert(list.last().0@, list.last().1)
    }
}

/// Ascending keys are different keys.
proof fn ascending_is_distinct<V>(pairs: Seq<(Seq<char>, V)>)
    requires
        ascending(pairs),
    ensures
        distinct(pairs),
{
    assert forall|i: int, j: int| 0 <= i < j < pairs.len() implies (#[trigger] pairs[i]).0 != (
    #[trigger] pairs[j]).0 by {
        lex_less_irreflexive(pairs[i].0);
    }
}

/// Two ascending lists of pairs that stand for one map are one list: the map fixes the order
/// in which it is walked.
pub proof fn ascending_pairs_unique<V>(p: Seq<(Seq<char>, V)>, q: Seq<(Seq<char>, V)>)
    requires
        ascending(p),
        ascending(q),
        pairs_map(p) == pairs_map(q),
    ensures
        p == q,
    decreases p.len() + q.len(),
{
    ascending_is_distinct(p);
    ascending_is_distinct(q);
    assert(forall|key: Seq<char>| #[trigger]
        pairs_map(p).dom().contains(key) <==> has_key(p, key));
    assert(forall|key: Seq<char>| #[trigger]
        pairs_map(q).dom().contains(key) <==> has_key(q, key));
    if p.len() == 0 {
        if q.len() > 0 {
            lemma_pair_at(q, 0);
            assert(pairs_map(p).dom().contains(q[0].0));
        }
        assert(p =~= q);
    } else if q.len() == 0 {
        lemma_pair_at(p, 0);
        assert(pairs_map(q).dom().contains(p[0].0));
    } else {
        let pl = p.last();
        let ql = q.last();
        lemma_pair_at(p, p.len() - 1);
        lemma_pair_at(q, q.len() - 1);
        assert(pairs_map(q).dom().contains(pl.0));
        assert(pairs_map(p).dom().contains(ql.0));
        let i = choose|i: int| 0 <= i < q.len() && (#[trigger] q[i]).0 == pl.0;
        let j = choose|j: int| 0 <= j < p.len() && (#[trigger] p[j]).0 == ql.0;
        if pl.0 != ql.0 {
            assert(lex_less(q[i].0, q[q.len() - 1].0));
            assert(lex_less(p[j].0, p[p.len() - 1].0));
            lex_less_transitive(pl.0, ql.0, pl.0);
            lex_less_irreflexive(pl.0);
        }
        lemma_remove_pair(p, p.len() - 1);
        lemma_remove_pair(q, q.len() - 1);
        assert(p.remove(p.len() - 1) =~= p.drop_last());
        assert(q.remove(q.len() - 1) =~= q.drop_last());
        ascending_pairs_unique(p.drop_last(), q.drop_last());
        assert(p =~= p.drop_last().push(pl));
        assert(q =~= q.drop_last().push(ql));
    }
}

impl<V> StringMap<V> {
    #[verifier::type_invariant]
    spec fn ordered(self) -> bool {
        ascending(self.pairs())
    }

    /// The entries in key order.
    pub closed spec fn pairs(self) -> Seq<(Seq<char>, V)> {
        self.entries@.map_values(|e: (String, V)| (e.0@, e.1))
    }

    /// The map without entries.
    pub fn new() -> (r: Self)
        ensures
            r@ == Map::<Seq<char>, V>::empty(),
            r.pairs() == Seq::<(Seq<char>, V)>::empty(),
    {
        let r = StringMap { entries: Vec::new() };
        assert(r@ =~= Map::<Seq<char>, V>::empty());
        r
    }

    /// The number of entries.
    pub fn len(&self) -> (r: usize)
        ensures
            r == self.pairs().len(),
            ascending(self.pairs()),
    {
        proof {
            use_type_invariant(self);
        }
        self.entries.len()
    }

    /// The `i`-th entry in key order.
    pub fn entry(&self, i: usize) -> (r: (&str, &V))
        requires
            i < self.pairs().len(),
        ensures
            (r.0@, *r.1) == self.pairs()[i as int],
    {
        let e: &(String, V) = &self.entries[i];
        (e.0.as_str(), &e.1)
    }

    /// The value of `key`, if it has one.
    pub fn get(&self, key: &str) -> (r: Option<&V>)
        ensures
            r is Some <==> self@.contains_key(key@),
            r matches Some(v) ==> *v == self@[key@],
    {
        proof {
            use_type_invariant(self);
        }
        let n: usize = self.entries.len();
        let mut i: usize = 0;
        while i < n
            invariant
                n == self.entries@.len(),
                i <= n,
                ascending(self.pairs()),
                forall|j: int| 0 <= j < i ==> (#[trigger] self.pairs()[j]).0 != key@,
            decreases n - i,
        {
            if same_text(self.entries[i].0.as_str(), key) {
                proof {
                    ascending_is_distinct(self.pairs());
                    lemma_pair_at(self.pairs(), i as int);
                }
                return Some(&self.entries[i].1);
            }
            assert(self.pairs()[i as int].0 == self.entries@[i as int].0@);
            i = i + 1;
        }
        None
    }

    /// Enters `value` under `key`, in place of the value that `key` had.
    pub fn insert(&mut self, key: String, value: V)
        ensures
            final(self)@ == old(self)@.insert(key@, value),
            ascending(final(self).pairs()),
    {
        proof {
            use_type_invariant(&*self);
        }
        let ghost before = self.pairs();
        let ghost k = key@;
        let n: usize = self.entries.len();
        let mut i: usize = 0;
        while i < n && text_less(self.entries[i].0.as_str(), key.as_str())
            invariant
                n == self.entries@.len(),
                i <= n,
                before == self.pairs(),
                k == key@,
                forall|j: int| 0 <= j < i ==> lex_less((#[trigger] before[j]).0, k),
            decreases n - i,
        {
            assert(before[i as int].0 == self.entries@[i as int].0@);
            i = i + 1;
        }
        let mut entries: Vec<(String, V)> = Vec::new();
        std::mem::swap(&mut entries, &mut self.entries);
        assert(before == entries@.map_values(|e: (String, V)| (e.0@, e.1)));
        if i < n && same_text(entries[i].0.as_str(), key.as_str()) {
            entries[i] = (key, value);
            proof {
                ascending_is_distinct(before);
                lemma_replace_value(before, i as int, value);
            }
            assert(entries@.map_values(|e: (String, V)| (e.0@, e.1)) =~= before.update(
                i as int,
                (k, value),
            ));
        } else {
            proof {
                if i < n {
                    lex_less_total(before[i as int].0, k);
                }
                ascending_is_distinct(before);
                ascending_with(before, i as int, k, value);
                lemma_insert_pair(before, i as int, k, value);
            }
            entries.insert(i, (key, value));
            assert(entries@.map_values(|e: (String, V)| (e.0@, e.1)) =~= before.insert(
                i as int,
                (k, value),
            ));
        }
        self.entries = entries;
    }

    /// The map of a list of pairs, a later pair taking the place of an earlier one with the
    /// same key.
    pub fn from_pairs(list: Vec<(String, V)>) -> (r: Self)
        ensures
            r@ == entered(Map::<Seq<char>, V>::empty(), list@),
            ascending(r.pairs()),
    {
        let mut r = StringMap::new();
        for e in it: list
            invariant
                it.seq() == list@,
                r@ == entered(Map::<Seq<char>, V>::empty(), list@.take(it.index() as int)),
                ascending(r.pairs()),
        {
            assert(list@.take(it.index() + 1).drop_last() =~= list@.take(it.index() as int));
            r.insert(e.0, e.1);
        }
        assert(list@.take(list@.len() as int) =~= list@);
        r
    }
}

impl<V: Clone> Clone for StringMap<V> {
    fn clone(&self) -> (r: Self)
        ensures
            r.pairs().len() == self.pairs().len(),
            forall|i: int|
                0 <= i < self.pairs().len() ==> {
                    &&& (#[trigger] r.pairs()[i]).0 == self.pairs()[i].0
                    &&& cloned(self.pairs()[i].1, r.pairs()[i].1)
                },
    {
        proof {
            use_type_invariant(self);
        }
        let mut entries: Vec<(String, V)> = Vec::new();
        for i in 0..self.entries.len()
            invariant
                entries@.len() == i,
                forall|j: int|
                    0 <= j < i ==> {
                        &&& (#[trigger] entries@[j]).0 == self.entries@[j].0
                        &&& cloned(self.entries@[j].1, entries@[j].1)
                    },
        {
            entries.push((self.entries[i].0.clone(), self.entries[i].1.clone()));
        }
        let ghost pairs = entries@.map_values(|e: (String, V)| (e.0@, e.1));
        assert(forall|i: int| 0 <= i < pairs.len() ==> (#[trigger] pairs[i]).0 == self.pairs()[i].0);
        StringMap { entries }
    }
}

impl StringMap<String> {
    /// A copy with the same entries.
    pub fn copy(&self) -> (r: Self)
        ensures
            r@ == self@,
            r.pairs() == self.pairs(),
    {
        let r = self.clone();
        assert(r.pairs() =~= self.pairs());
        r
    }
}

impl<V> View for StringMap<V> {
    type V = Map<Seq<char>, V>;

    open spec fn view(&self) -> Map<Seq<char>, V> {
        pairs_map(self.pairs())
    }
}

/// A key that belongs before the `i`-th pair and after those before it is a new key, and put
/// there it leaves the pairs ascending.
proof fn ascending_with<V>(p: Seq<(Seq<char>, V)>, i: int, k: Seq<char>, value: V)
    requires
        ascending(p),
        0 <= i <= p.len(),
        forall|j: int| 0 <= j < i ==> lex_less((#[trigger] p[j]).0, k),
        i < p.len() ==> lex_less(k, p[i].0),
    ensures
        !has_key(p, k),
        ascending(p.insert(i, (k, value))),
{
    let q = p.insert(i, (k, value));
    assert forall|j: int| i <= j < p.len() implies lex_less(k, #[trigger] p[j].0) by {
        if j > i {
            assert(lex_less(p[i].0, p[j].0));
            lex_less_transitive(k, p[i].0, p[j].0);
        }
    }
    lex_less_irreflexive(k);
    assert(q[i] == (k, value));
    assert(forall|j: int| 0 <= j < i ==> #[trigger] q[j] == p[j]);
    assert(forall|j: int| i < j < q.len() ==> #[trigger] q[j] == p[j - 1]);
}

// ---------------------------------------------------------------------------
// Laws
// ---------------------------------------------------------------------------

/// What was inserted is there, and nothing else has changed: looking a key up gives the value
/// inserted last for it, and what was there before for every other key.
pub proof fn law_lookup_after_insert<V>(
    map: &mut StringMap<V>,
    key: String,
    value: V,
    other: &str,
    before: Option<&V>,
    after: Option<&V>,
)
    requires
        call_ensures(StringMap::<V>::insert, (map, key, value), ()),
        call_ensures(StringMap::<V>::get, (&*old(map), other), before),
        call_ensures(StringMap::<V>::get, (&*final(map), other), after),
    ensures
        other@ == key@ ==> after == Some(&value),
        other@ != key@ ==> after == before,
{
}

/// A new map has nothing in it.
pub proof fn law_new_map_is_empty<V>(map: StringMap<V>, key: &str, found: Option<&V>, n: usize)
    requires
        call_ensures(StringMap::<V>::new, (), map),
        call_ensures(StringMap::<V>::get, (&map, key), found),
        call_ensures(StringMap::<V>::len, (&map,), n),
    ensures
        found is None,
        n == 0,
{
}

/// Walking a map shows what looking up finds: every entry walked over is found under its key, in
/// ascending order of the keys, and every key that is found is walked over.
pub proof fn law_walk_shows_the_map<V>(
    map: StringMap<V>,
    n: usize,
    key: &str,
    found: Option<&V>,
)
    requires
        call_ensures(StringMap::<V>::len, (&map,), n),
        call_ensures(StringMap::<V>::get, (&map, key), found),
    ensures
        n == map.pairs().len(),
        forall|i: int, j: int|
            0 <= i < j < n ==> lex_less((#[trigger] map.pairs()[i]).0, (#[trigger] map.pairs()[j]).0),
        forall|i: int|
            0 <= i < n && (#[trigger] map.pairs()[i]).0 == key@ ==> found == Some(
                &map.pairs()[i].1,
            ),
        found is Some ==> exists|i: int| 0 <= i < n && (#[trigger] map.pairs()[i]).0 == key@,
{
    let pairs = map.pairs();
    ascending_is_distinct(pairs);
    assert forall|i: int| 0 <= i < n && (#[trigger] pairs[i]).0 == key@ implies found == Some(
        &pairs[i].1,
    ) by {
        lemma_pair_at(pairs, i);
    }
    if found is Some {
        assert(has_key(pairs, key@));
    }
}

/// What is walked over at a place.
pub proof fn law_entries_are_walked_in_order<V>(map: StringMap<V>, i: usize, r: (&str, &V))
    requires
        i < map.pairs().len(),
        call_ensures(StringMap::<V>::entry, (&map, i), r),
    ensures
        r.0@ == map.pairs()[i as int].0,
        *r.1 == map.pairs()[i as int].1,
{
}

/// The last pair of a key counts: the map of a list has exactly the keys of the list, each with
/// the value of the last pair that has it.
pub proof fn law_last_pair_counts<V>(list: Vec<(String, V)>, map: StringMap<V>, i: int)
    requires
        call_ensures(StringMap::<V>::from_pairs, (list,), map),
        0 <= i < list@.len(),
        forall|j: int| i < j < list@.len() ==> (#[trigger] list@[j]).0@ != list@[i].0@,
    ensures
        map@.contains_pair(list@[i].0@, list@[i].1),
{
    lemma_last_entered(Map::<Seq<char>, V>::empty(), list@, i);
}

/// A key that is not in a list is not in its map.
pub proof fn law_no_key_comes_from_elsewhere<V>(
    list: Vec<(String, V)>,
    map: StringMap<V>,
    key: Seq<char>,
)
    requires
        call_ensures(StringMap::<V>::from_pairs, (list,), map),
        forall|j: int| 0 <= j < list@.len() ==> (#[trigger] list@[j]).0@ != key,
    ensures
        !map@.contains_key(key),
{
    lemma_not_entered(Map::<Seq<char>, V>::empty(), list@, key);
}

/// The last pair of a key is the one that counts.
pub proof fn lemma_last_entered<V>(map: Map<Seq<char>, V>, list: Seq<(String, V)>, i: int)
    requires
        0 <= i < list.len(),
        forall|j: int| i < j < list.len() ==> (#[trigger] list[j]).0@ != list[i].0@,
    ensures
        entered(map, list).contains_pair(list[i].0@, list[i].1),
    decreases list.len(),
{
    if i < list.len() - 1 {
        let rest = list.drop_last();
        assert(list[list.len() - 1].0@ != list[i].0@);
        assert forall|j: int| i < j < rest.len() implies (#[trigger] rest[j]).0@ != rest[i].0@ by {
            assert(rest[j] == list[j]);
        }
        lemma_last_entered(map, rest, i);
    }
}

/// A key that is not entered is not there.
pub proof fn lemma_not_entered<V>(map: Map<Seq<char>, V>, list: Seq<(String, V)>, key: Seq<char>)
    requires
        forall|j: int| 0 <= j < list.len() ==> (#[trigger] list[j]).0@ != key,
        !map.contains_key(key),
    ensures
        !entered(map, list).contains_key(key),
    decreases list.len(),
{
    if list.len() > 0 {
        let rest = list.drop_last();
        assert forall|j: int| 0 <= j < rest.len() implies (#[trigger] rest[j]).0@ != key by {
            assert(rest[j] == list[j]);
        }
        assert(list[list.len() - 1].0@ != key);
        lemma_not_entered(map, rest, key);
    }
}

/// A copy holds what the map holds.
pub proof fn law_copies_are_equal(map: StringMap<String>, copy: StringMap<String>)
    requires
        call_ensures(StringMap::<String>::copy, (&map,), copy),
    ensures
        copy@ == map@,
        copy.pairs() == map.pairs(),
{
}

} // verus!
