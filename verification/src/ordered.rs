//! A map from texts that is walked in the order of its keys.
use crate::order::{
    before, before_is_irreflexive, before_is_total, before_is_transitive, comes_before, keys_of,
};
use vstd::prelude::*;

verus! {

/// A map from texts that is walked in ascending order of its keys, whatever
/// the order in which they came in.
pub struct OrderedMap<V> {
    entries: Vec<(String, V)>,
}

/// Whether each key comes before all that follow it.
pub open spec fn ascending(keys: Seq<Seq<char>>) -> bool {
    forall|i: int, j: int| 0 <= i < j < keys.len() ==> before(#[trigger] keys[i], #[trigger] keys[j])
}

/// The pairs of key and value, in the order in which they are walked.
pub open spec fn pairs_of<V>(entries: Seq<(String, V)>) -> Seq<(Seq<char>, V)> {
    Seq::new(entries.len(), |i: int| (entries[i].0@, entries[i].1))
}

/// The map that a list of pairs with different keys stands for.
pub open spec fn map_of<V>(pairs: Seq<(Seq<char>, V)>) -> Map<Seq<char>, V> {
    Map::new(
        |k: Seq<char>| exists|i: int| 0 <= i < pairs.len() && (#[trigger] pairs[i]).0 == k,
        |k: Seq<char>| pairs[place_of(pairs, k)].1,
    )
}

/// Where in a list of pairs a key stands.
pub open spec fn place_of<V>(pairs: Seq<(Seq<char>, V)>, key: Seq<char>) -> int {
    choose|i: int| 0 <= i < pairs.len() && (#[trigger] pairs[i]).0 == key
}

impl<V> View for OrderedMap<V> {
    type V = Map<Seq<char>, V>;

    open spec fn view(&self) -> Map<Seq<char>, V> {
        map_of(self.pairs())
    }
}

impl<V> OrderedMap<V> {
    /// The pairs of key and value, in the order in which they are walked.
    pub closed spec fn pairs(self) -> Seq<(Seq<char>, V)> {
        pairs_of(self.entries@)
    }

    /// The keys ascend.
    #[verifier::type_invariant]
    pub open spec fn well_formed(self) -> bool {
        ascending(self.pairs().map_values(|pair: (Seq<char>, V)| pair.0))
    }

    /// A map without entries.
    pub fn new() -> (map: OrderedMap<V>)
        ensures
            map.well_formed(),
            map@ == Map::<Seq<char>, V>::empty(),
    {
        let map = OrderedMap { entries: Vec::new() };
        assert(map@ =~= Map::<Seq<char>, V>::empty());
        map
    }

    /// The map with the key's value set, in place of an earlier value.
    pub fn insert(self, key: String, value: V) -> (map: OrderedMap<V>)
        ensures
            map.well_formed(),
            map@ == self@.insert(key@, value),
    {
        proof {
            use_type_invariant(&self);
        }
        let ghost former = self.entries@;
        let ghost keys = keys_of(former);
        assert(self.pairs().map_values(|pair: (Seq<char>, V)| pair.0) =~= keys);
        let mut entries = self.entries;
        let mut place: usize = 0;
        while place < entries.len() && comes_before(entries[place].0.as_str(), key.as_str())
            invariant
                place <= entries.len(),
                entries@ == former,
                keys == keys_of(former),
                forall|i: int| 0 <= i < place ==> before(#[trigger] keys[i], key@),
            decreases entries.len() - place,
        {
            place += 1;
        }
        let ghost at = place as int;
        if place < entries.len() && entries[place].0 == key {
            entries.remove(place);
        } else {
            proof {
                if at < former.len() {
                    before_is_total(keys[at], key@);
                }
            }
        }
        let ghost kept = entries@;
        let ghost name = key@;
        proof {
            assert forall|i: int| at <= i < kept.len() implies before(name, kept[i].0@) by {
                let j = if kept.len() == former.len() { i } else { i + 1 };
                assert(kept[i] == former[j]);
                if keys[at] == name {
                    assert(before(keys[at], keys[j]));
                } else if j > at {
                    assert(before(keys[at], keys[j]));
                    before_is_transitive(name, keys[at], keys[j]);
                }
            }
        }
        entries.insert(place, (key, value));
        let ghost added = entries@;
        assert forall|i: int, j: int| 0 <= i < j < added.len() implies before(
            #[trigger] keys_of(added)[i],
            #[trigger] keys_of(added)[j],
        ) by {
            assert(i < at ==> added[i] == former[i]);
            assert(added[at].0@ == name);
            assert(j > at ==> added[j] == kept[j - 1]);
            if j < at {
                assert(added[j] == former[j]);
                assert(before(keys[i], keys[j]));
            } else if j == at {
                assert(before(keys[i], name));
            } else if i < at && j > at {
                before_is_transitive(keys[i], name, kept[j - 1].0@);
            } else if i > at {
                let k = former.len() - kept.len();
                assert(added[i] == former[i - 1 + k] && added[j] == former[j - 1 + k]);
                assert(before(keys[i - 1 + k], keys[j - 1 + k]));
            }
        }
        assert(pairs_of(added).map_values(|pair: (Seq<char>, V)| pair.0) =~= keys_of(added));
        let map = OrderedMap { entries };
        proof {
            lemma_pairs_are_looked_up(pairs_of(former));
            lemma_pairs_are_looked_up(pairs_of(added));
            let dom = self@.insert(name, value);
            assert forall|k: Seq<char>| #[trigger] map@.contains_key(k) == dom.contains_key(k) by {
                if map@.contains_key(k) && k != name {
                    let i = choose|i: int|
                        0 <= i < added.len() && (#[trigger] pairs_of(added)[i]).0 == k;
                    let j = if i < at {
                        i
                    } else {
                        i - 1 + former.len() - kept.len()
                    };
                    assert(pairs_of(former)[j].0 == k);
                }
                if k == name {
                    assert(pairs_of(added)[at].0 == k);
                } else if self@.contains_key(k) {
                    let j = choose|j: int|
                        0 <= j < former.len() && (#[trigger] pairs_of(former)[j]).0 == k;
                    let i = if j < at {
                        j
                    } else {
                        j + 1 - (former.len() - kept.len())
                    };
                    assert(pairs_of(added)[i].0 == k);
                }
            }
            assert forall|k: Seq<char>| map@.contains_key(k) implies #[trigger] map@[k] == dom[k] by {
                let i = choose|i: int|
                    0 <= i < added.len() && (#[trigger] pairs_of(added)[i]).0 == k;
                assert(map@[k] == pairs_of(added)[i].1);
                if k == name {
                    assert(map@[pairs_of(added)[at].0] == pairs_of(added)[at].1);
                } else {
                    let j = if i < at {
                        i
                    } else {
                        i - 1 + former.len() - kept.len()
                    };
                    assert(self@[pairs_of(former)[j].0] == pairs_of(former)[j].1);
                }
            }
            assert(map@ =~= dom);
        }
        map
    }

    /// How many entries there are.
    pub fn len(&self) -> (n: usize)
        ensures
            n == self.pairs().len(),
    {
        self.entries.len()
    }

    /// The key at a place in the walk.
    pub fn key(&self, place: usize) -> (key: &str)
        requires
            place < self.pairs().len(),
        ensures
            key@ == self.pairs()[place as int].0,
    {
        self.entries[place].0.as_str()
    }

    /// The value at a place in the walk.
    pub fn value(&self, place: usize) -> (value: &V)
        requires
            place < self.pairs().len(),
        ensures
            *value == self.pairs()[place as int].1,
    {
        &self.entries[place].1
    }

    /// All the entries, in the order of their keys.
    pub fn into_entries(self) -> (entries: Vec<(String, V)>)
        ensures
            pairs_of(entries@) == self.pairs(),
            ascending(keys_of(entries@)),
    {
        proof {
            use_type_invariant(&self);
            assert(self.pairs().map_values(|pair: (Seq<char>, V)| pair.0) =~= keys_of(
                self.entries@,
            ));
        }
        self.entries
    }
}

proof fn lemma_pairs_are_looked_up<V>(pairs: Seq<(Seq<char>, V)>)
    requires
        ascending(pairs.map_values(|pair: (Seq<char>, V)| pair.0)),
    ensures
        forall|i: int| 0 <= i < pairs.len() ==> map_of(pairs).contains_key(#[trigger] pairs[i].0),
        forall|i: int| 0 <= i < pairs.len() ==> map_of(pairs)[#[trigger] pairs[i].0] == pairs[i].1,
{
    let keys = pairs.map_values(|pair: (Seq<char>, V)| pair.0);
    assert forall|i: int| 0 <= i < pairs.len() implies map_of(pairs).contains_key(
        #[trigger] pairs[i].0,
    ) && map_of(pairs)[pairs[i].0] == pairs[i].1 by {
        let k = pairs[i].0;
        let j = place_of(pairs, k);
        assert(0 <= j < pairs.len() && pairs[j].0 == k);
        if i != j {
            before_is_irreflexive(k);
            assert(keys[i] == k && keys[j] == k);
        }
    }
}

/// The walk comes by every entry of the map, and by nothing else.
pub proof fn walk_lists_every_entry<V>(map: OrderedMap<V>)
    requires
        map.well_formed(),
    ensures
        forall|i: int|
            0 <= i < map.pairs().len() ==> map@.contains_key((#[trigger] map.pairs()[i]).0)
                && map@[map.pairs()[i].0] == map.pairs()[i].1,
        forall|key: Seq<char>| #[trigger]
            map@.contains_key(key) ==> exists|i: int|
                0 <= i < map.pairs().len() && (#[trigger] map.pairs()[i]).0 == key,
{
    lemma_pairs_are_looked_up(map.pairs());
}

/// The walk depends on what the map holds and on nothing else: two maps with
/// the same entries are walked in the same order, however they were filled.
pub proof fn walk_is_determined_by_contents<V>(one: OrderedMap<V>, other: OrderedMap<V>)
    requires
        one.well_formed(),
        other.well_formed(),
        one@ == other@,
    ensures
        one.pairs() == other.pairs(),
{
    lemma_same_map_same_pairs(one.pairs(), other.pairs());
}

proof fn lemma_same_map_same_pairs<V>(a: Seq<(Seq<char>, V)>, b: Seq<(Seq<char>, V)>)
    requires
        ascending(a.map_values(|pair: (Seq<char>, V)| pair.0)),
        ascending(b.map_values(|pair: (Seq<char>, V)| pair.0)),
        map_of(a) == map_of(b),
    ensures
        a == b,
    decreases a.len(),
{
    let ka = a.map_values(|pair: (Seq<char>, V)| pair.0);
    let kb = b.map_values(|pair: (Seq<char>, V)| pair.0);
    lemma_pairs_are_looked_up(a);
    lemma_pairs_are_looked_up(b);
    if a.len() == 0 {
        if b.len() > 0 {
            assert(map_of(b).contains_key(b[0].0));
        }
        assert(a =~= b);
    } else {
        assert(map_of(b).contains_key(a.last().0));
        let j = choose|j: int| 0 <= j < b.len() && (#[trigger] b[j]).0 == a.last().0;
        assert(map_of(a).contains_key(b.last().0));
        let i = choose|i: int| 0 <= i < a.len() && (#[trigger] a[i]).0 == b.last().0;
        if j < b.len() - 1 {
            assert(before(kb[j], kb[b.len() - 1]));
            if i < a.len() - 1 {
                assert(before(ka[i], ka[a.len() - 1]));
                before_is_transitive(kb[j], kb[b.len() - 1], kb[j]);
            }
            before_is_irreflexive(kb[j]);
        }
        assert(a.last().0 == b.last().0);
        assert(a.last() == b.last());
        let sa = a.drop_last();
        let sb = b.drop_last();
        assert(sa.map_values(|pair: (Seq<char>, V)| pair.0) =~= ka.drop_last());
        assert(sb.map_values(|pair: (Seq<char>, V)| pair.0) =~= kb.drop_last());
        lemma_pairs_are_looked_up(sa);
        lemma_pairs_are_looked_up(sb);
        lemma_dropping_last_pair(a);
        lemma_dropping_last_pair(b);
        lemma_same_map_same_pairs(sa, sb);
        assert(a =~= sa.push(a.last()));
        assert(b =~= sb.push(b.last()));
    }
}

proof fn lemma_dropping_last_pair<V>(pairs: Seq<(Seq<char>, V)>)
    requires
        pairs.len() > 0,
        ascending(pairs.map_values(|pair: (Seq<char>, V)| pair.0)),
    ensures
        map_of(pairs.drop_last()) == map_of(pairs).remove(pairs.last().0),
{
    let keys = pairs.map_values(|pair: (Seq<char>, V)| pair.0);
    let short = pairs.drop_last();
    assert(short.map_values(|pair: (Seq<char>, V)| pair.0) =~= keys.drop_last());
    lemma_pairs_are_looked_up(pairs);
    lemma_pairs_are_looked_up(short);
    let left = map_of(short);
    let right = map_of(pairs).remove(pairs.last().0);
    assert forall|k: Seq<char>| #[trigger] left.contains_key(k) == right.contains_key(k) by {
        if left.contains_key(k) {
            let i = choose|i: int| 0 <= i < short.len() && (#[trigger] short[i]).0 == k;
            assert(pairs[i].0 == k);
            assert(before(keys[i], keys[pairs.len() - 1]));
            before_is_irreflexive(k);
        }
        if right.contains_key(k) {
            let i = choose|i: int| 0 <= i < pairs.len() && (#[trigger] pairs[i]).0 == k;
            assert(short[i].0 == k);
        }
    }
    assert forall|k: Seq<char>| left.contains_key(k) implies #[trigger] left[k] == right[k] by {
        let i = choose|i: int| 0 <= i < short.len() && (#[trigger] short[i]).0 == k;
        assert(pairs[i].0 == k);
    }
    assert(left =~= right);
}

/// The walk goes up: each key comes before all that follow it.
pub proof fn walk_ascends<V>(map: OrderedMap<V>, i: int, j: int)
    requires
        map.well_formed(),
        0 <= i < j < map.pairs().len(),
    ensures
        before(map.pairs()[i].0, map.pairs()[j].0),
{
    let keys = map.pairs().map_values(|pair: (Seq<char>, V)| pair.0);
    assert(before(keys[i], keys[j]));
}

/// Entries are read as their keys and values, each in its place.
pub proof fn entries_are_read_in_place<V>(entries: Seq<(String, V)>, i: int)
    ensures
        pairs_of(entries).len() == entries.len(),
        0 <= i < entries.len() ==> pairs_of(entries)[i].0 == entries[i].0@
            && pairs_of(entries)[i].1 == entries[i].1,
{
}

} // verus!
