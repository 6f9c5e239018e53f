//! The order of texts, and sorting by it.
use vstd::prelude::*;
use vstd::relations::{sorted_by, total_ordering};
use vstd::seq_lib::{group_to_multiset_ensures, lemma_sorted_unique};
use vstd::set_lib::lemma_subset_equality;

verus! {

/// Whether `a` comes strictly before `b` when texts are ordered character by
/// character, a text before every longer text that starts with it.
pub open spec fn before(a: Seq<char>, b: Seq<char>) -> bool
    decreases a.len(),
{
    if b.len() == 0 {
        false
    } else if a.len() == 0 {
        true
    } else if a[0] == b[0] {
        before(a.drop_first(), b.drop_first())
    } else {
        (a[0] as int) < (b[0] as int)
    }
}

/// No text comes before itself.
pub proof fn before_is_irreflexive(a: Seq<char>)
    ensures
        !before(a, a),
    decreases a.len(),
{
    if a.len() > 0 {
        before_is_irreflexive(a.drop_first());
    }
}

/// What comes before something earlier comes before something later.
pub proof fn before_is_transitive(a: Seq<char>, b: Seq<char>, c: Seq<char>)
    requires
        before(a, b),
        before(b, c),
    ensures
        before(a, c),
    decreases a.len(),
{
    if a.len() > 0 && a[0] == b[0] && b[0] == c[0] {
        before_is_transitive(a.drop_first(), b.drop_first(), c.drop_first());
    }
}

/// Of two different texts one comes before the other.
pub proof fn before_is_total(a: Seq<char>, b: Seq<char>)
    ensures
        a == b || before(a, b) || before(b, a),
    decreases a.len(),
{
    if a.len() == 0 && b.len() == 0 {
        assert(a =~= b);
    } else if a.len() > 0 && b.len() > 0 && a[0] == b[0] {
        before_is_total(a.drop_first(), b.drop_first());
        if a.drop_first() == b.drop_first() {
            assert(a =~= seq![a[0]] + a.drop_first());
            assert(b =~= seq![b[0]] + b.drop_first());
        }
    }
}

/// The characters of a text, one by one.
pub fn characters(text: &str) -> (chars: Vec<char>)
    ensures
        chars@ == text@,
{
    let mut chars: Vec<char> = Vec::new();
    for c in it: text.chars()
        invariant
            it.seq() == text@,
            chars@ == text@.take(it.index() as int),
    {
        chars.push(c);
    }
    chars
}

/// Tells whether one text comes strictly before another.
pub fn comes_before(a: &str, b: &str) -> (earlier: bool)
    ensures
        earlier == before(a@, b@),
{
    let left = characters(a);
    let right = characters(b);
    let mut i: usize = 0;
    proof {
        assert(left@.skip(0) =~= left@);
        assert(right@.skip(0) =~= right@);
    }
    while i < left.len() && i < right.len() && left[i] == right[i]
        invariant
            i <= left.len(),
            i <= right.len(),
            before(left@, right@) == before(left@.skip(i as int), right@.skip(i as int)),
        decreases left.len() - i,
    {
        proof {
            assert(left@.skip(i as int).drop_first() =~= left@.skip(i + 1));
            assert(right@.skip(i as int).drop_first() =~= right@.skip(i + 1));
        }
        i += 1;
    }
    if i >= right.len() {
        false
    } else if i >= left.len() {
        true
    } else {
        let l: char = left[i];
        let r: char = right[i];
        l < r
    }
}

/// Tells whether two texts are the same.
pub fn same_text(a: &str, b: &str) -> (same: bool)
    ensures
        same == (a@ == b@),
{
    a.to_owned() == b.to_owned()
}

/// Whether the element at `i` goes in front of the one at `j` in a stable sort
/// by the keys: its key comes first or, where the keys are equal, it stood
/// first.
pub open spec fn goes_first(keys: Seq<Seq<char>>, i: int, j: int) -> bool {
    before(keys[i], keys[j]) || (keys[i] == keys[j] && i < j)
}

/// Whether `order` lists the positions of all the keys, each where a stable
/// sort puts it.
pub open spec fn is_sorting_order(keys: Seq<Seq<char>>, order: Seq<int>) -> bool {
    &&& order.len() == keys.len()
    &&& forall|i: int| 0 <= i < order.len() ==> 0 <= #[trigger] order[i] < keys.len()
    &&& forall|i: int, j: int|
        0 <= i < j < order.len() ==> #[trigger] goes_first(keys, order[i], order[j])
}

/// The order in which a stable sort puts the keys.
pub open spec fn sorting_order(keys: Seq<Seq<char>>) -> Seq<int> {
    choose|order: Seq<int>| is_sorting_order(keys, order)
}

/// The elements in the given order.
pub open spec fn arranged<T>(elements: Seq<T>, order: Seq<int>) -> Seq<T> {
    Seq::new(order.len(), |i: int| elements[order[i]])
}

/// The elements sorted by their keys, those with equal keys in the order in
/// which they came.
pub open spec fn sorted_by_keys<T>(elements: Seq<T>, keys: Seq<Seq<char>>) -> Seq<T> {
    arranged(elements, sorting_order(keys))
}

/// The texts in ascending order.
pub open spec fn sorted_texts(texts: Seq<Seq<char>>) -> Seq<Seq<char>> {
    sorted_by_keys(texts, texts)
}

/// What the strings say.
pub open spec fn texts_of(strings: Seq<String>) -> Seq<Seq<char>> {
    Seq::new(strings.len(), |i: int| strings[i]@)
}

spec fn not_after(keys: Seq<Seq<char>>) -> spec_fn(int, int) -> bool {
    |i: int, j: int| i == j || goes_first(keys, i, j)
}

proof fn lemma_not_after_is_total(keys: Seq<Seq<char>>)
    ensures
        total_ordering(not_after(keys)),
{
    let leq = not_after(keys);
    assert forall|i: int, j: int| #[trigger] leq(i, j) && #[trigger] leq(j, i) implies i == j by {
        if i != j && before(keys[i], keys[j]) {
            if before(keys[j], keys[i]) {
                before_is_transitive(keys[i], keys[j], keys[i]);
            }
            before_is_irreflexive(keys[i]);
        } else if i != j && before(keys[j], keys[i]) {
            before_is_irreflexive(keys[i]);
        }
    }
    assert forall|i: int, j: int, k: int| #[trigger] leq(i, j) && #[trigger] leq(j, k) implies leq(
        i,
        k,
    ) by {
        if before(keys[i], keys[j]) && before(keys[j], keys[k]) {
            before_is_transitive(keys[i], keys[j], keys[k]);
        }
    }
    assert forall|i: int, j: int| #[trigger] leq(i, j) || #[trigger] leq(j, i) by {
        before_is_total(keys[i], keys[j]);
    }
}

proof fn lemma_sorting_order_is_permutation(keys: Seq<Seq<char>>, order: Seq<int>)
    requires
        is_sorting_order(keys, order),
    ensures
        order.to_multiset() == Seq::new(keys.len(), |i: int| i).to_multiset(),
{
    let all = Seq::new(keys.len(), |i: int| i);
    let leq = not_after(keys);
    lemma_not_after_is_total(keys);
    assert forall|i: int, j: int|
        0 <= i < order.len() && 0 <= j < order.len() && i != j implies order[i] != order[j] by {
        let (a, b) = if i < j { (i, j) } else { (j, i) };
        assert(goes_first(keys, order[a], order[b]));
        if order[a] == order[b] {
            before_is_irreflexive(keys[order[a]]);
        }
    }
    assert(order.no_duplicates());
    assert(all.no_duplicates());
    order.unique_seq_to_set();
    all.unique_seq_to_set();
    vstd::seq_lib::seq_to_set_is_finite(order);
    vstd::seq_lib::seq_to_set_is_finite(all);
    assert forall|x: int| #[trigger] order.to_set().contains(x) implies all.to_set().contains(
        x,
    ) by {
        let i = choose|i: int| 0 <= i < order.len() && order[i] == x;
        assert(all[x] == x);
    }
    lemma_subset_equality(order.to_set(), all.to_set());
    order.lemma_multiset_has_no_duplicates();
    all.lemma_multiset_has_no_duplicates();
    broadcast use group_to_multiset_ensures;

    assert forall|x: int| #[trigger] order.to_multiset().count(x) == all.to_multiset().count(
        x,
    ) by {
        assert(order.to_set().contains(x) == order.contains(x));
        assert(all.to_set().contains(x) == all.contains(x));
    }
    assert(order.to_multiset() =~= all.to_multiset());
}

/// There is exactly one order in which a stable sort can put given keys.
pub proof fn sorting_order_is_unique(keys: Seq<Seq<char>>, order: Seq<int>)
    requires
        is_sorting_order(keys, order),
    ensures
        order == sorting_order(keys),
{
    let other = sorting_order(keys);
    let leq = not_after(keys);
    lemma_not_after_is_total(keys);
    lemma_sorting_order_is_permutation(keys, order);
    lemma_sorting_order_is_permutation(keys, other);
    assert(sorted_by(order, leq));
    assert(sorted_by(other, leq));
    lemma_sorted_unique(order, other, leq);
}

/// Any keys can be sorted.
pub proof fn sorting_order_exists(keys: Seq<Seq<char>>)
    ensures
        is_sorting_order(keys, sorting_order(keys)),
{
    let all = Seq::new(keys.len(), |i: int| i);
    let leq = not_after(keys);
    lemma_not_after_is_total(keys);
    all.lemma_sort_by_ensures(leq);
    let order = all.sort_by(leq);
    broadcast use group_to_multiset_ensures;

    vstd::seq_lib::to_multiset_len(order);
    vstd::seq_lib::to_multiset_len(all);
    assert forall|i: int| 0 <= i < order.len() implies 0 <= #[trigger] order[i] < keys.len() by {
        assert(order.contains(order[i]));
        assert(all.contains(order[i]));
    }
    assert(all.no_duplicates());
    all.lemma_multiset_has_no_duplicates();
    order.lemma_multiset_has_no_duplicates_conv();
    assert forall|i: int, j: int| 0 <= i < j < order.len() implies #[trigger] goes_first(
        keys,
        order[i],
        order[j],
    ) by {
        assert(leq(order[i], order[j]));
        assert(order[i] != order[j]);
    }
    assert(is_sorting_order(keys, order));
}

/// Sorting leaves the texts in ascending order, and neither loses nor adds one.
pub proof fn sorted_texts_ascend(texts: Seq<Seq<char>>)
    ensures
        sorted_texts(texts).len() == texts.len(),
        forall|i: int, j: int|
            0 <= i < j < texts.len() ==> !before(
                #[trigger] sorted_texts(texts)[j],
                #[trigger] sorted_texts(texts)[i],
            ),
        sorted_texts(texts).to_multiset() == texts.to_multiset(),
{
    sorting_order_exists(texts);
    let order = sorting_order(texts);
    let sorted = sorted_texts(texts);
    assert forall|i: int, j: int| 0 <= i < j < texts.len() implies !before(
        #[trigger] sorted[j],
        #[trigger] sorted[i],
    ) by {
        assert(goes_first(texts, order[i], order[j]));
        before_is_irreflexive(sorted[i]);
        if before(sorted[j], sorted[i]) && before(sorted[i], sorted[j]) {
            before_is_transitive(sorted[i], sorted[j], sorted[i]);
        }
    }
    sorted_elements_are_the_same(texts, texts);
}

/// Sorting by keys neither loses nor adds an element.
pub proof fn sorted_elements_are_the_same<T>(elements: Seq<T>, keys: Seq<Seq<char>>)
    requires
        elements.len() == keys.len(),
    ensures
        sorted_by_keys(elements, keys).to_multiset() == elements.to_multiset(),
{
    sorting_order_exists(keys);
    let order = sorting_order(keys);
    lemma_sorting_order_is_permutation(keys, order);
    lemma_arranged_keeps_elements(elements, order, Seq::new(keys.len(), |i: int| i));
    assert(arranged(elements, Seq::new(keys.len(), |i: int| i)) =~= elements);
}

proof fn lemma_arranged_keeps_elements<T>(elements: Seq<T>, one: Seq<int>, other: Seq<int>)
    requires
        one.to_multiset() == other.to_multiset(),
    ensures
        arranged(elements, one).to_multiset() == arranged(elements, other).to_multiset(),
    decreases one.len(),
{
    broadcast use group_to_multiset_ensures;

    vstd::seq_lib::to_multiset_len(one);
    vstd::seq_lib::to_multiset_len(other);
    if one.len() == 0 {
        assert(arranged(elements, one) =~= arranged(elements, other));
    } else {
        let x = one.last();
        assert(one.contains(x));
        assert(other.to_multiset().count(x) > 0);
        let i = choose|i: int| 0 <= i < other.len() && other[i] == x;
        assert(one.remove(one.len() - 1) =~= one.drop_last());
        assert(one.drop_last().to_multiset() =~= other.remove(i).to_multiset());
        lemma_arranged_keeps_elements(elements, one.drop_last(), other.remove(i));
        assert(arranged(elements, one) =~= arranged(elements, one.drop_last()).push(elements[x]));
        assert(arranged(elements, other).remove(i) =~= arranged(elements, other.remove(i)));
        assert(arranged(elements, other).remove(i).insert(i, elements[x]) =~= arranged(
            elements,
            other,
        ));
    }
}

/// What the keys of keyed elements say.
pub open spec fn keys_of<V>(elements: Seq<(String, V)>) -> Seq<Seq<char>> {
    Seq::new(elements.len(), |i: int| elements[i].0@)
}

/// Sorts keyed elements by their keys, those with equal keys in the order in
/// which they came.
pub fn sort_by_key<V>(elements: Vec<(String, V)>) -> (sorted: Vec<(String, V)>)
    ensures
        sorted@ == sorted_by_keys(elements@, keys_of(elements@)),
{
    let ghost all = elements@;
    let ghost keys = keys_of(elements@);
    let mut rest = elements;
    let mut sorted: Vec<(String, V)> = Vec::new();
    let ghost mut order: Seq<int> = Seq::empty();
    while rest.len() > 0
        invariant
            keys == keys_of(all),
            rest@ =~= all.take(rest.len() as int),
            rest.len() + order.len() == all.len(),
            forall|i: int|
                0 <= i < order.len() ==> rest.len() <= #[trigger] order[i] < all.len(),
            forall|i: int, j: int|
                0 <= i < j < order.len() ==> #[trigger] goes_first(keys, order[i], order[j]),
            sorted@ =~= arranged(all, order),
        decreases rest.len(),
    {
        let ghost at = rest.len() - 1;
        let next = rest.pop().unwrap();
        let mut place: usize = 0;
        while place < sorted.len() && comes_before(sorted[place].0.as_str(), next.0.as_str())
            invariant
                place <= sorted.len(),
                sorted@ =~= arranged(all, order),
                keys == keys_of(all),
                0 <= at < all.len(),
                next == all[at],
                forall|i: int|
                    0 <= i < order.len() ==> at < #[trigger] order[i] < all.len(),
                forall|i: int| 0 <= i < place ==> goes_first(keys, #[trigger] order[i], at),
            decreases sorted.len() - place,
        {
            place += 1;
        }
        let ghost former = order;
        proof {
            order = order.insert(place as int, at);
            assert forall|i: int, j: int| 0 <= i < j < order.len() implies #[trigger] goes_first(
                keys,
                order[i],
                order[j],
            ) by {
                if i < place && j > place {
                    assert(goes_first(keys, former[i], former[j - 1]));
                } else if i > place {
                    assert(goes_first(keys, former[i - 1], former[j - 1]));
                } else if i == place {
                    let p = former[place as int];
                    assert(!before(keys[p], keys[at]));
                    before_is_total(keys[at], keys[p]);
                    assert(goes_first(keys, at, p));
                    if j - 1 > place {
                        let q = former[j - 1];
                        assert(goes_first(keys, p, q));
                        if before(keys[at], keys[p]) && before(keys[p], keys[q]) {
                            before_is_transitive(keys[at], keys[p], keys[q]);
                        }
                    }
                } else if j < place {
                    assert(goes_first(keys, former[i], former[j]));
                }
            }
        }
        sorted.insert(place, next);
        proof {
            assert(sorted@ =~= arranged(all, order));
        }
    }
    proof {
        assert(is_sorting_order(keys, order));
        sorting_order_is_unique(keys, order);
    }
    sorted
}

/// Sorts texts in ascending order.
pub fn sort_texts(texts: Vec<String>) -> (sorted: Vec<String>)
    ensures
        texts_of(sorted@) == sorted_texts(texts_of(texts@)),
{
    let ghost all = texts@;
    let mut rest = texts;
    let mut keyed: Vec<(String, ())> = Vec::new();
    while rest.len() > 0
        invariant
            rest@ =~= all.skip(keyed.len() as int),
            keyed.len() <= all.len(),
            forall|i: int| 0 <= i < keyed.len() ==> (#[trigger] keyed[i]).0 == all[i],
        decreases rest.len(),
    {
        keyed.push((rest.remove(0), ()));
    }
    let ghost unsorted = keyed@;
    let mut rest = sort_by_key(keyed);
    let ghost arrangement = rest@;
    proof {
        assert(keys_of(unsorted) =~= texts_of(all));
        sorting_order_exists(texts_of(all));
    }
    let mut sorted: Vec<String> = Vec::new();
    while rest.len() > 0
        invariant
            rest@ =~= arrangement.skip(sorted.len() as int),
            sorted.len() <= arrangement.len(),
            forall|i: int| 0 <= i < sorted.len() ==> #[trigger] sorted[i] == arrangement[i].0,
        decreases rest.len(),
    {
        sorted.push(rest.remove(0).0);
    }
    proof {
        assert(texts_of(sorted@) =~= sorted_texts(texts_of(all)));
    }
    sorted
}

/// A text comes before another exactly if, after what the two have in common, it
/// ends and the other does not, or it has the smaller character.
pub proof fn first_difference_decides(a: Seq<char>, b: Seq<char>)
    ensures
        before(a, b) <==> exists|i: int|
            0 <= i <= a.len() && i < b.len() && #[trigger] a.take(i) == b.take(i) && (i == a.len()
                || (a[i] as int) < (b[i] as int)),
    decreases a.len(),
{
    if before(a, b) {
        if a.len() == 0 || a[0] != b[0] {
            assert(a.take(0) =~= b.take(0));
        } else {
            let c = a.drop_first();
            let d = b.drop_first();
            first_difference_decides(c, d);
            let i = choose|i: int|
                0 <= i <= c.len() && i < d.len() && #[trigger] c.take(i) == d.take(i) && (i
                    == c.len() || (c[i] as int) < (d[i] as int));
            assert forall|k: int| 0 <= k < i + 1 implies a[k] == b[k] by {
                if k > 0 {
                    assert(c.take(i)[k - 1] == d.take(i)[k - 1]);
                }
            }
            assert(a.take(i + 1) =~= b.take(i + 1));
        }
    }
    if exists|i: int|
        0 <= i <= a.len() && i < b.len() && #[trigger] a.take(i) == b.take(i) && (i == a.len() || (
        a[i] as int) < (b[i] as int)) {
        let i = choose|i: int|
            0 <= i <= a.len() && i < b.len() && #[trigger] a.take(i) == b.take(i) && (i == a.len()
                || (a[i] as int) < (b[i] as int));
        if i > 0 {
            let c = a.drop_first();
            let d = b.drop_first();
            assert(a[0] == a.take(i)[0] && b[0] == b.take(i)[0]);
            assert forall|k: int| 0 <= k < i - 1 implies c[k] == d[k] by {
                assert(a.take(i)[k + 1] == b.take(i)[k + 1]);
            }
            assert(c.take(i - 1) =~= d.take(i - 1));
            first_difference_decides(c, d);
        }
    }
}

/// Sorting by keys puts every element where its key belongs, each from its own
/// place, and leaves elements with one key in the order in which they came.
pub proof fn sorting_is_stable<T>(elements: Seq<T>, keys: Seq<Seq<char>>, i: int, j: int)
    requires
        elements.len() == keys.len(),
        0 <= i < j < keys.len(),
    ensures
        sorted_by_keys(elements, keys).len() == elements.len(),
        0 <= sorting_order(keys)[i] < keys.len(),
        0 <= sorting_order(keys)[j] < keys.len(),
        sorted_by_keys(elements, keys)[i] == elements[sorting_order(keys)[i]],
        sorted_by_keys(elements, keys)[j] == elements[sorting_order(keys)[j]],
        sorting_order(keys)[i] != sorting_order(keys)[j],
        !before(keys[sorting_order(keys)[j]], keys[sorting_order(keys)[i]]),
        keys[sorting_order(keys)[i]] == keys[sorting_order(keys)[j]] ==> sorting_order(keys)[i]
            < sorting_order(keys)[j],
{
    sorting_order_exists(keys);
    let order = sorting_order(keys);
    assert(goes_first(keys, order[i], order[j]));
    before_is_irreflexive(keys[order[i]]);
    if before(keys[order[i]], keys[order[j]]) && before(keys[order[j]], keys[order[i]]) {
        before_is_transitive(keys[order[i]], keys[order[j]], keys[order[i]]);
    }
}

/// Strings are read as what they say, and keyed elements as what their keys say,
/// each in its place.
pub proof fn strings_are_read_in_place<V>(strings: Seq<String>, elements: Seq<(String, V)>, i: int)
    ensures
        texts_of(strings).len() == strings.len(),
        0 <= i < strings.len() ==> texts_of(strings)[i] == strings[i]@,
        keys_of(elements).len() == elements.len(),
        0 <= i < elements.len() ==> keys_of(elements)[i] == elements[i].0@,
{
}

} // verus!
