//! Stable sorting by an integer key.
use vstd::prelude::*;

verus! {

/// Items that are sorted by an integer.
pub trait SortKey: Sized {
    /// The integer by which the item is sorted.
    spec fn sort_key(&self) -> int;

    /// Computes the key.
    fn key(&self) -> (k: i128)
        ensures
            k == self.sort_key(),
    ;
}

/// The test for key `k`.
pub open spec fn has_key<T: SortKey>(k: int) -> spec_fn(T) -> bool {
    |x: T| x.sort_key() == k
}

/// The items of `s` with key `k`, in their order.
pub open spec fn with_key<T: SortKey>(s: Seq<T>, k: int) -> Seq<T> {
    s.filter(has_key(k))
}

/// The keys of `s` do not descend.
pub open spec fn ascending<T: SortKey>(s: Seq<T>) -> bool {
    forall|i: int, j: int|
        #![trigger s[i], s[j]]
        0 <= i <= j < s.len() ==> s[i].sort_key() <= s[j].sort_key()
}

/// No two items of `s` have the same key.
pub open spec fn distinct_keys<T: SortKey>(s: Seq<T>) -> bool {
    forall|i: int, j: int|
        #![trigger s[i], s[j]]
        0 <= i < j < s.len() ==> s[i].sort_key() != s[j].sort_key()
}

/// `output` holds the items of `input` by ascending key, and items with the same key in the order
/// that they have in `input`.
pub open spec fn stably_sorted<T: SortKey>(input: Seq<T>, output: Seq<T>) -> bool {
    &&& ascending(output)
    &&& forall|k: int| #[trigger] with_key(output, k) == with_key(input, k)
}

/// Keys are selected from a concatenation part by part.
proof fn lemma_with_key_add<T: SortKey>(a: Seq<T>, b: Seq<T>, k: int)
    ensures
        with_key(a + b, k) == with_key(a, k) + with_key(b, k),
{
    Seq::filter_distributes_over_add(a, b, has_key(k));
}

/// Of one item, its own key selects it and no other key does.
proof fn lemma_with_key_one<T: SortKey>(x: T, k: int)
    ensures
        with_key(seq![x], k) == if x.sort_key() == k {
            seq![x]
        } else {
            Seq::<T>::empty()
        },
{
    reveal(Seq::filter);
    let pred = has_key::<T>(k);
    assert(seq![x].drop_last() =~= Seq::<T>::empty());
    assert(Seq::<T>::empty().filter(pred) =~= Seq::<T>::empty());
    assert(with_key(seq![x], k) == seq![x].filter(pred));
    if x.sort_key() == k {
        assert(seq![x].filter(pred) =~= seq![x]);
    }
}

/// A key that no item has selects nothing.
proof fn lemma_with_key_none<T: SortKey>(s: Seq<T>, k: int)
    requires
        forall|i: int| 0 <= i < s.len() ==> (#[trigger] s[i]).sort_key() != k,
    ensures
        with_key(s, k) == Seq::<T>::empty(),
{
    let pred = has_key::<T>(k);
    assert(s.all(|x: T| !pred(x)));
    s.lemma_all_neg_filter_empty(pred);
    assert(with_key(s, k) == s.filter(pred));
    assert(with_key(s, k) =~= Seq::<T>::empty());
}

/// The key of an item selects the item.
proof fn lemma_with_key_contains<T: SortKey>(s: Seq<T>, i: int)
    requires
        0 <= i < s.len(),
    ensures
        with_key(s, s[i].sort_key()).contains(s[i]),
        with_key(s, s[i].sort_key()).len() > 0,
{
    let k = s[i].sort_key();
    let pred = has_key::<T>(k);
    s.lemma_filter_contains(pred, i);
}

/// What a key selects has that key and is an item of the sequence.
proof fn lemma_with_key_rev<T: SortKey>(s: Seq<T>, k: int)
    requires
        with_key(s, k).len() > 0,
    ensures
        exists|i: int| 0 <= i < s.len() && (#[trigger] s[i]).sort_key() == k,
{
    if forall|i: int| 0 <= i < s.len() ==> (#[trigger] s[i]).sort_key() != k {
        lemma_with_key_none(s, k);
    }
}

/// The first item is the first that its key selects; taking it away takes away nothing else.
proof fn lemma_with_key_first<T: SortKey>(s: Seq<T>, k: int)
    requires
        s.len() > 0,
    ensures
        with_key(s, k) == if s[0].sort_key() == k {
            seq![s[0]] + with_key(s.drop_first(), k)
        } else {
            with_key(s.drop_first(), k)
        },
{
    assert(s =~= seq![s[0]] + s.drop_first());
    lemma_with_key_add(seq![s[0]], s.drop_first(), k);
    lemma_with_key_one(s[0], k);
    assert(Seq::<T>::empty() + with_key(s.drop_first(), k) =~= with_key(s.drop_first(), k));
}

/// A stably sorted sequence is determined by what was sorted.
pub proof fn stable_order_is_unique<T: SortKey>(input: Seq<T>, a: Seq<T>, b: Seq<T>)
    requires
        stably_sorted(input, a),
        stably_sorted(input, b),
    ensures
        a == b,
{
    assert forall|k: int| with_key(a, k) == with_key(b, k) by {
        assert(with_key(a, k) == with_key(input, k));
        assert(with_key(b, k) == with_key(input, k));
    }
    lemma_same_keys_same_sequence(a, b);
}

/// Two ascending sequences in which each key selects the same are the same.
proof fn lemma_same_keys_same_sequence<T: SortKey>(a: Seq<T>, b: Seq<T>)
    requires
        ascending(a),
        ascending(b),
        forall|k: int| with_key(a, k) == with_key(b, k),
    ensures
        a == b,
    decreases a.len(),
{
    if a.len() == 0 {
        if b.len() > 0 {
            lemma_with_key_contains(b, 0);
            let k = b[0].sort_key();
            assert(with_key(a, k) == with_key(b, k));
            lemma_with_key_none(a, k);
        }
        assert(a =~= b);
    } else {
        let ka = a[0].sort_key();
        lemma_with_key_contains(a, 0);
        assert(with_key(a, ka) == with_key(b, ka));
        lemma_with_key_rev(b, ka);
        let j = choose|j: int| 0 <= j < b.len() && (#[trigger] b[j]).sort_key() == ka;
        let kb = b[0].sort_key();
        assert(kb <= b[j].sort_key());
        lemma_with_key_contains(b, 0);
        assert(with_key(a, kb) == with_key(b, kb));
        lemma_with_key_rev(a, kb);
        let i = choose|i: int| 0 <= i < a.len() && (#[trigger] a[i]).sort_key() == kb;
        assert(ka <= a[i].sort_key());
        assert(ka == kb);
        lemma_with_key_first(a, ka);
        lemma_with_key_first(b, ka);
        assert(with_key(a, ka)[0] == a[0]);
        assert(with_key(b, ka)[0] == b[0]);
        assert(a[0] == b[0]);
        let ra = a.drop_first();
        let rb = b.drop_first();
        assert forall|k: int| with_key(ra, k) == with_key(rb, k) by {
            lemma_with_key_first(a, k);
            lemma_with_key_first(b, k);
            assert(with_key(a, k) == with_key(b, k));
            if k == ka {
                assert(with_key(ra, k) =~= with_key(a, k).drop_first());
                assert(with_key(rb, k) =~= with_key(b, k).drop_first());
            }
        }
        lemma_same_keys_same_sequence(ra, rb);
        assert(a =~= seq![a[0]] + ra);
        assert(b =~= seq![b[0]] + rb);
    }
}

/// Among distinct keys, a key selects the one item that has it.
proof fn lemma_with_key_distinct<T: SortKey>(s: Seq<T>, i: int)
    requires
        distinct_keys(s),
        0 <= i < s.len(),
    ensures
        with_key(s, s[i].sort_key()) == seq![s[i]],
{
    let k = s[i].sort_key();
    let before = s.subrange(0, i);
    let after = s.subrange(i + 1, s.len() as int);
    assert(s =~= before + (seq![s[i]] + after));
    lemma_with_key_add(before, seq![s[i]] + after, k);
    lemma_with_key_add(seq![s[i]], after, k);
    lemma_with_key_one(s[i], k);
    assert forall|j: int| 0 <= j < before.len() implies (#[trigger] before[j]).sort_key() != k by {
        assert(before[j] == s[j]);
    }
    assert forall|j: int| 0 <= j < after.len() implies (#[trigger] after[j]).sort_key() != k by {
        assert(after[j] == s[i + 1 + j]);
    }
    lemma_with_key_none(before, k);
    lemma_with_key_none(after, k);
    assert(Seq::<T>::empty() + (seq![s[i]] + Seq::<T>::empty()) =~= seq![s[i]]);
}

/// Distinct keys stay distinct in another order.
proof fn lemma_distinct_keys_any_order<T: SortKey>(first: Seq<T>, second: Seq<T>)
    requires
        distinct_keys(first),
        first.to_multiset() == second.to_multiset(),
    ensures
        distinct_keys(second),
{
    broadcast use vstd::seq_lib::group_to_multiset_ensures;

    assert(first.no_duplicates()) by {
        assert forall|i: int, j: int|
            0 <= i < first.len() && 0 <= j < first.len() && i != j implies first[i] != first[j] by {
            if i < j {
                assert(first[i].sort_key() != first[j].sort_key());
            } else {
                assert(first[j].sort_key() != first[i].sort_key());
            }
        }
    }
    first.lemma_multiset_has_no_duplicates();
    second.lemma_multiset_has_no_duplicates_conv();
    assert forall|i: int, j: int| #![trigger second[i], second[j]] 0 <= i < j < second.len() implies
    second[i].sort_key() != second[j].sort_key() by {
        let x = second[i];
        let y = second[j];
        assert(second.contains(x) && second.contains(y));
        assert(first.to_multiset().count(x) > 0 && first.to_multiset().count(y) > 0);
        assert(first.contains(x) && first.contains(y));
        let p = choose|p: int| 0 <= p < first.len() && first[p] == x;
        let q = choose|q: int| 0 <= q < first.len() && first[q] == y;
        if p < q {
            assert(first[p].sort_key() != first[q].sort_key());
        } else if q < p {
            assert(first[q].sort_key() != first[p].sort_key());
        } else {
            assert(x == y);
        }
    }
}

/// Where no two keys are equal, the order in which the items arrive does not show in the result.
pub proof fn arrival_order_is_forgotten<T: SortKey>(
    first: Seq<T>,
    second: Seq<T>,
    a: Seq<T>,
    b: Seq<T>,
)
    requires
        distinct_keys(first),
        first.to_multiset() == second.to_multiset(),
        stably_sorted(first, a),
        stably_sorted(second, b),
    ensures
        a == b,
{
    broadcast use vstd::seq_lib::group_to_multiset_ensures;

    lemma_distinct_keys_any_order(first, second);
    assert forall|k: int| with_key(a, k) == with_key(b, k) by {
        assert(with_key(a, k) == with_key(first, k));
        assert(with_key(b, k) == with_key(second, k));
        if exists|i: int| 0 <= i < first.len() && (#[trigger] first[i]).sort_key() == k {
            let i = choose|i: int| 0 <= i < first.len() && (#[trigger] first[i]).sort_key() == k;
            assert(first.contains(first[i]));
            assert(second.to_multiset().count(first[i]) > 0);
            assert(second.contains(first[i]));
            let j = choose|j: int| 0 <= j < second.len() && second[j] == first[i];
            lemma_with_key_distinct(first, i);
            lemma_with_key_distinct(second, j);
        } else {
            lemma_with_key_none(first, k);
            assert forall|j: int| 0 <= j < second.len() implies (#[trigger] second[j]).sort_key()
                != k by {
                assert(second.contains(second[j]));
                assert(first.to_multiset().count(second[j]) > 0);
                assert(first.contains(second[j]));
            }
            lemma_with_key_none(second, k);
        }
    }
    lemma_same_keys_same_sequence(a, b);
}

/// What is in order already stays as it is: items with the same key do not change places.
pub proof fn ordered_items_stay<T: SortKey>(input: Seq<T>, output: Seq<T>)
    requires
        forall|i: int, j: int|
            #![trigger input[i], input[j]]
            0 <= i <= j < input.len() ==> input[i].sort_key() <= input[j].sort_key(),
        stably_sorted(input, output),
    ensures
        output == input,
{
    assert(stably_sorted(input, input));
    stable_order_is_unique(input, input, output);
}

/// Two selected items are selected in their order.
proof fn lemma_filter_keeps_order<T>(
    s: Seq<T>,
    pred: spec_fn(T) -> bool,
    p: int,
    q: int,
) -> (r: (int, int))
    requires
        0 <= p < q < s.len(),
        pred(s[p]),
        pred(s[q]),
    ensures
        0 <= r.0 < r.1 < s.filter(pred).len(),
        s.filter(pred)[r.0] == s[p],
        s.filter(pred)[r.1] == s[q],
    decreases s.len(),
{
    reveal(Seq::filter);
    let rest = s.drop_last();
    let kept = rest.filter(pred);
    if q < s.len() - 1 {
        lemma_filter_keeps_order(rest, pred, p, q)
    } else {
        rest.lemma_filter_contains(pred, p);
        let a = choose|a: int| 0 <= a < kept.len() && kept[a] == rest[p];
        assert(s.filter(pred) == kept.push(s[q]));
        (a, kept.len() as int)
    }
}

/// Two selected items come from places in their order.
proof fn lemma_filter_comes_in_order<T>(
    s: Seq<T>,
    pred: spec_fn(T) -> bool,
    a: int,
    b: int,
) -> (r: (int, int))
    requires
        0 <= a < b < s.filter(pred).len(),
    ensures
        0 <= r.0 < r.1 < s.len(),
        s[r.0] == s.filter(pred)[a],
        s[r.1] == s.filter(pred)[b],
    decreases s.len(),
{
    reveal(Seq::filter);
    let rest = s.drop_last();
    let kept = rest.filter(pred);
    if s.len() == 0 {
        (0, 0)
    } else if b < kept.len() {
        lemma_filter_comes_in_order(rest, pred, a, b)
    } else {
        assert(s.filter(pred) == kept.push(s.last()));
        assert(kept.contains(kept[a]));
        rest.lemma_filter_contains_rev(pred, kept[a]);
        let i = choose|i: int| 0 <= i < rest.len() && rest[i] == kept[a];
        (i, s.len() - 1)
    }
}

/// Of two items with the same key, the one that came first comes first.
pub proof fn same_keys_keep_their_order<T: SortKey>(
    input: Seq<T>,
    output: Seq<T>,
    p: int,
    q: int,
)
    requires
        stably_sorted(input, output),
        0 <= p < q < input.len(),
        input[p].sort_key() == input[q].sort_key(),
    ensures
        exists|i: int, j: int|
            #![trigger output[i], output[j]]
            0 <= i < j < output.len() && output[i] == input[p] && output[j] == input[q],
{
    let k = input[p].sort_key();
    assert(with_key(output, k) == with_key(input, k));
    let (a, b) = lemma_filter_keeps_order(input, has_key(k), p, q);
    let (i, j) = lemma_filter_comes_in_order(output, has_key(k), a, b);
    assert(output[i] == input[p] && output[j] == input[q]);
}

/// A sorted list ascends: of two items, the one that comes first has no greater key.
pub proof fn sorted_lists_ascend<T: SortKey>(input: Seq<T>, output: Seq<T>, i: int, j: int)
    requires
        stably_sorted(input, output),
        0 <= i <= j < output.len(),
    ensures
        output[i].sort_key() <= output[j].sort_key(),
{
}

/// Lists with the same items, however ordered, have each item of the one in the other.
pub proof fn same_items_are_found<T>(a: Seq<T>, b: Seq<T>)
    requires
        a.to_multiset() == b.to_multiset(),
    ensures
        a.len() == b.len(),
        forall|x: T| #[trigger] a.contains(x) <==> b.contains(x),
{
    broadcast use vstd::seq_lib::group_to_multiset_ensures;

    assert(a.to_multiset().len() == a.len() && b.to_multiset().len() == b.len());
    assert forall|x: T| #[trigger] a.contains(x) <==> b.contains(x) by {
        assert(a.contains(x) <==> a.to_multiset().count(x) > 0);
        assert(b.contains(x) <==> b.to_multiset().count(x) > 0);
    }
}

/// Sorts `items` by ascending key; items with the same key keep their order.
pub fn stable_sort<T: SortKey>(items: Vec<T>) -> (r: Vec<T>)
    ensures
        stably_sorted(items@, r@),
        r@.to_multiset() == items@.to_multiset(),
        r@.len() == items@.len(),
{
    broadcast use vstd::seq_lib::group_to_multiset_ensures;

    let mut rest: Vec<T> = items;
    let mut sorted: Vec<T> = Vec::new();
    assert(items@.subrange(items@.len() as int, items@.len() as int) =~= sorted@);
    while rest.len() > 0
        invariant
            rest@.len() <= items@.len(),
            rest@ == items@.subrange(0, rest@.len() as int),
            stably_sorted(items@.subrange(rest@.len() as int, items@.len() as int), sorted@),
            sorted@.to_multiset() == items@.subrange(
                rest@.len() as int,
                items@.len() as int,
            ).to_multiset(),
            sorted@.len() == items@.len() - rest@.len(),
        decreases rest@.len(),
    {
        let ghost n = rest@.len() - 1;
        let ghost tail = items@.subrange(n + 1, items@.len() as int);
        let ghost before = sorted@;
        match rest.pop() {
            Some(item) => {
                let k: i128 = item.key();
                let mut position: usize = 0;
                while position < sorted.len() && sorted[position].key() < k
                    invariant
                        position <= sorted@.len(),
                        k == item.sort_key(),
                        forall|i: int|
                            0 <= i < position ==> (#[trigger] sorted@[i]).sort_key() < k,
                    decreases sorted@.len() - position,
                {
                    position = position + 1;
                }
                sorted.insert(position, item);
                proof {
                    let p = position as int;
                    let low = before.subrange(0, p);
                    let high = before.subrange(p, before.len() as int);
                    assert(before =~= low + high);
                    assert(sorted@ =~= low + (seq![item] + high));
                    assert(items@.subrange(n as int, items@.len() as int) =~= seq![item] + tail);
                    assert(seq![item] + tail =~= tail.insert(0, item));
                    vstd::seq_lib::to_multiset_insert(tail, 0, item);
                    vstd::seq_lib::to_multiset_insert(before, p, item);
                    assert forall|j: int| #[trigger] with_key(sorted@, j) == with_key(
                        seq![item] + tail,
                        j,
                    ) by {
                        lemma_with_key_add(low, seq![item] + high, j);
                        lemma_with_key_add(seq![item], high, j);
                        lemma_with_key_add(low, high, j);
                        lemma_with_key_add(seq![item], tail, j);
                        lemma_with_key_one(item, j);
                        assert(with_key(before, j) == with_key(tail, j));
                        if j == k {
                            assert forall|i: int| 0 <= i < low.len() implies (
                            #[trigger] low[i]).sort_key() != j by {
                                assert(low[i] == before[i]);
                            }
                            lemma_with_key_none(low, j);
                        }
                        assert(with_key(sorted@, j) =~= with_key(seq![item] + tail, j));
                    }
                }
            },
            None => {},
        }
    }
    assert(items@.subrange(0, items@.len() as int) =~= items@);
    sorted
}

} // verus!
