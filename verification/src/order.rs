//! Stable sorting of owned values.

use vstd::prelude::*;

verus! {

/// Values with a total preorder.
pub trait Ranked: Sized {
    /// Whether `self` may stand before `other`.
    spec fn ranks_le(&self, other: &Self) -> bool;

    /// Any two values stand in one order or the other.
    proof fn ranks_total(&self, other: &Self)
        ensures
            self.ranks_le(other) || other.ranks_le(self),
    ;

    /// The order carries over a value in between.
    proof fn ranks_transitive(&self, middle: &Self, last: &Self)
        requires
            self.ranks_le(middle),
            middle.ranks_le(last),
        ensures
            self.ranks_le(last),
    ;

    /// Decide the order of two values.
    fn goes_before(&self, other: &Self) -> (r: bool)
        ensures
            r == self.ranks_le(other),
    ;
}

/// Whether `places` leads from the input to its stable sort: output `i` is the
/// input at `places[i]`, outputs ascend, and equals keep their input order.
pub open spec fn sorts<T: Ranked>(input: Seq<T>, output: Seq<T>, places: Seq<int>) -> bool {
    &&& output.len() == input.len()
    &&& places.len() == input.len()
    &&& forall|i: int|
        0 <= i < output.len() ==> 0 <= #[trigger] places[i] < input.len() && output[i]
            == input[places[i]]
    &&& forall|i: int, j: int|
        0 <= i < j < output.len() ==> {
            &&& #[trigger] output[i].ranks_le(#[trigger] &output[j])
            &&& output[j].ranks_le(&output[i]) ==> places[i] < places[j]
        }
}

/// Whether `output` is the stable sort of `input`.
pub open spec fn is_stable_sort<T: Ranked>(input: Seq<T>, output: Seq<T>) -> bool {
    exists|places: Seq<int>| #[trigger] sorts(input, output, places)
}

/// Sort values; equal values keep their order.
pub fn stable_sort<T: Ranked>(input: Vec<T>) -> (output: Vec<T>)
    ensures
        is_stable_sort(input@, output@),
{
    let mut rest = input;
    let mut output: Vec<T> = Vec::new();
    let ghost mut places: Seq<int> = Seq::empty();
    while rest.len() > 0
        invariant
            rest@ == input@.take(rest@.len() as int),
            rest@.len() + output@.len() == input@.len(),
            places.len() == output@.len(),
            forall|i: int|
                0 <= i < output@.len() ==> rest@.len() <= #[trigger] places[i] < input@.len()
                    && output@[i] == input@[places[i]],
            forall|i: int, j: int|
                0 <= i < j < output@.len() ==> {
                    &&& #[trigger] output@[i].ranks_le(#[trigger] &output@[j])
                    &&& output@[j].ranks_le(&output@[i]) ==> places[i] < places[j]
                },
        decreases rest.len(),
    {
        let ghost before = output@;
        let ghost old_places = places;
        match rest.pop() {
            Some(item) => {
                let ghost from = rest@.len() as int;
                assert(item == input@[from]);
                assert(rest@ =~= input@.take(from));
                let mut k: usize = 0;
                while k < output.len() && !item.goes_before(&output[k])
                    invariant
                        k <= output.len(),
                        output@ == before,
                        forall|i: int| 0 <= i < k ==> !item.ranks_le(&#[trigger] before[i]),
                    decreases output.len() - k,
                {
                    k = k + 1;
                }
                proof {
                    assert forall|j: int| k <= j < before.len() implies item.ranks_le(
                        &#[trigger] before[j],
                    ) by {
                        if j > k {
                            assert(before[k as int].ranks_le(&before[j]));
                            item.ranks_transitive(&before[k as int], &before[j]);
                        }
                    }
                    assert forall|i: int| 0 <= i < k implies (#[trigger] before[i]).ranks_le(
                        &item,
                    ) by {
                        item.ranks_total(&before[i]);
                    }
                    places = places.insert(k as int, from);
                }
                output.insert(k, item);
                proof {
                    assert forall|i: int| 0 <= i < output@.len() implies rest@.len()
                        <= #[trigger] places[i] < input@.len() && output@[i]
                        == input@[places[i]] by {
                        if i < k {
                            assert(old_places[i] == places[i]);
                        } else if i > k {
                            assert(old_places[i - 1] == places[i]);
                        }
                    }
                    assert forall|i: int, j: int| 0 <= i < j < output@.len() implies {
                        &&& #[trigger] output@[i].ranks_le(#[trigger] &output@[j])
                        &&& output@[j].ranks_le(&output@[i]) ==> places[i] < places[j]
                    } by {
                        let bi = if i < k { i } else { i - 1 };
                        let bj = if j < k { j } else { j - 1 };
                        if i != k && j != k {
                            assert(before[bi].ranks_le(&before[bj]));
                            assert(output@[i] == before[bi] && output@[j] == before[bj]);
                            assert(places[i] == old_places[bi] && places[j] == old_places[bj]);
                        } else if i == k {
                            assert(output@[j] == before[bj]);
                            assert(places[j] == old_places[bj]);
                        } else {
                            assert(output@[i] == before[bi]);
                        }
                    }
                }
            },
            None => {},
        }
    }
    assert(sorts(input@, output@, places));
    output
}

// -- Laws ---------------------------------------------------------------------

/// Whether each item comes strictly before all later ones.
pub open spec fn ascends<V>(items: Seq<V>, before: spec_fn(V, V) -> bool) -> bool {
    forall|i: int, j: int|
        0 <= i < j < items.len() ==> #[trigger] before(items[i], items[j]) && !before(
            items[j],
            items[i],
        )
}

/// Items in strictly ascending order are determined by which items they are.
pub proof fn law_ascending_is_unique<V>(x: Seq<V>, y: Seq<V>, before: spec_fn(V, V) -> bool)
    requires
        ascends(x, before),
        ascends(y, before),
        forall|v: V| #[trigger] x.contains(v) <==> y.contains(v),
    ensures
        x == y,
    decreases x.len(),
{
    if x.len() == 0 {
        if y.len() > 0 {
            assert(y.contains(y[0]));
            assert(x.contains(y[0]));
        }
        assert(x =~= y);
    } else {
        assert(x.contains(x[0]));
        assert(y.contains(x[0]));
        let k = choose|k: int| 0 <= k < y.len() && y[k] == x[0];
        assert(y.contains(y[0]));
        assert(x.contains(y[0]));
        let m = choose|m: int| 0 <= m < x.len() && x[m] == y[0];
        if k > 0 {
            assert(before(y[0], y[k]) && !before(y[k], y[0]));
            if m > 0 {
                assert(before(x[0], x[m]));
            }
        }
        assert(x[0] == y[0]);
        let xs = x.drop_first();
        let ys = y.drop_first();
        assert(ascends(xs, before)) by {
            assert forall|i: int, j: int| 0 <= i < j < xs.len() implies #[trigger] before(
                xs[i],
                xs[j],
            ) && !before(xs[j], xs[i]) by {
                assert(before(x[i + 1], x[j + 1]));
            }
        }
        assert(ascends(ys, before)) by {
            assert forall|i: int, j: int| 0 <= i < j < ys.len() implies #[trigger] before(
                ys[i],
                ys[j],
            ) && !before(ys[j], ys[i]) by {
                assert(before(y[i + 1], y[j + 1]));
            }
        }
        assert forall|v: V| #[trigger] xs.contains(v) <==> ys.contains(v) by {
            lemma_rest_contains(x, before, v);
            lemma_rest_contains(y, before, v);
            assert(x.contains(v) <==> y.contains(v));
        }
        law_ascending_is_unique(xs, ys, before);
        assert(x =~= seq![x[0]] + xs);
        assert(y =~= seq![y[0]] + ys);
    }
}

proof fn lemma_rest_contains<V>(x: Seq<V>, before: spec_fn(V, V) -> bool, v: V)
    requires
        x.len() > 0,
        ascends(x, before),
    ensures
        x.drop_first().contains(v) <==> x.contains(v) && v != x[0],
{
    let xs = x.drop_first();
    if xs.contains(v) {
        let i = choose|i: int| 0 <= i < xs.len() && xs[i] == v;
        assert(x[i + 1] == v);
        assert(before(x[0], x[i + 1]) && !before(x[i + 1], x[0]));
    }
    if x.contains(v) && v != x[0] {
        let i = choose|i: int| 0 <= i < x.len() && x[i] == v;
        assert(xs[i - 1] == v);
    }
}

/// Positions that are in range and all different reach every position.
proof fn lemma_places_cover(places: Seq<int>, n: int)
    requires
        places.len() == n,
        forall|i: int| 0 <= i < n ==> 0 <= #[trigger] places[i] < n,
        places.no_duplicates(),
    ensures
        forall|k: int| 0 <= k < n ==> places.contains(k),
{
    places.unique_seq_to_set();
    vstd::set_lib::lemma_int_range(0, n);
    let all = vstd::set_lib::set_int_range(0, n);
    assert(places.to_set().subset_of(all));
    vstd::set_lib::lemma_len_subset(places.to_set(), all);
    vstd::set_lib::lemma_subset_equality(places.to_set(), all);
    assert forall|k: int| 0 <= k < n implies places.contains(k) by {
        assert(all.contains(k));
        assert(places.to_set().contains(k));
    }
}

proof fn lemma_places_distinct<T: Ranked>(input: Seq<T>, output: Seq<T>, places: Seq<int>)
    requires
        sorts(input, output, places),
    ensures
        places.no_duplicates(),
        forall|k: int| 0 <= k < input.len() ==> places.contains(k),
{
    assert forall|i: int, j: int| 0 <= i < places.len() && 0 <= j < places.len() && i != j implies
        places[i] != places[j] by {
        let (a, b) = if i < j {
            (i, j)
        } else {
            (j, i)
        };
        assert(output[a].ranks_le(&output[b]));
        if places[a] == places[b] {
            assert(output[a] == output[b]);
        }
    }
    lemma_places_cover(places, input.len() as int);
}

/// Sorting loses nothing and adds nothing.
pub proof fn law_sort_keeps_items<T: Ranked>(input: Seq<T>, output: Seq<T>)
    requires
        is_stable_sort(input, output),
    ensures
        output.len() == input.len(),
        forall|v: T| #[trigger] output.contains(v) <==> input.contains(v),
{
    let places = choose|places: Seq<int>| #[trigger] sorts(input, output, places);
    lemma_places_distinct(input, output, places);
    assert forall|v: T| #[trigger] output.contains(v) <==> input.contains(v) by {
        if output.contains(v) {
            let i = choose|i: int| 0 <= i < output.len() && output[i] == v;
            assert(input[places[i]] == v);
        }
        if input.contains(v) {
            let k = choose|k: int| 0 <= k < input.len() && input[k] == v;
            assert(places.contains(k));
            let i = choose|i: int| 0 <= i < places.len() && places[i] == k;
            assert(output[i] == v);
        }
    }
}

/// There is one stable sort of an input.
pub proof fn law_sort_is_unique<T: Ranked>(input: Seq<T>, first: Seq<T>, second: Seq<T>)
    requires
        is_stable_sort(input, first),
        is_stable_sort(input, second),
    ensures
        first == second,
{
    let p = choose|p: Seq<int>| #[trigger] sorts(input, first, p);
    let q = choose|q: Seq<int>| #[trigger] sorts(input, second, q);
    lemma_places_distinct(input, first, p);
    lemma_places_distinct(input, second, q);
    let before = |a: int, b: int|
        input[a].ranks_le(&input[b]) && (input[b].ranks_le(&input[a]) ==> a < b);
    assert(ascends(p, before)) by {
        assert forall|i: int, j: int| 0 <= i < j < p.len() implies #[trigger] before(p[i], p[j])
            && !before(p[j], p[i]) by {
            assert(first[i].ranks_le(&first[j]));
            assert(first[i] == input[p[i]] && first[j] == input[p[j]]);
        }
    }
    assert(ascends(q, before)) by {
        assert forall|i: int, j: int| 0 <= i < j < q.len() implies #[trigger] before(q[i], q[j])
            && !before(q[j], q[i]) by {
            assert(second[i].ranks_le(&second[j]));
            assert(second[i] == input[q[i]] && second[j] == input[q[j]]);
        }
    }
    assert forall|v: int| #[trigger] p.contains(v) <==> q.contains(v) by {
        if p.contains(v) {
            let i = choose|i: int| 0 <= i < p.len() && p[i] == v;
            assert(0 <= p[i] < input.len());
            assert(q.contains(v));
        }
        if q.contains(v) {
            let i = choose|i: int| 0 <= i < q.len() && q[i] == v;
            assert(0 <= q[i] < input.len());
            assert(p.contains(v));
        }
    }
    law_ascending_is_unique(p, q, before);
    assert forall|i: int| 0 <= i < first.len() implies first[i] == second[i] by {
        assert(first[i] == input[p[i]] && second[i] == input[q[i]]);
    }
    assert(first =~= second);
}

/// Whether no two positions of a sequence tie in the order of what they show.
pub open spec fn no_ties<T, V>(
    items: Seq<T>,
    shown: spec_fn(T) -> V,
    before: spec_fn(V, V) -> bool,
) -> bool {
    forall|i: int, j: int|
        0 <= i < items.len() && 0 <= j < items.len() && i != j ==> !(before(
            shown(#[trigger] items[i]),
            shown(#[trigger] items[j]),
        ) && before(shown(items[j]), shown(items[i])))
}

proof fn lemma_sorted_shown<T: Ranked, V>(
    input: Seq<T>,
    output: Seq<T>,
    shown: spec_fn(T) -> V,
    before: spec_fn(V, V) -> bool,
)
    requires
        is_stable_sort(input, output),
        forall|a: T, b: T| #[trigger] a.ranks_le(&b) == before(shown(a), shown(b)),
        no_ties(input, shown, before),
    ensures
        ascends(output.map_values(shown), before),
        forall|v: V| #[trigger]
            output.map_values(shown).contains(v) <==> input.map_values(shown).contains(v),
{
    let places = choose|places: Seq<int>| #[trigger] sorts(input, output, places);
    lemma_places_distinct(input, output, places);
    let outs = output.map_values(shown);
    let ins = input.map_values(shown);
    assert forall|i: int, j: int| 0 <= i < j < outs.len() implies #[trigger] before(
        outs[i],
        outs[j],
    ) && !before(outs[j], outs[i]) by {
        assert(output[i].ranks_le(&output[j]));
        assert(output[i] == input[places[i]] && output[j] == input[places[j]]);
        assert(places[i] != places[j]);
    }
    assert forall|v: V| #[trigger] outs.contains(v) <==> ins.contains(v) by {
        if outs.contains(v) {
            let i = choose|i: int| 0 <= i < outs.len() && outs[i] == v;
            assert(ins[places[i]] == v);
        }
        if ins.contains(v) {
            let k = choose|k: int| 0 <= k < ins.len() && ins[k] == v;
            assert(places.contains(k));
            let i = choose|i: int| 0 <= i < places.len() && places[i] == k;
            assert(outs[i] == v);
        }
    }
}

/// Sorting is reproducible: where nothing ties, the outcome does not depend on
/// the order of the input.
pub proof fn law_sort_is_reproducible<T: Ranked, V>(
    input_a: Seq<T>,
    output_a: Seq<T>,
    input_b: Seq<T>,
    output_b: Seq<T>,
    shown: spec_fn(T) -> V,
    before: spec_fn(V, V) -> bool,
)
    requires
        is_stable_sort(input_a, output_a),
        is_stable_sort(input_b, output_b),
        forall|a: T, b: T| #[trigger] a.ranks_le(&b) == before(shown(a), shown(b)),
        no_ties(input_a, shown, before),
        no_ties(input_b, shown, before),
        forall|v: V| #[trigger]
            input_a.map_values(shown).contains(v) <==> input_b.map_values(shown).contains(v),
    ensures
        output_a.map_values(shown) == output_b.map_values(shown),
{
    lemma_sorted_shown(input_a, output_a, shown, before);
    lemma_sorted_shown(input_b, output_b, shown, before);
    assert forall|v: V| #[trigger] output_a.map_values(shown).contains(v) <==> output_b.map_values(
        shown,
    ).contains(v) by {
        assert(input_a.map_values(shown).contains(v) <==> input_b.map_values(shown).contains(v));
    }
    law_ascending_is_unique(output_a.map_values(shown), output_b.map_values(shown), before);
}

/// A sorted sequence ascends, and items that tie keep the order in which they
/// came.
pub proof fn law_sort_ascends<T: Ranked>(input: Seq<T>, output: Seq<T>, i: int, j: int)
    requires
        is_stable_sort(input, output),
        0 <= i < j < output.len(),
    ensures
        output[i].ranks_le(&output[j]),
        output[j].ranks_le(&output[i]) ==> exists|a: int, b: int|
            0 <= a < b < input.len() && #[trigger] input[a] == output[i] && #[trigger] input[b]
                == output[j],
{
    let places = choose|places: Seq<int>| #[trigger] sorts(input, output, places);
    assert(output[i].ranks_le(&output[j]));
    assert(input[places[i]] == output[i] && input[places[j]] == output[j]);
}

} // verus!
