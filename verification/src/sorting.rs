//! Stable sorting by a numeric rank.

use vstd::prelude::*;

verus! {

/// A value that has a place in an order given by a number: a smaller rank
/// comes first.
pub trait Ranked {
    /// The number the value is ordered by.
    spec fn rank(&self) -> u64;

    /// Computes the rank.
    fn rank_of(&self) -> (r: u64)
        ensures
            r == self.rank(),
    ;
}

/// The rank of a [`Ranked`] value, as a function.
pub open spec fn own_rank<T: Ranked>() -> spec_fn(T) -> u64 {
    |item: T| item.rank()
}

/// Whether an item of rank `r1` that stood at index `o1` goes before one of
/// rank `r2` that stood at index `o2`: by rank, and among equal ranks by
/// where they stood.
pub open spec fn goes_before(r1: u64, o1: int, r2: u64, o2: int) -> bool {
    r1 < r2 || (r1 == r2 && o1 < o2)
}

/// Whether `output` holds items of `input`, the item at `i` taken from
/// `origin[i]`, in the order that [`goes_before`] gives under `rank`.
pub open spec fn is_placement<A>(
    input: Seq<A>,
    output: Seq<A>,
    rank: spec_fn(A) -> u64,
    origin: Seq<int>,
) -> bool {
    &&& origin.len() == input.len()
    &&& output.len() == input.len()
    &&& forall|i: int|
        0 <= i < origin.len() ==> 0 <= #[trigger] origin[i] < input.len() && output[i]
            == input[origin[i]]
    &&& forall|i: int, j: int|
        0 <= i < j < origin.len() ==> goes_before(
            rank(input[#[trigger] origin[i]]),
            origin[i],
            rank(input[#[trigger] origin[j]]),
            origin[j],
        )
}

/// Whether `output` is `input` sorted by `rank`, items of equal rank kept
/// in the order they had.
pub open spec fn is_stable_sort_by<A>(input: Seq<A>, output: Seq<A>, rank: spec_fn(A) -> u64) -> bool {
    exists|origin: Seq<int>| is_placement(input, output, rank, origin)
}

/// Whether `output` is `input` sorted by the items' own rank, items of
/// equal rank kept in the order they had.
pub open spec fn is_stable_sort<T: Ranked>(input: Seq<T>, output: Seq<T>) -> bool {
    is_stable_sort_by(input, output, own_rank::<T>())
}

/// Whether the ranks of `items` never fall from one item to the next.
pub open spec fn is_ascending<A>(items: Seq<A>, rank: spec_fn(A) -> u64) -> bool {
    forall|i: int, j: int| 0 <= i < j < items.len() ==> rank(items[i]) <= rank(items[j])
}

/// A stable sort leaves its output in ascending order of rank.
pub proof fn law_stable_sort_ascends<A>(input: Seq<A>, output: Seq<A>, rank: spec_fn(A) -> u64)
    requires
        is_stable_sort_by(input, output, rank),
    ensures
        is_ascending(output, rank),
{
    let origin = choose|origin: Seq<int>| is_placement(input, output, rank, origin);
    assert forall|i: int, j: int| 0 <= i < j < output.len() implies rank(output[i]) <= rank(
        output[j],
    ) by {
        assert(goes_before(rank(input[origin[i]]), origin[i], rank(input[origin[j]]), origin[j]));
    }
}

/// A stable sort carries over to any image of the items that keeps their
/// ranks: the images of the output are the images of the input, sorted.
pub proof fn law_stable_sort_maps<A, B>(
    input: Seq<A>,
    output: Seq<A>,
    rank: spec_fn(A) -> u64,
    image: spec_fn(A) -> B,
    image_rank: spec_fn(B) -> u64,
)
    requires
        is_stable_sort_by(input, output, rank),
        forall|a: A| image_rank(#[trigger] image(a)) == rank(a),
    ensures
        is_stable_sort_by(input.map_values(image), output.map_values(image), image_rank),
{
    let origin = choose|origin: Seq<int>| is_placement(input, output, rank, origin);
    let input2 = input.map_values(image);
    let output2 = output.map_values(image);
    assert forall|i: int, j: int| 0 <= i < j < origin.len() implies goes_before(
        image_rank(input2[#[trigger] origin[i]]),
        origin[i],
        image_rank(input2[#[trigger] origin[j]]),
        origin[j],
    ) by {
        assert(goes_before(rank(input[origin[i]]), origin[i], rank(input[origin[j]]), origin[j]));
    }
    assert(is_placement(input2, output2, image_rank, origin));
}

/// The origins of a placement reach every index of the input.
proof fn lemma_placement_reaches_all<A>(
    input: Seq<A>,
    output: Seq<A>,
    rank: spec_fn(A) -> u64,
    origin: Seq<int>,
    v: int,
)
    requires
        is_placement(input, output, rank, origin),
        0 <= v < input.len(),
    ensures
        exists|i: int| 0 <= i < origin.len() && origin[i] == v,
{
    let n = input.len() as int;
    assert forall|i: int, j: int| 0 <= i < j < origin.len() implies origin[i] != origin[j] by {
        assert(goes_before(rank(input[origin[i]]), origin[i], rank(input[origin[j]]), origin[j]));
    }
    assert(origin.no_duplicates());
    origin.unique_seq_to_set();
    vstd::set_lib::lemma_int_range(0, n);
    let all = vstd::set_lib::set_int_range(0, n);
    assert forall|x: int| origin.to_set().contains(x) implies all.contains(x) by {
        let i = choose|i: int| 0 <= i < origin.len() && origin[i] == x;
        assert(0 <= origin[i] < n);
    }
    assert(origin.to_set().subset_of(all));
    vstd::set_lib::lemma_len_subset(origin.to_set(), all);
    vstd::set_lib::lemma_subset_equality(origin.to_set(), all);
    assert(all.contains(v));
    assert(origin.to_set().contains(v));
    assert(origin.contains(v));
}

/// Two placements of one input agree on their first `upto` origins.
proof fn lemma_placements_agree<A>(
    input: Seq<A>,
    rank: spec_fn(A) -> u64,
    first: Seq<A>,
    first_origin: Seq<int>,
    second: Seq<A>,
    second_origin: Seq<int>,
    upto: int,
)
    requires
        is_placement(input, first, rank, first_origin),
        is_placement(input, second, rank, second_origin),
        0 <= upto <= input.len(),
    ensures
        forall|k: int| 0 <= k < upto ==> first_origin[k] == second_origin[k],
    decreases upto,
{
    if upto > 0 {
        let i = upto - 1;
        lemma_placements_agree(input, rank, first, first_origin, second, second_origin, i);
        let v = first_origin[i];
        let w = second_origin[i];
        assert(0 <= v < input.len() && 0 <= w < input.len());
        if v != w {
            if goes_before(rank(input[v]), v, rank(input[w]), w) {
                // `v` would have to stand in the second placement before `w`
                lemma_placement_reaches_all(input, second, rank, second_origin, v);
                let m = choose|m: int| 0 <= m < second_origin.len() && second_origin[m] == v;
                if m < i {
                    assert(first_origin[m] == v);
                    assert(goes_before(
                        rank(input[first_origin[m]]),
                        first_origin[m],
                        rank(input[first_origin[i]]),
                        first_origin[i],
                    ));
                } else {
                    assert(goes_before(
                        rank(input[second_origin[i]]),
                        second_origin[i],
                        rank(input[second_origin[m]]),
                        second_origin[m],
                    ));
                }
                assert(false);
            } else {
                // `w` would have to stand in the first placement before `v`
                lemma_placement_reaches_all(input, first, rank, first_origin, w);
                let m = choose|m: int| 0 <= m < first_origin.len() && first_origin[m] == w;
                if m < i {
                    assert(second_origin[m] == w);
                    assert(goes_before(
                        rank(input[second_origin[m]]),
                        second_origin[m],
                        rank(input[second_origin[i]]),
                        second_origin[i],
                    ));
                } else {
                    assert(goes_before(
                        rank(input[first_origin[i]]),
                        first_origin[i],
                        rank(input[first_origin[m]]),
                        first_origin[m],
                    ));
                }
                assert(false);
            }
        }
    }
}

/// A sequence has one stable sort and no other.
pub proof fn law_stable_sort_is_unique<A>(
    input: Seq<A>,
    first: Seq<A>,
    second: Seq<A>,
    rank: spec_fn(A) -> u64,
)
    requires
        is_stable_sort_by(input, first, rank),
        is_stable_sort_by(input, second, rank),
    ensures
        first == second,
{
    let first_origin = choose|origin: Seq<int>| is_placement(input, first, rank, origin);
    let second_origin = choose|origin: Seq<int>| is_placement(input, second, rank, origin);
    lemma_placements_agree(
        input,
        rank,
        first,
        first_origin,
        second,
        second_origin,
        input.len() as int,
    );
    assert forall|k: int| 0 <= k < first.len() implies first[k] == second[k] by {
        assert(first[k] == input[first_origin[k]]);
        assert(second[k] == input[second_origin[k]]);
    }
    assert(first =~= second);
}

/// A stable sort keeps every item, as often as it occurred.
pub proof fn law_stable_sort_keeps_items<A>(input: Seq<A>, output: Seq<A>, rank: spec_fn(A) -> u64)
    requires
        is_stable_sort_by(input, output, rank),
    ensures
        forall|k: int| 0 <= k < input.len() ==> output.contains(#[trigger] input[k]),
        forall|k: int| 0 <= k < output.len() ==> input.contains(#[trigger] output[k]),
{
    let origin = choose|origin: Seq<int>| is_placement(input, output, rank, origin);
    assert forall|k: int| 0 <= k < input.len() implies output.contains(#[trigger] input[k]) by {
        lemma_placement_reaches_all(input, output, rank, origin, k);
        let i = choose|i: int| 0 <= i < origin.len() && origin[i] == k;
        assert(output[i] == input[k]);
    }
    assert forall|k: int| 0 <= k < output.len() implies input.contains(#[trigger] output[k]) by {
        assert(output[k] == input[origin[k]]);
    }
}

/// Moving the item at `i` down to `j` changes no count.
proof fn lemma_move_keeps_items<A>(s: Seq<A>, i: int, j: int)
    requires
        0 <= j <= i < s.len(),
    ensures
        s.remove(i).insert(j, s[i]).to_multiset() == s.to_multiset(),
{
    broadcast use vstd::seq_lib::group_to_multiset_ensures;

    let x = s[i];
    let lifted = s.remove(i);
    let moved = lifted.insert(j, x);
    assert(moved.remove(j) =~= lifted);
    assert(moved[j] == x);
    assert(lifted.to_multiset() == s.to_multiset().remove(x));
    assert(lifted.to_multiset() == moved.to_multiset().remove(x));
    assert(s.contains(x));
    assert(moved.contains(x));
    assert(moved.to_multiset() =~= s.to_multiset());
}

/// Sorts `items` by rank; items of equal rank keep their order.
pub fn sort_by_rank<T: Ranked>(items: &mut Vec<T>)
    ensures
        is_stable_sort(old(items)@, final(items)@),
        is_ascending(final(items)@, own_rank::<T>()),
        final(items)@.to_multiset() == old(items)@.to_multiset(),
{
    let ghost input = items@;
    let ghost mut origin: Seq<int> = Seq::new(items.len() as nat, |k: int| k);
    let n: usize = items.len();
    let mut i: usize = 0;
    while i < n
        invariant
            i <= n,
            n == input.len(),
            items@.len() == n,
            origin.len() == n,
            items@.to_multiset() == input.to_multiset(),
            forall|k: int|
                0 <= k < n ==> 0 <= #[trigger] origin[k] < n && items@[k] == input[origin[k]],
            forall|k: int| i <= k < n ==> #[trigger] origin[k] == k,
            forall|k: int| 0 <= k < i ==> #[trigger] origin[k] < i,
            forall|a: int, b: int|
                0 <= a < b < i ==> goes_before(
                    items@[a].rank(),
                    #[trigger] origin[a],
                    items@[b].rank(),
                    #[trigger] origin[b],
                ),
        decreases n - i,
    {
        let r: u64 = items[i].rank_of();
        let mut j: usize = i;
        while j > 0 && items[j - 1].rank_of() > r
            invariant
                j <= i,
                i < n,
                items@.len() == n,
                r == items@[i as int].rank(),
                forall|k: int| j <= k < i ==> (#[trigger] items@[k]).rank() > r,
            decreases j,
        {
            j -= 1;
        }
        let ghost before = items@;
        let ghost before_origin = origin;
        if j < i {
            let item = items.remove(i);
            items.insert(j, item);
            proof {
                origin = origin.remove(i as int).insert(j as int, i as int);
                lemma_move_keeps_items(before, i as int, j as int);
            }
        }
        proof {
            let at = |k: int|
                if k < j {
                    k
                } else if k == j {
                    i as int
                } else if k <= i {
                    k - 1
                } else {
                    k
                };
            assert forall|k: int| 0 <= k < n implies items@[k] == before[at(k)] && origin[k]
                == before_origin[at(k)] by {}
            assert forall|k: int| 0 <= k < n implies 0 <= #[trigger] origin[k] < n && items@[k]
                == input[origin[k]] by {
                assert(0 <= before_origin[at(k)] < n);
            }
            assert forall|k: int| 0 <= k < i + 1 implies #[trigger] origin[k] < i + 1 by {
                assert(before_origin[at(k)] < i + 1);
            }
            assert forall|k: int| i + 1 <= k < n implies #[trigger] origin[k] == k by {
                assert(before_origin[at(k)] == k);
            }
            assert forall|a: int, b: int| 0 <= a < b < i + 1 implies goes_before(
                items@[a].rank(),
                #[trigger] origin[a],
                items@[b].rank(),
                #[trigger] origin[b],
            ) by {
                let pa = at(a);
                let pb = at(b);
                if b == j {
                    // everything left of the slot ranks no higher than the item
                    assert(pa == a && pb == i);
                    assert(before_origin[pa] < i);
                    assert(before_origin[pb] == i);
                    if a < j - 1 {
                        assert(goes_before(
                            before[a].rank(),
                            before_origin[a],
                            before[j - 1].rank(),
                            before_origin[j - 1],
                        ));
                    }
                    assert(before[j - 1].rank() <= r);
                } else if a == j {
                    // everything right of the slot ranks higher than the item
                    assert(pa == i && pb == b - 1);
                    assert(before[pb].rank() > r);
                } else {
                    assert(pa < pb < i);
                    assert(goes_before(
                        before[pa].rank(),
                        before_origin[pa],
                        before[pb].rank(),
                        before_origin[pb],
                    ));
                }
            }
        }
        i += 1;
    }
    proof {
        assert forall|a: int, b: int| 0 <= a < b < n implies goes_before(
            own_rank::<T>()(input[#[trigger] origin[a]]),
            origin[a],
            own_rank::<T>()(input[#[trigger] origin[b]]),
            origin[b],
        ) by {
            assert(goes_before(items@[a].rank(), origin[a], items@[b].rank(), origin[b]));
        }
        assert(is_placement(input, items@, own_rank::<T>(), origin));
        law_stable_sort_ascends(input, items@, own_rank::<T>());
    }
}

} // verus!
