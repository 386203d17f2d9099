//! The plant sorter: orders a collection by urgency for a chosen care
//! dimension. The key of a plant is its last-action day minus its interval,
//! so the most overdue plant comes first; plants with equal keys keep their
//! original relative order.

use vstd::prelude::*;
use vstd::seq_lib::lemma_multiset_commutative;
use crate::plant::{CareDimension, Plant, cycle_interval, last_acted};

verus! {

/// The urgency key of a plant for a care dimension: the day of the last
/// action minus the interval. Smaller keys are more urgent.
pub open spec fn sort_key(p: Plant, dim: CareDimension) -> int {
    last_acted(p, dim) - cycle_interval(p, dim)
}

/// Whether a collection is ordered by non-decreasing urgency key.
pub open spec fn sorted_by_key(s: Seq<Plant>, dim: CareDimension) -> bool {
    forall|i: int, j: int|
        0 <= i < j < s.len() ==> sort_key(#[trigger] s[i], dim) <= sort_key(#[trigger] s[j], dim)
}

/// Places `x` immediately before the first element whose key is at least the
/// key of `x`; every element passed over has a strictly smaller key.
pub open spec fn insert_by_key(x: Plant, s: Seq<Plant>, dim: CareDimension) -> Seq<Plant>
    decreases s.len(),
{
    if s.len() == 0 {
        seq![x]
    } else if sort_key(x, dim) <= sort_key(s[0], dim) {
        seq![x] + s
    } else {
        seq![s[0]] + insert_by_key(x, s.drop_first(), dim)
    }
}

/// Insertion sort: each plant, from the first to the last, is inserted into
/// the sorted collection of the plants after it. Equal keys keep their
/// original relative order.
pub open spec fn sort_by_urgency(s: Seq<Plant>, dim: CareDimension) -> Seq<Plant>
    decreases s.len(),
{
    if s.len() == 0 {
        Seq::empty()
    } else {
        insert_by_key(s.first(), sort_by_urgency(s.drop_first(), dim), dim)
    }
}

/// The subsequence of plants whose urgency key equals `k`, in their original
/// order.
pub open spec fn with_key(s: Seq<Plant>, dim: CareDimension, k: int) -> Seq<Plant> {
    s.filter(|p: Plant| sort_key(p, dim) == k)
}

/// Inserting at the position the exec search finds agrees with
/// `insert_by_key`.
proof fn lemma_insert_by_key_at(x: Plant, s: Seq<Plant>, dim: CareDimension, j: int)
    requires
        0 <= j <= s.len(),
        forall|i: int| 0 <= i < j ==> sort_key(#[trigger] s[i], dim) < sort_key(x, dim),
        j < s.len() ==> sort_key(x, dim) <= sort_key(s[j], dim),
    ensures
        insert_by_key(x, s, dim) == s.insert(j, x),
    decreases s.len(),
{
    if j == 0 {
        if s.len() == 0 {
            assert(insert_by_key(x, s, dim) =~= s.insert(0, x));
        } else {
            assert(seq![x] + s =~= s.insert(0, x));
        }
    } else {
        assert(sort_key(s[0], dim) < sort_key(x, dim));
        lemma_insert_by_key_at(x, s.drop_first(), dim, j - 1);
        assert(seq![s[0]] + s.drop_first().insert(j - 1, x) =~= s.insert(j, x));
    }
}

/// Every element of `insert_by_key(x, s, dim)` is `x` or an element of `s`.
proof fn lemma_insert_by_key_membership(x: Plant, s: Seq<Plant>, dim: CareDimension)
    ensures
        insert_by_key(x, s, dim).len() == s.len() + 1,
        forall|i: int|
            0 <= i < insert_by_key(x, s, dim).len() ==> (#[trigger] insert_by_key(x, s, dim)[i]
                == x || s.contains(insert_by_key(x, s, dim)[i])),
    decreases s.len(),
{
    let t = insert_by_key(x, s, dim);
    if s.len() == 0 {
    } else if sort_key(x, dim) <= sort_key(s[0], dim) {
        assert forall|i: int| 0 <= i < t.len() implies (#[trigger] t[i] == x || s.contains(
            t[i],
        )) by {
            if i > 0 {
                assert(t[i] == s[i - 1]);
            }
        }
    } else {
        lemma_insert_by_key_membership(x, s.drop_first(), dim);
        let rec = insert_by_key(x, s.drop_first(), dim);
        assert forall|i: int| 0 <= i < t.len() implies (#[trigger] t[i] == x || s.contains(
            t[i],
        )) by {
            if i == 0 {
                assert(s[0] == t[0]);
                assert(s.contains(s[0]));
            } else {
                assert(t[i] == rec[i - 1]);
                if rec[i - 1] == x {
                } else {
                    let w = choose|w: int|
                        0 <= w < s.drop_first().len() && s.drop_first()[w] == rec[i - 1];
                    assert(s[w + 1] == rec[i - 1]);
                }
            }
        }
    }
}

/// Inserting into a sorted collection keeps it sorted.
proof fn lemma_insert_by_key_sorted(x: Plant, s: Seq<Plant>, dim: CareDimension)
    requires
        sorted_by_key(s, dim),
    ensures
        sorted_by_key(insert_by_key(x, s, dim), dim),
    decreases s.len(),
{
    let t = insert_by_key(x, s, dim);
    if s.len() == 0 {
    } else if sort_key(x, dim) <= sort_key(s[0], dim) {
        assert forall|i: int, j: int| 0 <= i < j < t.len() implies sort_key(#[trigger] t[i], dim)
            <= sort_key(#[trigger] t[j], dim) by {
            if i > 0 {
                assert(t[i] == s[i - 1] && t[j] == s[j - 1]);
            } else {
                assert(t[j] == s[j - 1]);
                assert(sort_key(x, dim) <= sort_key(s[0], dim) <= sort_key(s[j - 1], dim));
            }
        }
    } else {
        assert(sorted_by_key(s.drop_first(), dim));
        lemma_insert_by_key_sorted(x, s.drop_first(), dim);
        lemma_insert_by_key_membership(x, s.drop_first(), dim);
        let rec = insert_by_key(x, s.drop_first(), dim);
        assert forall|i: int, j: int| 0 <= i < j < t.len() implies sort_key(#[trigger] t[i], dim)
            <= sort_key(#[trigger] t[j], dim) by {
            if i > 0 {
                assert(t[i] == rec[i - 1] && t[j] == rec[j - 1]);
            } else {
                assert(t[0] == s[0]);
                assert(t[j] == rec[j - 1]);
                if rec[j - 1] == x {
                } else {
                    assert(s.drop_first().contains(rec[j - 1]));
                    let w = choose|w: int|
                        0 <= w < s.drop_first().len() && s.drop_first()[w] == rec[j - 1];
                    assert(s[w + 1] == rec[j - 1]);
                }
            }
        }
    }
}

/// `insert_by_key` adds exactly one copy of `x` to the collection's
/// contents.
proof fn lemma_insert_by_key_multiset(x: Plant, s: Seq<Plant>, dim: CareDimension)
    ensures
        insert_by_key(x, s, dim).to_multiset() == s.to_multiset().insert(x),
    decreases s.len(),
{
    broadcast use vstd::seq_lib::group_to_multiset_ensures;

    if s.len() == 0 {
        assert(seq![x] =~= Seq::<Plant>::empty().push(x));
        assert(insert_by_key(x, s, dim).to_multiset() =~= s.to_multiset().insert(x));
    } else if sort_key(x, dim) <= sort_key(s[0], dim) {
        lemma_multiset_commutative(seq![x], s);
        assert(seq![x] =~= Seq::<Plant>::empty().push(x));
        assert(insert_by_key(x, s, dim).to_multiset() =~= s.to_multiset().insert(x));
    } else {
        lemma_insert_by_key_multiset(x, s.drop_first(), dim);
        lemma_multiset_commutative(seq![s[0]], insert_by_key(x, s.drop_first(), dim));
        lemma_multiset_commutative(seq![s[0]], s.drop_first());
        assert(seq![s[0]] + s.drop_first() =~= s);
        assert(seq![s[0]] =~= Seq::<Plant>::empty().push(s[0]));
        assert(insert_by_key(x, s, dim).to_multiset() =~= s.to_multiset().insert(x));
    }
}

/// Sorting never loses, duplicates or invents a plant: the result holds
/// exactly the plants of the input.
pub proof fn lemma_sort_permutes(s: Seq<Plant>, dim: CareDimension)
    ensures
        sort_by_urgency(s, dim).to_multiset() == s.to_multiset(),
    decreases s.len(),
{
    broadcast use vstd::seq_lib::group_to_multiset_ensures;

    if s.len() > 0 {
        lemma_sort_permutes(s.drop_first(), dim);
        lemma_insert_by_key_multiset(s.first(), sort_by_urgency(s.drop_first(), dim), dim);
        lemma_multiset_commutative(seq![s[0]], s.drop_first());
        assert(seq![s[0]] + s.drop_first() =~= s);
        assert(seq![s[0]] =~= Seq::<Plant>::empty().push(s[0]));
        assert(sort_by_urgency(s, dim).to_multiset() =~= s.to_multiset());
    }
}

/// Sorting orders the collection by non-decreasing urgency key.
pub proof fn lemma_sort_sorted(s: Seq<Plant>, dim: CareDimension)
    ensures
        sorted_by_key(sort_by_urgency(s, dim), dim),
    decreases s.len(),
{
    if s.len() > 0 {
        lemma_sort_sorted(s.drop_first(), dim);
        lemma_insert_by_key_sorted(s.first(), sort_by_urgency(s.drop_first(), dim), dim);
    }
}

/// The plants with key `k` in a one-element collection.
proof fn lemma_with_key_singleton(x: Plant, dim: CareDimension, k: int)
    ensures
        with_key(seq![x], dim, k) == if sort_key(x, dim) == k {
            seq![x]
        } else {
            Seq::<Plant>::empty()
        },
{
    reveal_with_fuel(Seq::filter, 2);
    assert(seq![x].drop_last() =~= Seq::<Plant>::empty());
    if sort_key(x, dim) == k {
        assert(with_key(seq![x], dim, k) =~= seq![x]);
    } else {
        assert(with_key(seq![x], dim, k) =~= Seq::<Plant>::empty());
    }
}

/// Inserting `x` puts it before every already-present plant of its own key
/// and leaves every other key's subsequence unchanged.
proof fn lemma_insert_by_key_filter(x: Plant, s: Seq<Plant>, dim: CareDimension, k: int)
    ensures
        with_key(insert_by_key(x, s, dim), dim, k) == if sort_key(x, dim) == k {
            seq![x] + with_key(s, dim, k)
        } else {
            with_key(s, dim, k)
        },
    decreases s.len(),
{
    broadcast use vstd::seq_lib::group_filter_ensures;

    lemma_with_key_singleton(x, dim, k);
    if s.len() == 0 {
        reveal(Seq::filter);
        if sort_key(x, dim) == k {
            assert(with_key(insert_by_key(x, s, dim), dim, k) =~= seq![x] + with_key(s, dim, k));
        }
    } else if sort_key(x, dim) <= sort_key(s[0], dim) {
        assert(with_key(seq![x] + s, dim, k) == with_key(seq![x], dim, k) + with_key(s, dim, k));
        if sort_key(x, dim) != k {
            assert(with_key(insert_by_key(x, s, dim), dim, k) =~= with_key(s, dim, k));
        }
    } else {
        lemma_insert_by_key_filter(x, s.drop_first(), dim, k);
        lemma_with_key_singleton(s[0], dim, k);
        let rec = insert_by_key(x, s.drop_first(), dim);
        assert(with_key(seq![s[0]] + rec, dim, k) == with_key(seq![s[0]], dim, k) + with_key(
            rec,
            dim,
            k,
        ));
        assert(seq![s[0]] + s.drop_first() =~= s);
        assert(with_key(s, dim, k) == with_key(seq![s[0]], dim, k) + with_key(
            s.drop_first(),
            dim,
            k,
        ));
        if sort_key(x, dim) == k {
            assert(sort_key(s[0], dim) != k);
            assert(with_key(seq![s[0]], dim, k) =~= Seq::<Plant>::empty());
            assert(with_key(insert_by_key(x, s, dim), dim, k) =~= seq![x] + with_key(s, dim, k));
        } else {
            assert(with_key(insert_by_key(x, s, dim), dim, k) =~= with_key(s, dim, k));
        }
    }
}

/// Sorting is stable: for every key `k`, the plants whose key is `k` appear
/// in the sorted result exactly as they appear in the input.
pub proof fn lemma_sort_stable(s: Seq<Plant>, dim: CareDimension, k: int)
    ensures
        with_key(sort_by_urgency(s, dim), dim, k) == with_key(s, dim, k),
    decreases s.len(),
{
    broadcast use vstd::seq_lib::group_filter_ensures;

    if s.len() == 0 {
        reveal(Seq::filter);
        assert(with_key(sort_by_urgency(s, dim), dim, k) =~= with_key(s, dim, k));
    } else {
        lemma_sort_stable(s.drop_first(), dim, k);
        lemma_insert_by_key_filter(s.first(), sort_by_urgency(s.drop_first(), dim), dim, k);
        lemma_with_key_singleton(s[0], dim, k);
        assert(seq![s[0]] + s.drop_first() =~= s);
        assert(with_key(s, dim, k) == with_key(seq![s[0]], dim, k) + with_key(
            s.drop_first(),
            dim,
            k,
        ));
        if sort_key(s[0], dim) == k {
            assert(with_key(sort_by_urgency(s, dim), dim, k) =~= with_key(s, dim, k));
        } else {
            assert(with_key(seq![s[0]], dim, k) =~= Seq::<Plant>::empty());
            assert(with_key(sort_by_urgency(s, dim), dim, k) =~= with_key(s, dim, k));
        }
    }
}

/// The urgency key of a plant, computed without overflow.
fn plant_key(p: &Plant, dim: CareDimension) -> (k: i64)
    ensures
        k == sort_key(*p, dim),
{
    match dim {
        CareDimension::Feed => (p.last_fed as i64) - (p.feed_interval as i64),
        CareDimension::Pot => (p.last_potted as i64) - (p.potting_interval as i64),
        CareDimension::Prune => (p.last_pruned as i64) - (p.pruning_interval as i64),
    }
}

/// Inserts `x` before the first plant of `sorted` whose key is at least the
/// key of `x`.
fn insert_plant(x: Plant, sorted: Vec<Plant>, dim: CareDimension) -> (r: Vec<Plant>)
    ensures
        r@ == insert_by_key(x, sorted@, dim),
{
    let kx = plant_key(&x, dim);
    let mut j: usize = 0;
    while j < sorted.len() && plant_key(&sorted[j], dim) < kx
        invariant
            0 <= j <= sorted@.len(),
            kx == sort_key(x, dim),
            forall|i: int| 0 <= i < j ==> sort_key(#[trigger] sorted@[i], dim) < sort_key(x, dim),
        decreases sorted@.len() - j,
    {
        j = j + 1;
    }
    proof {
        lemma_insert_by_key_at(x, sorted@, dim, j as int);
    }
    let mut out = sorted;
    out.insert(j, x);
    out
}

/// Sorts a collection of plants by urgency for the chosen care dimension:
/// the result is ordered by non-decreasing `last - interval` key, and plants
/// with equal keys keep their original relative order.
pub fn sort_plants(plants: Vec<Plant>, dim: CareDimension) -> (r: Vec<Plant>)
    ensures
        r@ == sort_by_urgency(plants@, dim),
{
    let ghost all = plants@;
    let mut rest = plants;
    let mut out: Vec<Plant> = Vec::new();
    while rest.len() > 0
        invariant
            rest@.len() <= all.len(),
            rest@ =~= all.subrange(0, rest@.len() as int),
            out@ == sort_by_urgency(all.subrange(rest@.len() as int, all.len() as int), dim),
        decreases rest.len(),
    {
        let ghost i: int = rest@.len() as int;
        let x = rest.pop().unwrap();
        proof {
            assert(x == all[i - 1]);
            assert(rest@ =~= all.subrange(0, i - 1));
            assert(all.subrange(i - 1, all.len() as int).first() == all[i - 1]);
            assert(all.subrange(i - 1, all.len() as int).drop_first() =~= all.subrange(
                i,
                all.len() as int,
            ));
        }
        out = insert_plant(x, out, dim);
    }
    proof {
        assert(all.subrange(0, all.len() as int) =~= all);
    }
    out
}

} // verus!
