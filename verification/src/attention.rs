//! The attention filter: the subset of a collection whose feed, pot or prune
//! date has already passed.

use vstd::prelude::*;
use crate::plant::{Plant, plant_needs_attention};

verus! {

/// The attention set: the plants with at least one past-due cycle, in their
/// original order.
pub open spec fn attention_set(plants: Seq<Plant>, today: int) -> Seq<Plant> {
    plants.filter(|p: Plant| plant_needs_attention(p, today))
}

/// Peels the last plant off the attention set: it is a member exactly when
/// one of its cycles is past due.
proof fn lemma_attention_set_step(plants: Seq<Plant>, today: int)
    requires
        plants.len() > 0,
    ensures
        attention_set(plants, today) == if plant_needs_attention(plants.last(), today) {
            attention_set(plants.drop_last(), today).push(plants.last())
        } else {
            attention_set(plants.drop_last(), today)
        },
{
    reveal(Seq::filter);
}

/// Selects the plants with at least one cycle past due on `today`, keeping
/// their original order. An empty collection yields an empty result.
pub fn needs_attention(plants: Vec<Plant>, today: i32) -> (r: Vec<Plant>)
    ensures
        r@ == attention_set(plants@, today as int),
{
    let ghost all = plants@;
    let ghost t = today as int;
    let mut rest = plants;
    let mut out: Vec<Plant> = Vec::new();
    proof {
        reveal(Seq::filter);
        assert(attention_set(all.subrange(0, 0), t) =~= Seq::<Plant>::empty());
    }
    while rest.len() > 0
        invariant
            rest@.len() <= all.len(),
            rest@ =~= all.subrange(all.len() - rest@.len(), all.len() as int),
            out@ == attention_set(all.subrange(0, all.len() - rest@.len()), t),
            t == today as int,
        decreases rest.len(),
    {
        let ghost k: int = all.len() - rest@.len();
        let p = rest.remove(0);
        proof {
            assert(p == all[k]);
            assert(rest@ =~= all.subrange(k + 1, all.len() as int));
        }
        let fed_due = (p.last_fed as i64) + (p.feed_interval as i64) < (today as i64);
        let pot_due = (p.last_potted as i64) + (p.potting_interval as i64) < (today as i64);
        let prune_due = (p.last_pruned as i64) + (p.pruning_interval as i64) < (today as i64);
        let due = fed_due || pot_due || prune_due;
        proof {
            assert(due == plant_needs_attention(p, t));
        }
        if due {
            out.push(p);
        }
        proof {
            let prefix = all.subrange(0, k + 1);
            assert(prefix.drop_last() =~= all.subrange(0, k));
            assert(prefix.last() == all[k]);
            lemma_attention_set_step(prefix, t);
            assert(all.len() - rest@.len() == k + 1);
        }
    }
    proof {
        assert(all.subrange(0, all.len() as int) =~= all);
    }
    out
}

/// The periodic reminder decision for one user: the plants of the
/// collection needing attention on `today`, or nothing when no reminder is
/// owed because none does.
pub fn reminder_batch(plants: Vec<Plant>, today: i32) -> (r: Option<Vec<Plant>>)
    ensures
        match r {
            Some(v) => v@ == attention_set(plants@, today as int) && v@.len() > 0,
            None => attention_set(plants@, today as int).len() == 0,
        },
{
    let due = needs_attention(plants, today);
    if due.len() == 0 {
        None
    } else {
        Some(due)
    }
}

/// An empty collection has an empty attention set.
pub proof fn lemma_attention_of_empty(plants: Seq<Plant>, today: int)
    requires
        plants.len() == 0,
    ensures
        attention_set(plants, today).len() == 0,
{
    reveal(Seq::filter);
}

/// Every member of the attention set has a past-due cycle, and every plant of
/// the collection with a past-due cycle is a member: the set is exactly the
/// past-due subset, so a plant due no earlier than today is never included.
pub proof fn lemma_attention_members(plants: Seq<Plant>, today: int)
    ensures
        forall|p: Plant|
            attention_set(plants, today).contains(p) ==> #[trigger] plant_needs_attention(p, today),
        forall|i: int|
            0 <= i < plants.len() && plant_needs_attention(#[trigger] plants[i], today)
                ==> attention_set(plants, today).contains(plants[i]),
    decreases plants.len(),
{
    if plants.len() > 0 {
        lemma_attention_set_step(plants, today);
        lemma_attention_members(plants.drop_last(), today);
        let sub = attention_set(plants.drop_last(), today);
        let whole = attention_set(plants, today);
        assert forall|p: Plant| whole.contains(p) implies #[trigger] plant_needs_attention(
            p,
            today,
        ) by {
            if plant_needs_attention(plants.last(), today) {
                assert(whole == sub.push(plants.last()));
                let j = choose|j: int| 0 <= j < whole.len() && whole[j] == p;
                if j < sub.len() {
                    assert(sub.contains(p));
                }
            }
        }
        assert forall|i: int|
            0 <= i < plants.len() && plant_needs_attention(
                #[trigger] plants[i],
                today,
            ) implies whole.contains(plants[i]) by {
            if i < plants.len() - 1 {
                assert(plants.drop_last()[i] == plants[i]);
                assert(sub.contains(plants[i]));
                let j = choose|j: int| 0 <= j < sub.len() && sub[j] == plants[i];
                if plant_needs_attention(plants.last(), today) {
                    assert(whole[j] == plants[i]);
                } else {
                    assert(whole[j] == plants[i]);
                }
            } else {
                assert(whole.last() == plants.last());
            }
        }
    }
}

/// The attention set never outgrows the collection, and is properly smaller
/// as soon as one plant has no past-due cycle: together with
/// `lemma_attention_members`, an input with one past-due plant and one plant
/// that is not yields a proper, non-empty subset.
pub proof fn lemma_attention_proper(plants: Seq<Plant>, today: int, i: int)
    requires
        0 <= i < plants.len(),
        !plant_needs_attention(plants[i], today),
    ensures
        attention_set(plants, today).len() < plants.len(),
    decreases plants.len(),
{
    broadcast use vstd::seq_lib::group_filter_ensures;

    lemma_attention_set_step(plants, today);
    if i == plants.len() - 1 {
        assert(attention_set(plants.drop_last(), today).len() <= plants.drop_last().len());
    } else {
        lemma_attention_proper(plants.drop_last(), today, i);
    }
}

} // verus!
