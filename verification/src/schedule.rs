//! The care-schedule calculator: how many whole days remain until a cycle is
//! next due, rendered for display.
//!
//! The next due moment is taken as `reference_now + interval`, measured from
//! the reference moment itself rather than from the cycle's last-action date;
//! the day count shown therefore collapses to the interval itself. This
//! mirrors the tracker's long-standing display behaviour and is kept
//! deliberately, even though the attention filter measures from the
//! last-action date instead.

use vstd::prelude::*;
use vstd::string::StringExecFns;
use crate::digits::{dec_str, u32_to_string};
use crate::plant::Plant;

verus! {

/// What the calculator shows for a remaining day count: the count itself
/// when at least one day remains, and "Overdue" otherwise.
pub open spec fn due_display(remaining_days: int) -> Seq<char> {
    if remaining_days > 0 {
        dec_str(remaining_days as nat)
    } else {
        "Overdue"@
    }
}

/// Renders the number of whole days until a care action is next due, where
/// the next due moment is `reference_now + interval_days`: a positive
/// interval renders as that many days, and zero or a negative interval as
/// "Overdue".
pub fn days_until_due(interval_days: i32, reference_now: i64) -> (r: String)
    requires
        i64::MIN <= reference_now + interval_days <= i64::MAX,
    ensures
        r@ == due_display(interval_days as int),
{
    let next_due: i64 = reference_now + (interval_days as i64);
    let remaining: i64 = next_due - reference_now;
    if remaining > 0 {
        u32_to_string(remaining as u32)
    } else {
        let s = String::from_str("Overdue");
        s
    }
}

/// Renders the remaining days of all three care cycles of a plant, in the
/// order feed, pot, prune.
pub fn get_days_till_next_feed(plant: &Plant, reference_now: i64) -> (r: (String, String, String))
    requires
        i64::MIN <= reference_now + plant.feed_interval <= i64::MAX,
        i64::MIN <= reference_now + plant.potting_interval <= i64::MAX,
        i64::MIN <= reference_now + plant.pruning_interval <= i64::MAX,
    ensures
        r.0@ == due_display(plant.feed_interval as int),
        r.1@ == due_display(plant.potting_interval as int),
        r.2@ == due_display(plant.pruning_interval as int),
{
    (
        days_until_due(plant.feed_interval, reference_now),
        days_until_due(plant.potting_interval, reference_now),
        days_until_due(plant.pruning_interval, reference_now),
    )
}

} // verus!
