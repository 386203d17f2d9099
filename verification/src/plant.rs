//! The data model: plants with their three care cycles, users, and the small
//! request payloads that accompany them.
//!
//! Calendar dates are carried as Julian day numbers (whole days), and
//! timestamps as whole seconds, so that schedule arithmetic is plain integer
//! arithmetic.

use vstd::prelude::*;

verus! {

/// A plant and its three independent care cycles. Each cycle has the day the
/// action was last taken and its interval in whole days; an interval must be
/// positive, and the UI may use a large sentinel value to mean "not
/// applicable".
#[derive(Clone, Debug)]
pub struct Plant {
    pub plant_id: i32,
    pub user_id: i32,
    pub botanical_name: String,
    pub common_name: String,
    /// Day the plant was last fertilized.
    pub last_fed: i32,
    /// Fertilizing interval in days.
    pub feed_interval: i32,
    /// Day the plant was last repotted.
    pub last_potted: i32,
    /// Potting interval in days.
    pub potting_interval: i32,
    /// Day the plant was last pruned.
    pub last_pruned: i32,
    /// Pruning interval in days.
    pub pruning_interval: i32,
}

/// One of the three care cycles of a plant.
#[derive(Clone, Copy, Debug, PartialEq, Eq, Structural)]
pub enum CareDimension {
    Feed,
    Pot,
    Prune,
}

/// The day a plant's cycle was last acted on.
pub open spec fn last_acted(p: Plant, dim: CareDimension) -> int {
    match dim {
        CareDimension::Feed => p.last_fed as int,
        CareDimension::Pot => p.last_potted as int,
        CareDimension::Prune => p.last_pruned as int,
    }
}

/// The interval of a plant's cycle, in days.
pub open spec fn cycle_interval(p: Plant, dim: CareDimension) -> int {
    match dim {
        CareDimension::Feed => p.feed_interval as int,
        CareDimension::Pot => p.potting_interval as int,
        CareDimension::Prune => p.pruning_interval as int,
    }
}

/// Whether one care cycle is already past due on `today`: the last action
/// plus the interval falls strictly before today. A cycle due exactly today
/// is not yet past due.
pub open spec fn cycle_past_due(last: int, interval: int, today: int) -> bool {
    last + interval < today
}

/// Whether any of the plant's three cycles is past due on `today`.
pub open spec fn plant_needs_attention(p: Plant, today: int) -> bool {
    ||| cycle_past_due(p.last_fed as int, p.feed_interval as int, today)
    ||| cycle_past_due(p.last_potted as int, p.potting_interval as int, today)
    ||| cycle_past_due(p.last_pruned as int, p.pruning_interval as int, today)
}

/// A registered account.
#[derive(Clone, Debug)]
pub struct User {
    pub user_id: i32,
    pub first_name: String,
    pub last_name: String,
    pub email: String,
    pub password_hash: String,
    pub phone: Option<String>,
}

/// A request payload naming a single plant.
#[derive(Clone, Debug)]
pub struct PlantID {
    pub plant_id: i32,
}

/// A free-text search request.
#[derive(Clone, Debug)]
pub struct Search {
    pub search_string: String,
}

/// A photo attached to a plant.
#[derive(Clone, Debug)]
pub struct PlantPhoto {
    pub plant_id: i32,
    pub user_id: i32,
    pub photo_uri: String,
}

/// A dated comment attached to a plant; `time_made` is a timestamp in whole
/// seconds.
#[derive(Clone, Debug)]
pub struct Comments {
    pub plant_id: i32,
    pub user_id: i32,
    pub time_made: i64,
    pub comment: String,
}

/// A login request: an email address and the password to check.
#[derive(Clone, Debug)]
pub struct UserLogin {
    pub email: String,
    pub password: String,
}

} // verus!
