use plant_track::attention::{needs_attention, reminder_batch};
use plant_track::plant::Plant;

fn plant(id: i32, last_fed: i32, feed_interval: i32, today: i32) -> Plant {
    // Pot and prune cycles are set far in the future relative to `today`, so
    // only the feed cycle decides.
    Plant {
        plant_id: id,
        user_id: 1,
        botanical_name: format!("species {}", id),
        common_name: format!("plant {}", id),
        last_fed,
        feed_interval,
        last_potted: today,
        potting_interval: 1000,
        last_pruned: today,
        pruning_interval: 1000,
    }
}

#[test]
fn empty_input_yields_empty_output() {
    let out = needs_attention(Vec::new(), 1000);
    assert!(out.is_empty());
}

#[test]
fn plant_fed_twenty_days_ago_with_ten_day_interval_is_flagged() {
    let today = 1000;
    let overdue = plant(1, today - 20, 10, today);
    let out = needs_attention(vec![overdue], today);
    assert_eq!(out.len(), 1);
    assert_eq!(out[0].plant_id, 1);
}

#[test]
fn plant_due_exactly_today_is_not_flagged() {
    let today = 1000;
    let on_time = plant(1, today - 10, 10, today);
    let out = needs_attention(vec![on_time], today);
    assert!(out.is_empty());
}

#[test]
fn flags_a_proper_subset_in_original_order() {
    let today = 500;
    let a = plant(1, 400, 10, today); // past due
    let b = plant(2, 499, 10, today); // not due
    let c = plant(3, 300, 100, today); // past due
    let out = needs_attention(vec![a, b, c], today);
    let got: Vec<i32> = out.iter().map(|p| p.plant_id).collect();
    assert_eq!(got, vec![1, 3]);
}

#[test]
fn any_single_overdue_cycle_flags_the_plant() {
    let today = 2000;
    let mut p = plant(9, today, 1000, today);
    p.last_pruned = today - 50;
    p.pruning_interval = 7;
    let out = needs_attention(vec![p], today);
    assert_eq!(out.len(), 1);
}

#[test]
fn reminder_skipped_when_nothing_is_due() {
    let today = 1000;
    let fine = plant(1, today, 30, today);
    assert!(reminder_batch(vec![fine], today).is_none());
    assert!(reminder_batch(Vec::new(), today).is_none());
}

#[test]
fn reminder_carries_the_overdue_plants() {
    let today = 1000;
    let overdue = plant(4, today - 20, 10, today);
    let fine = plant(5, today, 30, today);
    let batch = reminder_batch(vec![overdue, fine], today).expect("a reminder is owed");
    assert_eq!(batch.len(), 1);
    assert_eq!(batch[0].plant_id, 4);
}
