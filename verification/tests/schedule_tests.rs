use plant_track::digits::{parse_i32, u32_to_string};
use plant_track::plant::Plant;
use plant_track::schedule::{days_until_due, get_days_till_next_feed};

fn sample_plant() -> Plant {
    Plant {
        plant_id: 1,
        user_id: 1,
        botanical_name: String::from("Monstera deliciosa"),
        common_name: String::from("Swiss cheese plant"),
        last_fed: 2_460_000,
        feed_interval: 14,
        last_potted: 2_459_900,
        potting_interval: 365,
        last_pruned: 2_459_950,
        pruning_interval: 0,
    }
}

#[test]
fn renders_positive_interval_as_day_count() {
    assert_eq!(days_until_due(5, 19_700), "5");
    assert_eq!(days_until_due(123, 0), "123");
    assert_eq!(days_until_due(1, -50), "1");
    assert_eq!(days_until_due(100000, 19_700), "100000");
}

#[test]
fn renders_non_positive_interval_as_overdue() {
    assert_eq!(days_until_due(0, 19_700), "Overdue");
    assert_eq!(days_until_due(-3, 19_700), "Overdue");
    assert_eq!(days_until_due(i32::MIN, 0), "Overdue");
}

#[test]
fn interval_display_ignores_reference_moment() {
    assert_eq!(days_until_due(7, 0), days_until_due(7, 123_456));
}

#[test]
fn renders_all_three_cycles() {
    let plant = sample_plant();
    let (feed, pot, prune) = get_days_till_next_feed(&plant, 19_700);
    assert_eq!(feed, "14");
    assert_eq!(pot, "365");
    assert_eq!(prune, "Overdue");
}

#[test]
fn decimal_rendering_exact_values() {
    assert_eq!(u32_to_string(0), "0");
    assert_eq!(u32_to_string(7), "7");
    assert_eq!(u32_to_string(10), "10");
    assert_eq!(u32_to_string(105), "105");
    assert_eq!(u32_to_string(4_294_967_295), "4294967295");
}

#[test]
fn parses_decimal_user_ids() {
    assert_eq!(parse_i32("0"), Some(0));
    assert_eq!(parse_i32("42"), Some(42));
    assert_eq!(parse_i32("2147483647"), Some(i32::MAX));
}

#[test]
fn rejects_bad_decimal_input() {
    assert_eq!(parse_i32(""), None);
    assert_eq!(parse_i32("12a"), None);
    assert_eq!(parse_i32("-5"), None);
    assert_eq!(parse_i32("2147483648"), None);
    assert_eq!(parse_i32("99999999999999999999"), None);
}

#[test]
fn parse_inverts_rendering() {
    for n in [0u32, 1, 9, 10, 99, 100, 65_535, 2_147_483_647] {
        assert_eq!(parse_i32(&u32_to_string(n)), Some(n as i32));
    }
}
