//! Schedules: who runs, and when.
use watermelon::map::TextMap;
use watermelon::scheduler::{
    cron_field_matches, cron_matches, cron_part_matches, effective_scenario_ids, filter_available,
    is_in_time_window, next_interval_run, parse_hm, pick_profiles, pick_profiles_with,
    shuffle_in_place, shuffle_with, ProfileAssignment, RotationMode, Schedule, TriggerType,
};

fn owned(v: &[&str]) -> Vec<String> {
    v.iter().map(|s| s.to_string()).collect()
}

#[test]
fn cron_every_6_hours() {
    let e = "0 */6 * * *";
    assert!(cron_matches(e, 0, 0, 15, 6, 3));
    assert!(cron_matches(e, 0, 12, 1, 1, 0));
    assert!(!cron_matches(e, 0, 5, 1, 1, 0));
    assert!(!cron_matches(e, 30, 6, 1, 1, 0));
}

#[test]
fn cron_weekday_morning() {
    let e = "30 9 * * 1-5";
    assert!(cron_matches(e, 30, 9, 10, 3, 1));
    assert!(cron_matches(e, 30, 9, 10, 3, 5));
    assert!(!cron_matches(e, 30, 9, 10, 3, 0));
    assert!(!cron_matches(e, 31, 9, 10, 3, 1));
}

#[test]
fn cron_lists_and_dom_dow_or() {
    assert!(cron_matches("0,30 * * * *", 30, 14, 1, 1, 2));
    assert!(cron_matches("0 0 1,15 * *", 0, 0, 15, 8, 4));
    // Where both the day and the weekday are given, either is enough.
    assert!(cron_matches("0 0 13 * 1", 0, 0, 13, 9, 3));
    assert!(cron_matches("0 0 13 * 1", 0, 0, 9, 9, 1));
    assert!(!cron_matches("0 0 13 * 1", 0, 0, 9, 9, 3));
}

#[test]
fn cron_invalid_expr() {
    assert!(!cron_matches("* * *", 0, 0, 1, 1, 0));
    assert!(!cron_matches("bad 0 * * *", 0, 0, 1, 1, 0));
}

#[test]
fn cron_parts_and_fields() {
    assert!(cron_part_matches("*", 7, 0, 59));
    assert!(cron_part_matches("*/5", 10, 0, 59));
    assert!(!cron_part_matches("*/5", 11, 0, 59));
    assert!(cron_part_matches("5", 5, 0, 59));
    assert!(!cron_part_matches("5", 6, 0, 59));
    assert!(cron_part_matches("5/10", 25, 0, 59));
    assert!(!cron_part_matches("5/10", 30, 0, 59));
    assert!(cron_part_matches("5/1", 6, 0, 59));
    assert!(!cron_part_matches("5/1", 4, 0, 59));
    assert!(!cron_part_matches("5/0", 5, 0, 59));
    assert!(cron_part_matches("10-20/5", 15, 0, 59));
    assert!(cron_part_matches("10-20", 20, 0, 59));
    assert!(!cron_part_matches("10-20", 21, 0, 59));
    assert!(!cron_part_matches("", 0, 0, 59));
    assert!(cron_field_matches("1,5-7", 6, 0, 59));
    assert!(!cron_field_matches("1,5-7", 4, 0, 59));
}

fn assignment(mode: RotationMode, last: Option<&str>) -> ProfileAssignment {
    ProfileAssignment {
        schedule_id: "s".to_string(),
        profile_ids: vec![],
        group_ids: vec![],
        rotation_mode: mode,
        max_parallel: 2,
        cooldown_minutes: 0,
        last_used_profile_id: last.map(|s| s.to_string()),
        run_headless: false,
    }
}

#[test]
fn round_robin_advances_and_wraps() {
    let avail = owned(&["a", "b", "c"]);
    let counts: TextMap<u32> = TextMap::new();
    assert_eq!(
        pick_profiles(&avail, &assignment(RotationMode::RoundRobin, Some("a")), &counts),
        vec!["b".to_string()]
    );
    assert_eq!(
        pick_profiles(&avail, &assignment(RotationMode::RoundRobin, Some("c")), &counts),
        vec!["a".to_string()]
    );
    assert_eq!(
        pick_profiles(&avail, &assignment(RotationMode::RoundRobin, None), &counts),
        vec!["a".to_string()]
    );
}

#[test]
fn least_used_picks_min() {
    let avail = owned(&["a", "b", "c"]);
    let mut counts: TextMap<u32> = TextMap::new();
    counts.insert("a".to_string(), 5);
    counts.insert("b".to_string(), 1);
    counts.insert("c".to_string(), 9);
    assert_eq!(
        pick_profiles(&avail, &assignment(RotationMode::LeastUsed, None), &counts),
        vec!["b".to_string()]
    );
}

#[test]
fn all_parallel_caps_at_max() {
    let avail = owned(&["a", "b", "c"]);
    let got = pick_profiles(
        &avail,
        &assignment(RotationMode::AllParallel, None),
        &TextMap::new(),
    );
    assert_eq!(got, vec!["a".to_string(), "b".to_string()]);
}

#[test]
fn filter_removes_busy_and_cooldown() {
    let cand = owned(&["a", "b", "c"]);
    let busy = owned(&["a"]);
    let cd = owned(&["c"]);
    assert_eq!(filter_available(&cand, &busy, &cd), vec!["b".to_string()]);
}

#[test]
fn effective_ids_prefers_list_else_legacy() {
    let mk = |id: &str, ids: Vec<&str>| Schedule {
        id: "s".to_string(),
        scenario_id: id.to_string(),
        scenario_ids: ids.into_iter().map(String::from).collect(),
        name: "n".to_string(),
        enabled: true,
        trigger_type: TriggerType::Interval,
        cron_expr: None,
        interval_minutes: Some(1),
        timezone: None,
        time_window_start: None,
        time_window_end: None,
        max_runs_per_day: None,
    };
    assert_eq!(effective_scenario_ids(&mk("a", vec![])), vec!["a"]);
    assert_eq!(
        effective_scenario_ids(&mk("a", vec!["x", "y"])),
        vec!["x", "y"]
    );
    assert!(effective_scenario_ids(&mk("", vec![])).is_empty());
}

#[test]
fn shuffle_preserves_multiset() {
    let mut v = vec![1, 2, 3, 4, 5];
    shuffle_in_place(&mut v);
    v.sort();
    assert_eq!(v, vec![1, 2, 3, 4, 5]);
    let mut one = vec![42];
    shuffle_in_place(&mut one);
    assert_eq!(one, vec![42]);
}

#[test]
fn shuffle_by_given_numbers() {
    let mut v = vec!['a', 'b', 'c'];
    // Place 2 changes with place 4 % 3, then place 1 with place 2 % 2.
    shuffle_with(&mut v, &vec![0, 2, 4]);
    assert_eq!(v, vec!['c', 'a', 'b']);
}

#[test]
fn time_window_same_day_and_overnight() {
    assert!(is_in_time_window(10 * 60, Some("09:00"), Some("17:00")));
    assert!(!is_in_time_window(8 * 60, Some("09:00"), Some("17:00")));
    assert!(is_in_time_window(23 * 60, Some("22:00"), Some("06:00")));
    assert!(is_in_time_window(2 * 60, Some("22:00"), Some("06:00")));
    assert!(!is_in_time_window(12 * 60, Some("22:00"), Some("06:00")));
    assert!(is_in_time_window(12 * 60, None, None));
}

#[test]
fn window_and_its_complement() {
    for now in [0u32, 359, 361, 720, 1319, 1321, 1439] {
        assert_ne!(
            is_in_time_window(now, Some("06:00"), Some("22:00")),
            is_in_time_window(now, Some("22:00"), Some("06:00"))
        );
    }
    // The ends belong to both.
    for now in [360u32, 1320] {
        assert!(is_in_time_window(now, Some("06:00"), Some("22:00")));
        assert!(is_in_time_window(now, Some("22:00"), Some("06:00")));
    }
}

#[test]
fn hours_and_minutes() {
    assert_eq!(parse_hm("09:05"), Some(545));
    assert_eq!(parse_hm("9"), None);
    assert_eq!(parse_hm("x:05"), None);
}

#[test]
fn interval_in_seconds() {
    assert_eq!(next_interval_run(1000, 5), 1300);
    assert_eq!(next_interval_run(1000, 0), 1060);
}

#[test]
fn random_mode_takes_the_drawn_place() {
    let avail = owned(&["a", "b", "c"]);
    let counts: TextMap<u32> = TextMap::new();
    let a = assignment(RotationMode::Random, None);
    assert_eq!(pick_profiles_with(&avail, &a, &counts, 7), owned(&["b"]));
    assert_eq!(pick_profiles_with(&avail, &a, &counts, 5), owned(&["c"]));
    assert!(avail.contains(&pick_profiles(&avail, &a, &counts)[0]));
    assert!(pick_profiles_with(&vec![], &a, &counts, 5).is_empty());
}
