//! The runs under way, the documents, and the schedules as they come due.
use watermelon::ai::{AiProviderConfig, Provider};
use watermelon::context::RunContext;
use watermelon::dataset::Dataset;
use watermelon::launching::{LaunchAction, LaunchEvent, ProfileRun};
use watermelon::manager::{
    collect_dataset_ids, document_file, status_of_run, Finished, ScenarioManager,
};
use watermelon::map::TextMap;
use watermelon::model::{
    AiMode, Block, DataBinding, DataMode, OnError, RunCaps, Scenario, StepLog,
};
use watermelon::profiles::{expand_profiles, profile_is_running, ProfileEntry};
use watermelon::scheduler::{ProfileAssignment, RotationMode, Schedule, TriggerType};
use watermelon::tick::{
    cron_due_at, cron_due_now, cron_matches_at, plan_profile_start, Calendar, Clock, ProfileStart,
};
use watermelon::usage::{count_runs, RunStart};
use watermelon::value::Json;

fn manager() -> ScenarioManager {
    ScenarioManager::new(&vec!["data".to_string()])
}

fn plain(id: &str) -> Scenario {
    Scenario {
        id: id.to_string(),
        name: id.to_string(),
        description: None,
        ai_mode: AiMode::NoAi,
        on_error: OnError::Stop,
        caps: RunCaps::default(),
        data_source: None,
        blocks: vec![],
    }
}

fn profile(id: &str, browser: &str, group: Option<&str>, running: bool) -> ProfileEntry {
    ProfileEntry {
        id: id.to_string(),
        name: format!("name of {id}"),
        browser: browser.to_string(),
        group_id: group.map(|g| g.to_string()),
        running,
    }
}

fn every(minutes: u64) -> Schedule {
    Schedule {
        id: "sch".to_string(),
        scenario_id: "abc".to_string(),
        scenario_ids: vec![],
        name: "n".to_string(),
        enabled: true,
        trigger_type: TriggerType::Interval,
        cron_expr: None,
        interval_minutes: Some(minutes),
        timezone: None,
        time_window_start: None,
        time_window_end: None,
        max_runs_per_day: None,
    }
}

fn on(profiles: &[&str], cooldown: u64) -> ProfileAssignment {
    ProfileAssignment {
        schedule_id: "sch".to_string(),
        profile_ids: profiles.iter().map(|s| s.to_string()).collect(),
        group_ids: vec![],
        rotation_mode: RotationMode::RoundRobin,
        max_parallel: 1,
        cooldown_minutes: cooldown,
        last_used_profile_id: None,
        run_headless: true,
    }
}

fn clock(epoch: u64) -> Clock {
    Clock { minute_of_day: 600, today: "2026-06-09".to_string(), epoch }
}

#[test]
fn runs_are_entered_cancelled_and_finished() {
    let mut m = manager();
    let id = m.begin_run("abc", "p1", "manual", "2026-06-09T00:00:00Z");
    assert_eq!(id.len(), 36);
    assert_eq!(m.active_runs().len(), 1);
    assert_eq!(m.active_runs()[0].run_id, id);
    assert_eq!(m.busy_profiles(), vec!["p1"]);
    assert!(!m.is_cancelled(&id));
    assert!(m.cancel_run(&id));
    assert!(m.is_cancelled(&id));
    assert!(!m.cancel_run("nobody"));

    let mut ctx = RunContext::new("p1", RunCaps::default());
    ctx.warn("Run stopped on error".to_string());
    let f = Finished {
        run_id: id.clone(),
        scenario_id: "abc".to_string(),
        profile_id: "p1".to_string(),
        triggered_by: "manual".to_string(),
        started_at: "2026-06-09T00:00:00Z".to_string(),
        finished_at: "2026-06-09T00:00:02Z".to_string(),
        elapsed_ms: 2000,
    };
    let summary = m.finish_run(&f, &ctx);
    assert_eq!(summary.str_or("status", ""), "stopped");
    assert_eq!(summary.str_or("run_id", ""), id);
    assert!(m.active_runs().is_empty());
    assert!(m.busy_profiles().is_empty());
    assert_eq!(m.store().get_run(&id).unwrap().duration_ms, 2000);
}

#[test]
fn what_became_of_a_run() {
    let failed = StepLog {
        block_id: "b".to_string(),
        block_type: "log".to_string(),
        status: "failed".to_string(),
        duration_ms: 1,
        error: None,
    };
    assert_eq!(status_of_run(&vec![], &vec![]), "success");
    assert_eq!(status_of_run(&vec![failed], &vec![]), "failed");
    assert_eq!(
        status_of_run(&vec![], &vec!["Run hit cap: max_steps".to_string()]),
        "stopped"
    );
}

#[test]
fn interrupted_runs_are_recovered() {
    let mut m = manager();
    m.begin_run_as("r1", "abc", "p1", "manual", "2026-06-09T00:00:00Z");
    assert_eq!(m.recover_interrupted_runs(), 1);
    assert_eq!(m.recover_interrupted_runs(), 0);
}

#[test]
fn key_of_the_model_is_kept_apart_and_read_back() {
    let mut m = manager();
    assert!(m.get_ai_config().is_none());
    let mut cfg = AiProviderConfig::anthropic_haiku("haiku-4-5", "k");
    m.set_ai_config(&cfg);
    assert_eq!(m.get_ai_config().unwrap().api_key, "k");
    assert_eq!(m.get_ai_config().unwrap().provider, Provider::Anthropic);
    cfg.api_key = String::new();
    cfg.model = "other".to_string();
    m.set_ai_config(&cfg);
    assert_eq!(m.get_ai_config().unwrap().model, "other");
    m.clear_ai_config();
    assert!(m.get_ai_config().is_none());
}

#[test]
fn places_of_the_documents() {
    let m = manager();
    assert_eq!(m.scenarios_dir(), vec!["data", "scenarios"]);
    assert_eq!(document_file("abc"), "abc.json");
    assert_ne!(m.datasets_dir(), m.schedules_dir());
    assert_ne!(m.assignments_dir(), m.schedules_dir());
    assert_ne!(m.cursors_path(), m.ai_config_path());
}

fn table() -> Dataset {
    let row = |t: &str| {
        let mut r: TextMap<Json> = TextMap::new();
        r.insert("reply".to_string(), Json::text(t));
        r
    };
    Dataset {
        id: "d".to_string(),
        name: "replies".to_string(),
        columns: vec!["reply".to_string()],
        rows: vec![row("a"), row("b"), row("c")],
        created_at: String::new(),
        updated_at: String::new(),
    }
}

fn bound(mode: DataMode) -> DataBinding {
    DataBinding { dataset_id: "d".to_string(), mode, prefix: None }
}

#[test]
fn rows_are_taken_in_turn() {
    let mut m = manager();
    m.save_dataset(&table());
    let b = bound(DataMode::Sequential);
    let mut seen: Vec<String> = Vec::new();
    for _ in 0..4 {
        let row = m.pick_dataset_row("abc", &b).unwrap();
        seen.push(row.get("reply").unwrap().as_str().unwrap().clone());
    }
    assert_eq!(seen, vec!["a", "b", "c", "a"]);
    assert_eq!(m.next_seq_index("other", "d", 3), 0);
    assert_eq!(m.next_seq_index("other", "d", 0), 0);
    m.delete_dataset("d");
    assert_eq!(
        m.pick_dataset_row("abc", &b),
        Err("[data] dataset not found: d".to_string())
    );
}

#[test]
fn row_by_chance_is_one_of_the_rows() {
    let mut m = manager();
    m.save_dataset(&table());
    let b = bound(DataMode::Random);
    let row = m.pick_dataset_row_with("abc", &b, 4).unwrap();
    assert_eq!(row.get("reply"), Some(&Json::text("b")));
    assert!(m.pick_dataset_row("abc", &b).unwrap().contains_key("reply"));
    let mut empty = table();
    empty.rows = vec![];
    m.save_dataset(&empty);
    assert_eq!(
        m.pick_dataset_row_with("abc", &b, 4),
        Err("[data] dataset 'replies' is empty".to_string())
    );
}

#[test]
fn run_is_prepared_with_its_data() {
    let mut m = manager();
    m.save_dataset(&table());
    let mut s = plain("abc");
    s.data_source = Some(bound(DataMode::Sequential));
    let mut inner = Block::new("loop", Json::empty());
    inner.children = vec![Block::new(
        "pick_row",
        Json::empty().with("dataset_id", Json::text("d")),
    )];
    s.blocks = vec![inner];
    assert_eq!(collect_dataset_ids(&s.blocks), vec!["d"]);
    let ctx = m.prepare_run(&s, RunContext::new("p", s.caps), 0);
    assert_eq!(ctx.variables.get("reply"), Some(&Json::text("a")));
    assert!(ctx.datasets.contains_key("d"));
    assert_eq!(m.list_datasets().len(), 1);
    assert_eq!(m.get_dataset("d").unwrap().rows.len(), 3);
}

#[test]
fn schedules_are_kept() {
    let mut m = manager();
    m.save_schedule(&every(5));
    m.save_assignment(&on(&["p1"], 0));
    assert_eq!(m.list_schedules().len(), 1);
    assert_eq!(m.get_schedule("sch").unwrap().interval_minutes, Some(5));
    assert_eq!(m.get_assignment("sch").unwrap().profile_ids, vec!["p1"]);
    m.delete_schedule("sch");
    assert!(m.get_schedule("sch").is_none());
}

#[test]
fn schedule_comes_due_once_per_interval() {
    let mut m = manager();
    m.store.save_scenario(&plain("abc"));
    m.save_schedule(&every(5));
    m.save_assignment(&on(&["p1", "p2"], 0));
    let profiles = vec![
        profile("p1", "cloak", None, true),
        profile("p2", "cloak", None, true),
    ];
    let first = m.scheduler_tick(&clock(100_000), &profiles);
    assert_eq!(first.len(), 1);
    assert_eq!(first[0].profiles, vec!["p1"]);
    assert_eq!(first[0].scenarios.len(), 1);
    assert!(first[0].headless);
    assert!(m.scheduler_tick(&clock(100_010), &profiles).is_empty());
    let later = m.scheduler_tick(&clock(100_300), &profiles);
    assert_eq!(later[0].profiles, vec!["p2"]);
}

#[test]
fn least_used_profile_of_the_last_day_runs() {
    // The clock shows 2026-06-09 00:30 UTC.
    let now: u64 = 1_780_965_000;
    let begun = |m: &mut ScenarioManager, id: &str, profile: &str, at: &str| {
        m.store.begin_run(id, "abc", profile, "manual", at);
    };
    let ready = || {
        let mut m = manager();
        m.store.save_scenario(&plain("abc"));
        m.save_schedule(&every(5));
        let mut a = on(&["a", "b"], 0);
        a.rotation_mode = RotationMode::LeastUsed;
        m.save_assignment(&a);
        for i in 0..5 {
            begun(&mut m, &format!("a{i}"), "a", "2026-06-08T12:00:00+00:00");
        }
        begun(&mut m, "b0", "b", "2026-06-08T13:00:00.5+00:00");
        m
    };
    let profiles = vec![
        profile("a", "cloak", None, true),
        profile("b", "cloak", None, true),
    ];
    let mut m = ready();
    assert_eq!(m.scheduler_tick(&clock(now), &profiles)[0].profiles, vec!["b"]);
    let mut m = ready();
    let l = m.run_schedule_now("sch", &clock(now), &profiles).unwrap();
    assert_eq!(l.profiles, vec!["b"]);
    // A day later none of these runs counts any more.
    let mut m = ready();
    let l = m.scheduler_tick(&clock(now + 86_400), &profiles);
    assert_eq!(l[0].profiles, vec!["a"]);
    // Given counts decide in their place.
    let mut m = ready();
    let mut counts: TextMap<u32> = TextMap::new();
    counts.insert("b".to_string(), 1);
    let l = m.scheduler_tick_with(&clock(now), &profiles, &counts, &vec![0]);
    assert_eq!(l[0].profiles, vec!["a"]);
}

#[test]
fn runs_of_the_last_day_are_counted() {
    let start = |p: &str, secs: Option<i64>| RunStart { profile_id: p.to_string(), secs };
    let v = vec![
        start("a", Some(100_000)),
        start("a", Some(13_600)),
        start("a", Some(13_599)),
        start("a", Some(100_001)),
        start("b", None),
    ];
    let counts = count_runs(&v, 100_000);
    assert_eq!(counts.get("a"), Some(&2));
    assert_eq!(counts.get("b"), None);
    let mut m = manager();
    m.store.begin_run("r", "abc", "a", "manual", "1970-01-01T01:00:00+01:00");
    m.store.begin_run("s", "abc", "b", "manual", "yesterday");
    assert_eq!(m.store().started_runs(), vec![start("a", Some(0)), start("b", None)]);
    assert_eq!(m.store().recent_usage(60).get("a"), Some(&1));
}

#[test]
fn opened_run_knows_its_names() {
    let mut m = manager();
    m.save_dataset(&table());
    let mut s = plain("abc");
    s.data_source = Some(bound(DataMode::Sequential));
    let ctx = m.open_run(&s, "r-1", "p", "Work");
    let sys = |k: &str| ctx.system.get(k).cloned();
    assert_eq!(sys("run_id"), Some("r-1".to_string()));
    assert_eq!(sys("profile_name"), Some("Work".to_string()));
    assert_eq!(sys("scenario_name"), Some("abc".to_string()));
    assert_eq!(sys("profile_id"), Some("p".to_string()));
    assert_eq!(ctx.variables.get("reply"), Some(&Json::text("a")));
}

#[test]
fn schedule_keeps_to_its_quota_and_its_window() {
    let mut m = manager();
    m.store.save_scenario(&plain("abc"));
    let mut s = every(1);
    s.max_runs_per_day = Some(1);
    m.save_schedule(&s);
    m.save_assignment(&on(&["p1"], 0));
    let profiles = vec![profile("p1", "cloak", None, true)];
    assert_eq!(m.scheduler_tick(&clock(100_000), &profiles).len(), 1);
    assert!(m.scheduler_tick(&clock(200_000), &profiles).is_empty());

    let mut m = manager();
    m.store.save_scenario(&plain("abc"));
    let mut s = every(1);
    s.time_window_start = Some("11:00".to_string());
    s.time_window_end = Some("12:00".to_string());
    m.save_schedule(&s);
    m.save_assignment(&on(&["p1"], 0));
    assert!(m.scheduler_tick(&clock(100_000), &profiles).is_empty());
}

#[test]
fn busy_and_cooling_profiles_are_passed_over() {
    let mut m = manager();
    m.store.save_scenario(&plain("abc"));
    m.save_schedule(&every(1));
    m.save_assignment(&on(&["p1", "p2"], 60));
    let profiles = vec![
        profile("p1", "cloak", None, true),
        profile("p2", "cloak", None, true),
    ];
    m.begin_run_as("r", "abc", "p1", "manual", "now");
    let l = m.scheduler_tick(&clock(100_000), &profiles);
    assert_eq!(l[0].profiles, vec!["p2"]);
    // The one is still busy, the other cools down.
    assert!(m.scheduler_tick(&clock(100_100), &profiles).is_empty());
}

#[test]
fn schedule_is_started_by_hand() {
    let mut m = manager();
    let profiles = vec![profile("p1", "cloak", None, false)];
    assert!(m.run_schedule_now("sch", &clock(1), &profiles).is_err());
    m.save_schedule(&every(1));
    assert!(m.run_schedule_now("sch", &clock(1), &profiles).is_err());
    m.save_assignment(&on(&["p1"], 0));
    assert_eq!(
        m.run_schedule_now("sch", &clock(1), &profiles),
        Err("Schedule has no valid scenarios".to_string())
    );
    m.store.save_scenario(&plain("abc"));
    let l = m.run_schedule_now("sch", &clock(1), &profiles).unwrap();
    assert_eq!(l.profiles, vec!["p1"]);
    m.begin_run_as("r", "abc", "p1", "manual", "now");
    assert_eq!(
        m.run_schedule_now("sch", &clock(1), &profiles),
        Err("No available profile (all assigned profiles are busy)".to_string())
    );
}

#[test]
fn expressions_go_by_the_calendar_of_their_zone() {
    // 2026-06-09 00:30 UTC is 07:30 in Ho Chi Minh City, a Tuesday.
    let secs: u64 = 1_780_965_000;
    assert!(cron_due_at("30 0 9 6 *", None, secs));
    assert!(cron_due_at("30 7 9 6 *", Some("Asia/Ho_Chi_Minh"), secs));
    assert!(cron_due_at("30 7 * * 2", Some(" Asia/Ho_Chi_Minh "), secs));
    assert!(!cron_due_at("30 0 9 6 *", Some("Asia/Ho_Chi_Minh"), secs));
    // A zone that there is not counts as none.
    assert!(cron_due_at("30 0 9 6 *", Some("Nowhere/Land"), secs));
    assert!(cron_due_now("* * * * *", None));
    let c = Calendar { minute: 5, hour: 4, day: 3, month: 2, weekday: 1 };
    assert!(cron_matches_at("5 4 3 2 *", c));
    // The first day was a Thursday, and so was the leap day of 2024.
    assert!(cron_due_at("0 0 1 1 4", None, 0));
    assert!(cron_due_at("0 12 29 2 4", None, 1709208000));
    assert!(cron_due_at("0 12 29 2 4", Some("UTC"), 1709208000));
    // The calendar has an end.
    assert!(cron_due_at("59 23 31 12 *", None, 8_210_266_876_799));
    assert!(!cron_due_at("* * * * *", None, 8_210_266_876_800));
    assert!(!cron_due_at("* * * * *", None, u64::MAX));
}

#[test]
fn everything_is_kept_in_the_order_of_ids() {
    let mut m = manager();
    for id in ["b", "c", "a", "b"] {
        m.store.save_scenario(&plain(id));
        m.begin_run_as(id, "s", id, "manual", "now");
    }
    let ids = |m: &ScenarioManager| {
        m.store.list_scenarios().into_iter().map(|s| s.id).collect::<Vec<String>>()
    };
    let runs = |m: &ScenarioManager| {
        m.active_runs().into_iter().map(|r| r.run_id).collect::<Vec<String>>()
    };
    assert_eq!(ids(&m), vec!["a", "b", "c"]);
    assert_eq!(runs(&m), vec!["a", "b", "c"]);
    // A run that is told to stop is still there.
    let before = m.active_runs();
    assert!(m.cancel_run("b"));
    assert_eq!(m.active_runs(), before);
    assert_eq!(m.busy_profiles().len(), 3);
    m.store.delete_scenario("b");
    assert_eq!(ids(&m), vec!["a", "c"]);
    assert!(m.store.load_scenario("b").is_none());
}

#[test]
fn deleted_documents_are_gone() {
    let mut m = manager();
    m.save_dataset(&table());
    let _ = m.pick_dataset_row_with("s", &bound(DataMode::Sequential), 0);
    assert_eq!(m.ds_cursors.len(), 1);
    let id = table().id;
    m.delete_dataset(&id);
    assert!(m.get_dataset(&id).is_none());
    assert!(m.ds_cursors.is_empty());
    m.save_schedule(&every(5));
    m.save_assignment(&on(&["p1"], 0));
    m.delete_schedule("sch");
    assert!(m.get_schedule("sch").is_none());
    assert!(m.get_assignment("sch").is_none());
}

#[test]
fn groups_stand_for_their_members() {
    let v = vec![
        profile("a", "cloak", Some("g"), false),
        profile("b", "cloak", None, true),
        profile("c", "cloak", Some("g"), false),
    ];
    let ids = expand_profiles(&vec!["c".to_string()], &vec!["g".to_string()], &v);
    assert_eq!(ids, vec!["c", "a"]);
    assert!(profile_is_running(&v, "b"));
    assert!(!profile_is_running(&v, "a"));
}

#[test]
fn profiles_start_by_what_is_known_of_them() {
    let v = vec![
        profile("a", "cloak", None, true),
        profile("b", "camoufox", None, false),
        profile("c", "chrome", None, false),
    ];
    assert_eq!(plan_profile_start(&v, "a"), ProfileStart::Running);
    assert_eq!(plan_profile_start(&v, "b"), ProfileStart::Launch);
    assert_eq!(
        plan_profile_start(&v, "c"),
        ProfileStart::Unsupported { browser: "chrome".to_string() }
    );
    assert_eq!(plan_profile_start(&v, "d"), ProfileStart::NotFound);
}

#[test]
fn browser_that_was_launched_is_closed_after_all_scenarios() {
    let scenarios = vec![plain("x"), plain("y")];
    let run = ProfileRun::new(&scenarios);
    let (run, a) = run.launch_run_close_profiles(LaunchEvent::Begun { start: ProfileStart::Launch });
    assert!(matches!(a, LaunchAction::Launch));
    let (run, a) = run.launch_run_close_profiles(LaunchEvent::Launched { ok: true });
    assert!(matches!(a, LaunchAction::Settle { secs: 3 }));
    let mut ids: Vec<String> = Vec::new();
    let (mut run, mut a) = run.launch_run_close_profiles(LaunchEvent::Settled);
    while let LaunchAction::Run { scenario } = a {
        ids.push(scenario.id);
        let (r, next) = run.launch_run_close_profiles(LaunchEvent::Ran);
        run = r;
        a = next;
    }
    ids.sort();
    assert_eq!(ids, vec!["x", "y"]);
    assert!(matches!(a, LaunchAction::Close));
    let (_, a) = run.launch_run_close_profiles(LaunchEvent::Closed);
    assert!(matches!(a, LaunchAction::Over));
}

#[test]
fn browser_that_ran_already_stays_open() {
    let scenarios = vec![plain("x")];
    let run = ProfileRun::new_with(&scenarios, &vec![0]);
    let (run, a) =
        run.launch_run_close_profiles(LaunchEvent::Begun { start: ProfileStart::Running });
    assert!(matches!(a, LaunchAction::Run { .. }));
    let (_, a) = run.launch_run_close_profiles(LaunchEvent::Ran);
    assert!(matches!(a, LaunchAction::Over));
    let run = ProfileRun::new(&scenarios);
    let (run, _) = run.launch_run_close_profiles(LaunchEvent::Begun { start: ProfileStart::Launch });
    let (_, a) = run.launch_run_close_profiles(LaunchEvent::Launched { ok: false });
    assert!(matches!(a, LaunchAction::Over));
}
