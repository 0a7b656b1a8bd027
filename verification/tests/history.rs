//! Scenarios that were saved, and runs that were recorded.
use watermelon::map::TextMap;
use watermelon::model::{AiMode, Block, OnError, RunCaps, Scenario, StepLog};
use watermelon::store::{RunRecord, ScenarioStore};
use watermelon::value::Json;

fn demo(id: &str) -> Scenario {
    Scenario {
        id: id.to_string(),
        name: "demo".to_string(),
        description: None,
        ai_mode: AiMode::default(),
        on_error: OnError::default(),
        caps: RunCaps::default(),
        data_source: None,
        blocks: vec![Block::new(
            "open_url",
            Json::empty().with("url", Json::text("https://x.com")),
        )],
    }
}

fn step(status: &str) -> StepLog {
    StepLog {
        block_id: "b1".to_string(),
        block_type: "open_url".to_string(),
        status: status.to_string(),
        duration_ms: 50,
        error: None,
    }
}

fn record(id: &str, started_at: &str, steps: Vec<StepLog>) -> RunRecord {
    RunRecord {
        id: id.to_string(),
        scenario_id: "abc".to_string(),
        profile_id: "p1".to_string(),
        triggered_by: "manual".to_string(),
        status: "success".to_string(),
        started_at: started_at.to_string(),
        finished_at: "2026-06-09T00:00:01Z".to_string(),
        duration_ms: 1000,
        error: None,
        warnings: vec!["w".to_string()],
        variables: TextMap::new(),
        steps,
    }
}

#[test]
fn scenario_roundtrip_and_run_record() {
    let mut store = ScenarioStore::new(vec!["tmp".to_string()]);

    let mut s = demo("abc");
    store.save_scenario(&s);
    s = store.load_scenario("abc").unwrap();
    assert_eq!(s.name, "demo");
    assert_eq!(store.list_scenarios().len(), 1);

    store.record_run(&record("run1", "2026-06-09T00:00:00Z", vec![step("ok")]));
    let runs = store.list_runs(10);
    assert_eq!(runs.len(), 1);
    assert_eq!(runs[0].steps_ok, 1);
    assert_eq!(runs[0].status, "success");
}

#[test]
fn saved_scenario_is_read_back_until_it_is_deleted() {
    let mut store = ScenarioStore::default_location(&vec!["data".to_string()]);
    assert!(store.load_scenario("abc").is_none());
    store.save_scenario(&demo("abc"));
    store.save_scenario(&demo("xyz"));
    assert_eq!(store.load_scenario("abc"), Some(demo("abc")));
    store.delete_scenario("abc");
    assert!(store.load_scenario("abc").is_none());
    assert_eq!(store.list_scenarios().len(), 1);
}

#[test]
fn runs_are_listed_latest_first() {
    let mut store = ScenarioStore::new(vec![]);
    store.record_run(&record("a", "2026-06-09T00:00:00Z", vec![]));
    store.record_run(&record("b", "2026-06-11T00:00:00Z", vec![]));
    store.record_run(&record("c", "2026-06-10T00:00:00Z", vec![]));
    let ids: Vec<String> = store.list_runs(2).iter().map(|r| r.id.clone()).collect();
    assert_eq!(ids, vec!["b", "c"]);
}

#[test]
fn recorded_run_is_found_with_its_steps() {
    let mut store = ScenarioStore::new(vec![]);
    let steps = vec![step("ok"), step("failed"), step("ok")];
    store.record_run(&record("run1", "2026-06-09T00:00:00Z", steps));
    let run = store.get_run("run1").unwrap();
    assert_eq!(run.steps.len(), 3);
    assert_eq!(run.steps[1].status, "failed");
    assert_eq!(run.warnings, vec!["w"]);
    assert_eq!(run.duration_ms, 1000);
    let summary = &store.list_runs(10)[0];
    assert_eq!((summary.steps_ok, summary.steps_failed), (2, 1));
    assert!(store.get_run("run2").is_none());
}

#[test]
fn runs_that_were_cut_off_are_told_apart() {
    let mut store = ScenarioStore::new(vec![]);
    store.begin_run("r", "abc", "p1", "manual", "2026-06-09T00:00:00Z");
    assert_eq!(store.list_runs(10)[0].status, "running");
    assert_eq!(store.recover_interrupted_runs(), 1);
    assert_ne!(store.list_runs(10)[0].status, "running");
    assert_eq!(store.recover_interrupted_runs(), 0);
}
