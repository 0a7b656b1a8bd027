//! Scenarios at work, driven without a browser.
use watermelon::ai::AiResult;
use watermelon::clock::{stamp_at, Stamp, UtcTime};
use watermelon::context::{RunContext, RunNames};
use watermelon::dataset::Dataset;
use watermelon::interpolate::Whole;
use watermelon::machine::{Action, Engine, Event, Moment};
use watermelon::map::TextMap;
use watermelon::model::{AiMode, Block, OnError, RunCaps, Scenario};
use watermelon::plan::NumOrder;
use watermelon::value::{Json, Number};

type Call = (String, String, Json);

struct Outcome {
    ctx: RunContext,
    calls: Vec<Call>,
    rests: Vec<Action>,
    asked: usize,
}

fn number(t: &str) -> Option<f64> {
    t.parse::<f64>().ok()
}

fn compare(a: &str, b: &str) -> Option<NumOrder> {
    let (x, y) = (number(a)?, number(b)?);
    Some(if x < y {
        NumOrder::Less
    } else if x > y {
        NumOrder::Greater
    } else if x == y {
        NumOrder::Equal
    } else {
        NumOrder::Unordered
    })
}

fn whole(t: &str) -> Option<Whole> {
    let n = number(t)?;
    Some(Whole { negative: n < 0.0, magnitude: n.trunc().abs() as u64 })
}

/// Drives a run to its end. `reply` answers the calls, `answer` the questions;
/// the run is cancelled once so many calls have been made.
fn drive<R, A>(mut engine: Engine, mut reply: R, mut answer: A, cancel_after: usize) -> Outcome
where
    R: FnMut(&str, &Json) -> Result<Json, String>,
    A: FnMut() -> Result<AiResult, String>,
{
    let mut calls: Vec<Call> = Vec::new();
    let mut rests: Vec<Action> = Vec::new();
    let mut asked = 0;
    let mut ev = Event::Ready;
    let mut clock: u64 = 0;
    loop {
        clock += 1;
        let m = Moment {
            cancelled: calls.len() >= cancel_after,
            elapsed_secs: 0,
            now_ms: clock,
        };
        let (next, action) = engine.step(m, ev);
        engine = next;
        ev = Event::Ready;
        match action {
            Action::Proceed => {}
            Action::Call { tool, args } => {
                let r = reply(&tool, &args);
                calls.push((engine.ctx.profile_id.clone(), tool, args));
                ev = Event::Reply(r);
            }
            Action::ReadNumbers { notations } => {
                let mut table: TextMap<Whole> = TextMap::new();
                for t in notations {
                    if let Some(w) = whole(&t) {
                        table.insert(t, w);
                    }
                }
                ev = Event::Numbers(table);
            }
            Action::Compare { pairs } => {
                ev = Event::Compared(pairs.iter().map(|(a, b)| compare(a, b)).collect());
            }
            Action::Ask { .. } => {
                asked += 1;
                ev = Event::Answered(answer());
            }
            Action::Finished => break,
            other => rests.push(other),
        }
    }
    Outcome { ctx: engine.ctx, calls, rests, asked }
}

fn mock(_: &str, _: &Json) -> Result<Json, String> {
    Ok(Json::empty().with(
        "content",
        Json::Array(vec![Json::empty()
            .with("type", Json::text("text"))
            .with("text", Json::text("mock"))]),
    ))
}

fn no_model() -> Result<AiResult, String> {
    Err("no model".to_string())
}

fn scenario(blocks: Vec<Block>) -> Scenario {
    Scenario {
        id: "s".to_string(),
        name: "t".to_string(),
        description: None,
        ai_mode: AiMode::NoAi,
        on_error: OnError::Stop,
        caps: RunCaps::default(),
        data_source: None,
        blocks,
    }
}

fn run(s: &Scenario, profile: &str) -> Outcome {
    let ctx = RunContext::new(profile, s.caps);
    drive(Engine::new(s, ctx), mock, no_model, usize::MAX)
}

fn log(message: &str) -> Block {
    Block::new("log", Json::empty().with("message", Json::text(message)))
}

fn open(url: &str) -> Block {
    Block::new("open_url", Json::empty().with("url", Json::text(url)))
}

fn set(name: &str, value: Json) -> Block {
    Block::new(
        "set_variable",
        Json::empty().with("name", Json::text(name)).with("value", value),
    )
}

fn when(op: &str, variable: &str, value: &str, message: &str) -> Block {
    let mut b = Block::new(
        "condition",
        Json::empty()
            .with("op", Json::text(op))
            .with("variable", Json::text(variable))
            .with("value", Json::text(value)),
    );
    b.children = vec![log(message)];
    b
}

#[test]
fn set_var_condition_loop_and_dry_run() {
    let mut cond = Block::new(
        "condition",
        Json::empty()
            .with("variable", Json::text("flag"))
            .with("equals", Json::Bool(true)),
    );
    cond.children = vec![log("yes")];
    cond.branch_else = Some(vec![log("no")]);

    let mut lp = Block::new("loop", Json::empty().with("count", Json::from_uint(3)));
    lp.children = vec![open("https://example.com")];

    let mut post = Block::new(
        "post",
        Json::empty()
            .with("selector", Json::text("#box"))
            .with("text", Json::text("hi")),
    );
    post.dry_run = true;

    let s = scenario(vec![set("flag", Json::Bool(true)), cond, lp, post]);
    let Outcome { ctx, calls, .. } = run(&s, "profile-1");

    let navs = calls.iter().filter(|(_, t, _)| t == "navigate").count();
    assert_eq!(navs, 3);
    assert!(!calls.iter().any(|(_, t, _)| t == "type_text"));
    assert!(calls.iter().all(|(pid, _, _)| pid == "profile-1"));

    assert!(ctx
        .step_logs
        .iter()
        .any(|s| s.block_type == "post" && s.status == "dry_run"));
    assert!(ctx.warnings.iter().any(|w| w == "[log] yes"));
    assert!(!ctx.warnings.iter().any(|w| w == "[log] no"));
}

#[test]
fn run_js_wraps_expression_so_return_works() {
    let js = |code: &str| Block::new("run_js", Json::empty().with("expression", Json::text(code)));
    let s = scenario(vec![js("return document.title"), js("document.title")]);
    let out = run(&s, "p");

    let exprs: Vec<String> = out
        .calls
        .iter()
        .filter(|(_, t, _)| t == "evaluate_javascript")
        .map(|(_, _, a)| a.str_or("expression", ""))
        .collect();
    assert_eq!(exprs.len(), 2);
    assert_eq!(exprs[0], "(() => { return document.title })()");
    assert_eq!(exprs[1], "(() => (document.title))()");
}

#[test]
fn tab_upload_and_presskey_blocks_map_to_tools() {
    let s = scenario(vec![
        Block::new(
            "press_key",
            Json::empty()
                .with("key", Json::text("Enter"))
                .with("modifiers", Json::text("Control, Shift")),
        ),
        Block::new(
            "upload_file",
            Json::empty()
                .with("selector", Json::text("#f"))
                .with("files", Json::text("/a.txt\n/b.txt")),
        ),
        Block::new("new_tab", Json::empty().with("url", Json::text("https://x.com"))),
        Block::new("switch_tab", Json::empty().with("index", Json::from_uint(2))),
        Block::new("close_tab", Json::empty().with("index", Json::from_uint(1))),
        Block::new(
            "list_tabs",
            Json::empty().with("output_variable", Json::text("tabs")),
        ),
    ]);
    let Outcome { ctx, calls, .. } = run(&s, "p");
    let by_tool = |name: &str| {
        calls
            .iter()
            .find(|(_, t, _)| t == name)
            .map(|(_, _, a)| a.copy())
    };

    let pk = by_tool("press_key").expect("press_key called");
    assert_eq!(pk.get_str("key").map(String::as_str), Some("Enter"));
    assert_eq!(pk.get_array("modifiers").map(Vec::len), Some(2));

    let up = by_tool("upload_file").expect("upload_file called");
    assert_eq!(up.get_array("files").map(Vec::len), Some(2));

    assert!(by_tool("new_tab").is_some());
    assert_eq!(by_tool("switch_tab").and_then(|a| a.get_i64("index")), Some(2));
    assert!(by_tool("close_tab").is_some());
    assert!(ctx.variables.contains_key("tabs"));
}

#[test]
fn seed_and_dataset_blocks_populate_variables() {
    let mut r0: TextMap<Json> = TextMap::new();
    r0.insert("reply".to_string(), Json::text("hello"));
    let mut r1: TextMap<Json> = TextMap::new();
    r1.insert("reply".to_string(), Json::text("hi"));
    let ds = Dataset {
        id: "d".to_string(),
        name: "d".to_string(),
        columns: vec!["reply".to_string()],
        rows: vec![r0, r1],
        created_at: String::new(),
        updated_at: String::new(),
    };

    let s = scenario(vec![
        Block::new(
            "pick_row",
            Json::empty()
                .with("dataset_id", Json::text("d"))
                .with("index", Json::from_uint(1)),
        ),
        log("{{reply}}"),
        Block::new(
            "load_dataset",
            Json::empty()
                .with("dataset_id", Json::text("d"))
                .with("output_variable", Json::text("all")),
        ),
    ]);

    let mut ctx = RunContext::new("p", s.caps);
    ctx.datasets.insert("d".to_string(), ds);
    let mut pre: TextMap<Json> = TextMap::new();
    pre.insert("greeting".to_string(), Json::text("hey"));
    ctx.seed_variables(pre);

    let ctx = drive(Engine::new(&s, ctx), mock, no_model, usize::MAX).ctx;

    assert_eq!(ctx.variables.get("greeting"), Some(&Json::text("hey")));
    assert_eq!(ctx.variables.get("reply"), Some(&Json::text("hi")));
    assert!(ctx.warnings.iter().any(|w| w == "[log] hi"));
    assert_eq!(
        ctx.variables
            .get("all")
            .and_then(|v| v.as_array())
            .map(|a| a.len()),
        Some(2)
    );
}

#[test]
fn unknown_block_stops_on_error() {
    let s = scenario(vec![
        Block::new("totally_unknown", Json::empty()),
        open("https://x.com"),
    ]);
    let Outcome { ctx, calls, .. } = run(&s, "p");

    assert!(calls.is_empty());
    assert!(ctx.step_logs.iter().any(|s| s.status == "failed"));
    assert!(ctx.warnings.iter().any(|w| w.contains("stopped")));
}

#[test]
fn condition_coerces_types_and_operators() {
    let mut legacy = Block::new(
        "condition",
        Json::empty()
            .with("variable", Json::text("count"))
            .with("equals", Json::from_uint(5)),
    );
    legacy.children = vec![log("legacy")];
    let s = scenario(vec![
        set("count", Json::from_uint(5)),
        set(
            "tags",
            Json::Array(vec![Json::text("a"), Json::text("b"), Json::text("c")]),
        ),
        when("equals", "count", "5", "eq"),
        when("greater_than", "count", "3", "gt"),
        when("less_than", "count", "3", "lt-should-not"),
        when("contains", "tags", "b", "ct"),
        legacy,
    ]);
    let ctx = run(&s, "p").ctx;

    let has = |m: &str| ctx.warnings.iter().any(|w| w == &format!("[log] {m}"));
    assert!(has("eq"));
    assert!(has("gt"));
    assert!(has("ct"));
    assert!(has("legacy"));
    assert!(!has("lt-should-not"));
}

#[test]
fn run_stays_within_its_limits() {
    let mut lp = Block::new("loop", Json::empty().with("count", Json::from_uint(50)));
    lp.children = vec![open("https://x.com")];
    let mut s = scenario(vec![lp]);
    s.caps.max_loop_iterations = 4;
    let out = run(&s, "p");
    assert_eq!(out.calls.len(), 4);
    assert!(out.ctx.warnings.iter().any(|w| w == "Run hit cap: max_loop_iterations"));

    let mut few = scenario(vec![log("1"), log("2"), log("3")]);
    few.caps.max_steps = 2;
    let out = run(&few, "p");
    assert_eq!(out.ctx.warnings, vec!["[log] 1", "[log] 2", "Run hit cap: max_steps"]);
}

#[test]
fn cancelled_run_winds_down() {
    let mut lp = Block::new("loop", Json::empty().with("count", Json::from_uint(50)));
    lp.children = vec![open("https://x.com")];
    let s = scenario(vec![lp, open("https://y.com")]);
    let ctx = RunContext::new("p", s.caps);
    let out = drive(Engine::new(&s, ctx), mock, no_model, 2);
    assert_eq!(out.calls.len(), 2);
}

#[test]
fn finished_run_stays_finished() {
    let s = scenario(vec![]);
    let m = Moment { cancelled: false, elapsed_secs: 0, now_ms: 0 };
    let mut engine = Engine::new(&s, RunContext::new("p", s.caps));
    for _ in 0..5 {
        engine = engine.step(m, Event::Ready).0;
    }
    let (_, action) = engine.step(m, Event::Ready);
    assert_eq!(action, Action::Finished);
}

#[test]
fn failing_tool_is_tried_again_or_passed_over() {
    let fails = |_: &str, _: &Json| -> Result<Json, String> { Err("down".to_string()) };
    let mut again = open("https://x.com");
    again.on_error = Some(OnError::Retry);
    let s = scenario(vec![again, log("next")]);
    let out = drive(
        Engine::new(&s, RunContext::new("p", s.caps)),
        fails,
        no_model,
        usize::MAX,
    );
    assert!(out.calls.len() > 1);
    assert!(!out.rests.is_empty());
    assert!(out.ctx.step_logs.iter().any(|l| l.status == "failed"));

    let mut skip = open("https://x.com");
    skip.on_error = Some(OnError::Skip);
    let s = scenario(vec![skip, log("next")]);
    let out = drive(
        Engine::new(&s, RunContext::new("p", s.caps)),
        fails,
        no_model,
        usize::MAX,
    );
    assert_eq!(out.calls.len(), 1);
    assert!(out.ctx.warnings.iter().any(|w| w == "[log] next"));
}

#[test]
fn disabled_block_does_nothing() {
    let mut off = open("https://x.com");
    off.disabled = true;
    let out = run(&scenario(vec![off, log("after")]), "p");
    assert!(out.calls.is_empty());
    assert!(out.ctx.warnings.iter().any(|w| w == "[log] after"));
}

#[test]
fn items_of_a_list_in_turn() {
    let mut each = Block::new(
        "for_each",
        Json::empty().with("source", Json::text("names")),
    );
    each.children = vec![open("https://{{item}}.com/{{loop_index}}")];
    let s = scenario(vec![
        set("names", Json::Array(vec![Json::text("a"), Json::text("b")])),
        each,
    ]);
    let out = run(&s, "p");
    let urls: Vec<String> = out.calls.iter().map(|(_, _, a)| a.str_or("url", "")).collect();
    assert_eq!(urls, vec!["https://a.com/0", "https://b.com/1"]);
}

#[test]
fn waits_are_handed_over() {
    let s = scenario(vec![Block::new(
        "wait",
        Json::empty().with("seconds", Json::from_uint(2)),
    )]);
    let out = run(&s, "p");
    assert_eq!(
        out.rests,
        vec![Action::Wait { seconds: Some(Number::PosInt(2)) }]
    );
}

#[test]
fn model_is_asked_only_where_there_is_one() {
    let mut b = Block::new(
        "ai_write",
        Json::empty()
            .with("prompt", Json::text("say hi"))
            .with("output_variable", Json::text("out")),
    );
    b.ai_enabled = true;
    let mut s = scenario(vec![b]);
    s.ai_mode = AiMode::Ai;
    let answer = || {
        Ok(AiResult {
            json: None,
            text: Some("hi".to_string()),
            input_tokens: 3,
            output_tokens: 4,
        })
    };
    let with = drive(
        Engine::with_ai(&s, RunContext::new("p", s.caps)),
        mock,
        answer,
        usize::MAX,
    );
    assert_eq!(with.asked, 1);
    assert_eq!(with.ctx.ai_tokens_used, 7);
    assert_eq!(with.ctx.variables.get("out"), Some(&Json::text("hi")));

    let without = drive(
        Engine::new(&s, RunContext::new("p", s.caps)),
        mock,
        answer,
        usize::MAX,
    );
    assert_eq!(without.asked, 0);
}

#[test]
fn tokens_run_out() {
    let ask = || {
        let mut b = Block::new(
            "ai_write",
            Json::empty()
                .with("prompt", Json::text("?"))
                .with("fallback_text", Json::text("plain"))
                .with("output_variable", Json::text("out")),
        );
        b.ai_enabled = true;
        b
    };
    let mut s = scenario(vec![ask(), ask()]);
    s.ai_mode = AiMode::Auto;
    s.caps.max_ai_tokens = 5;
    let answer = || {
        Ok(AiResult {
            json: None,
            text: Some("clever".to_string()),
            input_tokens: 3,
            output_tokens: 4,
        })
    };
    let out = drive(
        Engine::with_ai(&s, RunContext::new("p", s.caps)),
        mock,
        answer,
        usize::MAX,
    );
    assert_eq!(out.asked, 1);
    assert_eq!(out.ctx.variables.get("out"), Some(&Json::text("plain")));
    assert_eq!(
        out.ctx.warnings,
        vec![
            "[ai] ai_write ok (tokens 3+4, total 7/5)",
            "[ai] token cap 5 reached → fallback",
            "[ai] fallback ai_write"
        ]
    );
}

#[test]
fn unknown_filter_fails_its_block() {
    let mut s = scenario(vec![set("name", Json::text("alice")), log("{{name | nosuch}}"), log("on")]);
    let out = run(&s, "p");
    assert_eq!(out.ctx.warnings, vec!["Run stopped on error"]);
    let failed = out.ctx.step_logs.last().unwrap();
    assert_eq!(failed.status, "failed");
    assert_eq!(failed.error.as_deref(), Some("Unknown filter: nosuch"));

    s.on_error = OnError::Skip;
    let out = run(&s, "p");
    assert_eq!(out.ctx.warnings, vec!["[log] on"]);
    assert_eq!(out.ctx.step_logs[1].status, "skipped");

    s.on_error = OnError::Retry;
    let out = run(&s, "p");
    assert_eq!(out.rests, vec![Action::Sleep { ms: 2000 }, Action::Sleep { ms: 2000 }]);
    assert_eq!(out.ctx.step_logs.last().unwrap().status, "failed");
}

#[test]
fn times_are_written_in_three_forms() {
    let stamp = stamp_at(UtcTime { secs: 1_780_965_007, nanos: 0 });
    assert_eq!(
        stamp,
        Stamp {
            date: "2026-06-09".to_string(),
            time: "00:30:07".to_string(),
            datetime: "2026-06-09T00:30:07+00:00".to_string(),
        }
    );
    let both = |secs: i64, nanos: u32| stamp_at(UtcTime { secs, nanos }).datetime;
    assert_eq!(both(0, 0), "1970-01-01T00:00:00+00:00");
    assert_eq!(both(86_399, 500_000_000), "1970-01-01T23:59:59.500+00:00");
    assert_eq!(both(86_400, 1_000), "1970-01-02T00:00:00.000001+00:00");
    assert_eq!(both(1709208000, 1), "2024-02-29T12:00:00.000000001+00:00");
}

#[test]
fn leap_years_and_long_years_are_written() {
    let date = |secs: i64| stamp_at(UtcTime { secs, nanos: 0 }).date;
    assert_eq!(date(1709208000), "2024-02-29");
    assert_eq!(date(1709294400), "2024-03-01");
    // 2100 is no leap year.
    assert_eq!(date(4107542399), "2100-02-28");
    assert_eq!(date(4107542400), "2100-03-01");
    assert_eq!(date(253_402_300_799), "9999-12-31");
    assert_eq!(date(253_402_300_800), "+10000-01-01");
    assert_eq!(date(8_210_266_876_799), "+262142-12-31");
}

#[test]
fn names_of_a_run_are_system_variables() {
    let names = || RunNames {
        profile_name: "Work".to_string(),
        run_id: "r-1".to_string(),
        scenario_name: "Demo".to_string(),
    };
    let s = scenario(vec![log("{{profile_name}} {{run_id}} {{scenario_name}} {{profile_id}}")]);
    let stamp = stamp_at(UtcTime { secs: 1_780_965_007, nanos: 0 });
    let ctx = RunContext::at("p", s.caps, stamp, Some(names()));
    let out = drive(Engine::new(&s, ctx), mock, no_model, usize::MAX);
    assert_eq!(out.ctx.warnings, vec!["[log] Work r-1 Demo p"]);
    let now = RunContext::named("p", s.caps, names());
    assert_eq!(now.system.get("run_id"), Some(&"r-1".to_string()));
}

#[test]
fn clock_of_a_run() {
    let stamp = Stamp {
        date: "2026-06-09".to_string(),
        time: "10:00:00".to_string(),
        datetime: "2026-06-09T10:00:00Z".to_string(),
    };
    let ctx = RunContext::at("p", RunCaps::default(), stamp, None);
    assert_eq!(ctx.system.get("date"), Some(&"2026-06-09".to_string()));
    let now = RunContext::new("p", RunCaps::default());
    let date = now.system.get("date").expect("the date");
    assert_eq!(date.len(), 10);
    assert_eq!(date.as_bytes()[4], b'-');
    let time = now.system.get("time").expect("the time");
    let both = now.system.get("datetime").expect("both");
    assert!(both.starts_with(&format!("{date}T{time}")));
    assert!(now.profile_id == "p" && now.steps_run == 0);
}
