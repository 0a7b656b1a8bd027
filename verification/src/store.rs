//! What is kept of scenarios and of their runs.
//!
//! A scenario is kept under its id. Of a run, one row is kept under its id, and
//! one row for each of its steps.
use vstd::prelude::*;

use crate::map::{
    lemma_lookup_put, lemma_lookup_without, lemma_put_sorted, lemma_values_by, lemma_values_sorted,
    lemma_without_sorted, lookup, put, sorted, values_by, without, TextMap,
};
use crate::model::{copy_opt, Scenario, ScenarioView, StepLog, StepView, steps};
use crate::text::{
    comes_before, copy_texts, lemma_texts_push, opt_text, same, text_lt, texts,
};
use crate::value::{entries, Json, JsonView};

verus! {

/// A run, once it is over.
#[derive(Debug, PartialEq, Eq)]
pub struct RunRecord {
    pub id: String,
    pub scenario_id: String,
    pub profile_id: String,
    /// "manual", "schedule" or "api".
    pub triggered_by: String,
    /// "success", "failed" or "stopped".
    pub status: String,
    pub started_at: String,
    pub finished_at: String,
    pub duration_ms: u128,
    pub error: Option<String>,
    pub warnings: Vec<String>,
    pub variables: TextMap<Json>,
    pub steps: Vec<StepLog>,
}

/// A run in a list.
#[derive(Debug, PartialEq, Eq)]
pub struct RunSummary {
    pub id: String,
    pub scenario_id: String,
    pub profile_id: String,
    pub status: String,
    pub started_at: String,
    pub duration_ms: i64,
    pub steps_ok: i64,
    pub steps_failed: i64,
}

/// A run with its steps.
#[derive(Debug, PartialEq, Eq)]
pub struct RunDetail {
    pub id: String,
    pub scenario_id: String,
    pub profile_id: String,
    pub triggered_by: String,
    pub status: String,
    pub started_at: String,
    pub finished_at: String,
    pub duration_ms: i64,
    pub error: Option<String>,
    pub warnings: Vec<String>,
    pub steps: Vec<StepLog>,
}

/// What is kept of a run under its id.
#[derive(Debug, PartialEq, Eq)]
pub struct RunRow {
    pub scenario_id: String,
    pub profile_id: String,
    pub triggered_by: String,
    pub status: String,
    pub started_at: String,
    pub finished_at: String,
    pub duration_ms: i64,
    pub error: Option<String>,
    pub warnings: Vec<String>,
    pub variables: TextMap<Json>,
}

/// What is kept of a step.
#[derive(Debug, PartialEq, Eq)]
pub struct StepRow {
    pub run_id: String,
    pub seq: usize,
    pub block_id: String,
    pub block_type: String,
    pub status: String,
    pub duration_ms: i64,
    pub error: Option<String>,
}

pub struct RunRowView {
    pub scenario_id: Seq<char>,
    pub profile_id: Seq<char>,
    pub triggered_by: Seq<char>,
    pub status: Seq<char>,
    pub started_at: Seq<char>,
    pub finished_at: Seq<char>,
    pub duration_ms: i64,
    pub error: Option<Seq<char>>,
    pub warnings: Seq<Seq<char>>,
    pub variables: Seq<(Seq<char>, JsonView)>,
}

pub struct StepRowView {
    pub run_id: Seq<char>,
    pub seq: int,
    pub block_id: Seq<char>,
    pub block_type: Seq<char>,
    pub status: Seq<char>,
    pub duration_ms: i64,
    pub error: Option<Seq<char>>,
}

impl RunRow {
    pub open spec fn view(&self) -> RunRowView {
        RunRowView {
            scenario_id: self.scenario_id@,
            profile_id: self.profile_id@,
            triggered_by: self.triggered_by@,
            status: self.status@,
            started_at: self.started_at@,
            finished_at: self.finished_at@,
            duration_ms: self.duration_ms,
            error: opt_text(self.error),
            warnings: texts(self.warnings@),
            variables: entries(self.variables@),
        }
    }
}

impl StepRow {
    pub open spec fn view(&self) -> StepRowView {
        StepRowView {
            run_id: self.run_id@,
            seq: self.seq as int,
            block_id: self.block_id@,
            block_type: self.block_type@,
            status: self.status@,
            duration_ms: self.duration_ms,
            error: opt_text(self.error),
        }
    }
}

pub struct SummaryView {
    pub id: Seq<char>,
    pub scenario_id: Seq<char>,
    pub profile_id: Seq<char>,
    pub status: Seq<char>,
    pub started_at: Seq<char>,
    pub duration_ms: i64,
    pub steps_ok: int,
    pub steps_failed: int,
}

impl RunSummary {
    pub open spec fn view(&self) -> SummaryView {
        SummaryView {
            id: self.id@,
            scenario_id: self.scenario_id@,
            profile_id: self.profile_id@,
            status: self.status@,
            started_at: self.started_at@,
            duration_ms: self.duration_ms,
            steps_ok: self.steps_ok as int,
            steps_failed: self.steps_failed as int,
        }
    }
}

pub struct DetailView {
    pub id: Seq<char>,
    pub scenario_id: Seq<char>,
    pub profile_id: Seq<char>,
    pub triggered_by: Seq<char>,
    pub status: Seq<char>,
    pub started_at: Seq<char>,
    pub finished_at: Seq<char>,
    pub duration_ms: i64,
    pub error: Option<Seq<char>>,
    pub warnings: Seq<Seq<char>>,
    pub steps: Seq<StepView>,
}

impl RunDetail {
    pub open spec fn view(&self) -> DetailView {
        DetailView {
            id: self.id@,
            scenario_id: self.scenario_id@,
            profile_id: self.profile_id@,
            triggered_by: self.triggered_by@,
            status: self.status@,
            started_at: self.started_at@,
            finished_at: self.finished_at@,
            duration_ms: self.duration_ms,
            error: opt_text(self.error),
            warnings: texts(self.warnings@),
            steps: steps(self.steps@),
        }
    }
}

/// The store. A place is the list of names that lead to it.
pub struct ScenarioStore {
    pub dir: Vec<String>,
    pub db: Vec<String>,
    pub scenarios: TextMap<Scenario>,
    pub runs: TextMap<RunRow>,
    pub steps: Vec<StepRow>,
}

pub struct StoreView {
    pub dir: Seq<Seq<char>>,
    pub db: Seq<Seq<char>>,
    pub scenarios: Seq<(Seq<char>, ScenarioView)>,
    pub runs: Seq<(Seq<char>, RunRowView)>,
    pub steps: Seq<StepRowView>,
}

pub open spec fn scenario_view() -> spec_fn(Scenario) -> ScenarioView {
    |s: Scenario| s@
}

pub open spec fn row_view() -> spec_fn(RunRow) -> RunRowView {
    |r: RunRow| r@
}

pub open spec fn step_rows(v: Seq<StepRow>) -> Seq<StepRowView> {
    v.map_values(|s: StepRow| s@)
}

impl ScenarioStore {
    pub open spec fn view(&self) -> StoreView {
        StoreView {
            dir: texts(self.dir@),
            db: texts(self.db@),
            scenarios: values_by(self.scenarios@, scenario_view()),
            runs: values_by(self.runs@, row_view()),
            steps: step_rows(self.steps@),
        }
    }

    /// The scenarios and the runs are kept in the order of their ids, each id
    /// once.
    pub open spec fn well_formed(&self) -> bool {
        self@.well_formed()
    }
}

impl StoreView {
    /// The scenarios and the runs are kept in the order of their ids, each id
    /// once.
    pub open spec fn well_formed(self) -> bool {
        sorted(self.scenarios) && sorted(self.runs)
    }

    /// An empty store at a place.
    pub open spec fn empty_at(dir: Seq<Seq<char>>) -> StoreView {
        StoreView {
            dir,
            db: dir.push("runs.db"@),
            scenarios: Seq::empty(),
            runs: Seq::empty(),
            steps: Seq::empty(),
        }
    }
}

// ---------------------------------------------------------------------------
// Scenarios
// ---------------------------------------------------------------------------

impl ScenarioStore {
    /// An empty store at a place.
    pub fn new(dir: Vec<String>) -> (r: ScenarioStore)
        ensures
            r@ == StoreView::empty_at(texts(dir@)),
            r.well_formed(),
    {
        let mut db = copy_texts(&dir);
        let file = "runs.db".to_owned();
        proof {
            lemma_texts_push(db@, file);
        }
        db.push(file);
        let r = ScenarioStore {
            dir,
            db,
            scenarios: TextMap::new(),
            runs: TextMap::new(),
            steps: Vec::new(),
        };
        assert(r@.scenarios =~= Seq::<(Seq<char>, ScenarioView)>::empty());
        assert(r@.runs =~= Seq::<(Seq<char>, RunRowView)>::empty());
        assert(r@.steps =~= Seq::<StepRowView>::empty());
        r
    }

    /// An empty store at its usual place in the data directory.
    pub fn default_location(data_dir: &Vec<String>) -> (r: ScenarioStore)
        ensures
            r@ == StoreView::empty_at(texts(data_dir@).push("scenarios"@)),
            r.well_formed(),
    {
        let mut dir = copy_texts(data_dir);
        let name = "scenarios".to_owned();
        proof {
            lemma_texts_push(dir@, name);
        }
        dir.push(name);
        ScenarioStore::new(dir)
    }

    /// Keeps a scenario under its id.
    pub fn save_scenario(&mut self, s: &Scenario)
        ensures
            final(self)@ == (StoreView {
                scenarios: put(old(self)@.scenarios, s@.id, s@),
                ..old(self)@
            }),
            old(self).well_formed() ==> final(self).well_formed(),
    {
        let c = s.copy();
        proof {
            lemma_values_by(self.scenarios@, scenario_view(), s.id@, c);
            if self.well_formed() {
                lemma_put_sorted(self@.scenarios, s.id@, c@);
            }
        }
        self.scenarios.insert(s.id.clone(), c);
    }

    /// The scenario that is kept under an id.
    pub fn load_scenario(&self, id: &str) -> (r: Option<Scenario>)
        ensures
            match r {
                Some(s) => lookup(self@.scenarios, id@) == Some(s@),
                None => lookup(self@.scenarios, id@) is None,
            },
    {
        proof {
            lemma_values_by(self.scenarios@, scenario_view(), id@, arbitrary());
        }
        match self.scenarios.get(id) {
            Some(s) => Some(s.copy()),
            None => None,
        }
    }

    /// All the scenarios, in the order of their ids.
    pub fn list_scenarios(&self) -> (r: Vec<Scenario>)
        ensures
            r@.len() == self@.scenarios.len(),
            forall|i: int| 0 <= i < r@.len() ==> (#[trigger] r@[i])@ == self@.scenarios[i].1,
    {
        let mut out: Vec<Scenario> = Vec::new();
        let mut i: usize = 0;
        while i < self.scenarios.len()
            invariant
                i <= self.scenarios@.len(),
                out@.len() == i,
                forall|j: int| 0 <= j < i ==> (#[trigger] out@[j])@ == self@.scenarios[j].1,
            decreases self.scenarios@.len() - i,
        {
            out.push(self.scenarios.value_at(i).copy());
            i = i + 1;
        }
        out
    }

    /// Drops the scenario under an id.
    pub fn delete_scenario(&mut self, id: &str)
        ensures
            final(self)@ == (StoreView {
                scenarios: without(old(self)@.scenarios, id@),
                ..old(self)@
            }),
            old(self).well_formed() ==> final(self).well_formed(),
    {
        proof {
            lemma_values_by(self.scenarios@, scenario_view(), id@, arbitrary());
            if self.well_formed() {
                lemma_without_sorted(self@.scenarios, id@);
            }
        }
        let _ = self.scenarios.remove(id);
    }
}

/// A scenario that has been saved is loaded as it was, and saving it changes
/// no other.
pub proof fn lemma_saved_is_loaded(
    m: Seq<(Seq<char>, ScenarioView)>,
    s: ScenarioView,
    other: Seq<char>,
)
    ensures
        lookup(put(m, s.id, s), s.id) == Some(s),
        other != s.id ==> lookup(put(m, s.id, s), other) == lookup(m, other),
{
    lemma_lookup_put(m, s.id, s, other);
}

/// A scenario that has been deleted is gone, and deleting it changes no other.
pub proof fn lemma_deleted_is_gone(s: StoreView, id: Seq<char>, other: Seq<char>)
    requires
        s.well_formed(),
    ensures
        lookup(without(s.scenarios, id), id) is None,
        other != id ==> lookup(without(s.scenarios, id), other) == lookup(s.scenarios, other),
{
    lemma_lookup_without(s.scenarios, id, other);
}

// ---------------------------------------------------------------------------
// Runs
// ---------------------------------------------------------------------------

/// A duration as a signed number of 64 bits holds it.
pub open spec fn low64(d: u128) -> int {
    let m = d as int % 0x1_0000_0000_0000_0000;
    if m < 0x8000_0000_0000_0000 {
        m
    } else {
        m - 0x1_0000_0000_0000_0000
    }
}

fn to_i64(d: u128) -> (r: i64)
    ensures
        r == low64(d),
{
    let m: u128 = d % 0x1_0000_0000_0000_0000;
    if m < 0x8000_0000_0000_0000 {
        m as i64
    } else {
        (m as i128 - 0x1_0000_0000_0000_0000) as i64
    }
}

/// The row of a run that begins.
pub open spec fn begun(
    scenario_id: Seq<char>,
    profile_id: Seq<char>,
    triggered_by: Seq<char>,
    started_at: Seq<char>,
) -> RunRowView {
    RunRowView {
        scenario_id,
        profile_id,
        triggered_by,
        status: "running"@,
        started_at,
        finished_at: Seq::empty(),
        duration_ms: 0,
        error: None,
        warnings: Seq::empty(),
        variables: Seq::empty(),
    }
}

pub open spec fn row_of(r: RunRecord) -> RunRowView {
    RunRowView {
        scenario_id: r.scenario_id@,
        profile_id: r.profile_id@,
        triggered_by: r.triggered_by@,
        status: r.status@,
        started_at: r.started_at@,
        finished_at: r.finished_at@,
        duration_ms: low64(r.duration_ms) as i64,
        error: opt_text(r.error),
        warnings: texts(r.warnings@),
        variables: entries(r.variables@),
    }
}

pub open spec fn step_row(run_id: Seq<char>, seq: int, s: StepView) -> StepRowView {
    StepRowView {
        run_id,
        seq,
        block_id: s.block_id,
        block_type: s.block_type,
        status: s.status,
        duration_ms: low64(s.duration_ms) as i64,
        error: s.error,
    }
}

/// The rows of the steps of a run.
pub open spec fn rows_of_steps(run_id: Seq<char>, s: Seq<StepView>) -> Seq<StepRowView> {
    Seq::new(s.len(), |i: int| step_row(run_id, i, s[i]))
}

/// The row with the status "interrupted" where it was "running".
pub open spec fn interrupted(r: RunRowView) -> RunRowView {
    if r.status == "running"@ {
        RunRowView { status: "interrupted"@, ..r }
    } else {
        r
    }
}

pub open spec fn all_interrupted(m: Seq<(Seq<char>, RunRowView)>) -> Seq<(Seq<char>, RunRowView)> {
    values_by(m, |r: RunRowView| interrupted(r))
}

/// How many of the first `n` rows have the status "running".
pub open spec fn count_running(m: Seq<(Seq<char>, RunRowView)>, n: int) -> int
    decreases n,
{
    if n <= 0 {
        0
    } else {
        count_running(m, n - 1) + if m[n - 1].1.status == "running"@ {
            1int
        } else {
            0int
        }
    }
}

/// How many of the first `n` steps belong to the run and count as done.
pub open spec fn count_ok(s: Seq<StepRowView>, id: Seq<char>, n: int) -> int
    decreases n,
{
    if n <= 0 {
        0
    } else {
        let r = s[n - 1];
        count_ok(s, id, n - 1) + if r.run_id == id && (r.status == "ok"@ || r.status == "retried"@
            || r.status == "dry_run"@) {
            1int
        } else {
            0int
        }
    }
}

/// How many of the first `n` steps belong to the run and failed.
pub open spec fn count_failed(s: Seq<StepRowView>, id: Seq<char>, n: int) -> int
    decreases n,
{
    if n <= 0 {
        0
    } else {
        let r = s[n - 1];
        count_failed(s, id, n - 1) + if r.run_id == id && r.status == "failed"@ {
            1int
        } else {
            0int
        }
    }
}

pub open spec fn summary(id: Seq<char>, r: RunRowView, s: Seq<StepRowView>) -> SummaryView {
    SummaryView {
        id,
        scenario_id: r.scenario_id,
        profile_id: r.profile_id,
        status: r.status,
        started_at: r.started_at,
        duration_ms: r.duration_ms,
        steps_ok: count_ok(s, id, s.len() as int),
        steps_failed: count_failed(s, id, s.len() as int),
    }
}

/// The list with `x` before the first run that started earlier.
pub open spec fn add_latest(v: Seq<SummaryView>, x: SummaryView) -> Seq<SummaryView>
    decreases v.len(),
{
    if v.len() == 0 {
        seq![x]
    } else if text_lt(v[0].started_at, x.started_at) {
        seq![x] + v
    } else {
        seq![v[0]] + add_latest(v.drop_first(), x)
    }
}

/// The first `n` runs, the latest first.
pub open spec fn latest_first(
    m: Seq<(Seq<char>, RunRowView)>,
    s: Seq<StepRowView>,
    n: int,
) -> Seq<SummaryView>
    decreases n,
{
    if n <= 0 {
        Seq::empty()
    } else {
        add_latest(latest_first(m, s, n - 1), summary(m[n - 1].0, m[n - 1].1, s))
    }
}

/// No run started later than the one before it.
pub open spec fn descending(v: Seq<SummaryView>) -> bool {
    forall|i: int, j: int|
        0 <= i < j < v.len() ==> !text_lt(
            #[trigger] v[i].started_at,
            #[trigger] v[j].started_at,
        )
}

/// At most `limit` runs; all of them where the limit is negative.
pub open spec fn limited(v: Seq<SummaryView>, limit: i64) -> Seq<SummaryView> {
    if limit < 0 || v.len() <= limit {
        v
    } else {
        v.take(limit as int)
    }
}

proof fn lemma_add_latest(v: Seq<SummaryView>, x: SummaryView)
    requires
        descending(v),
    ensures
        descending(add_latest(v, x)),
        add_latest(v, x).to_multiset() == v.to_multiset().insert(x),
        add_latest(v, x).len() == v.len() + 1,
        forall|i: int|
            0 <= i < add_latest(v, x).len() ==> #[trigger] add_latest(v, x)[i] == x || v.contains(
                add_latest(v, x)[i],
            ),
    decreases v.len(),
{
    let r = add_latest(v, x);
    v.to_multiset_ensures();
    if v.len() == 0 {
        assert(r =~= v.push(x));
    } else if text_lt(v[0].started_at, x.started_at) {
        assert(r.remove(0) =~= v);
        r.to_multiset_ensures();
        assert(r.contains(x)) by {
            assert(r[0] == x);
        }
        assert(r.to_multiset().remove(x).insert(x) =~= r.to_multiset());
        assert forall|i: int, j: int| 0 <= i < j < r.len() implies !text_lt(
            #[trigger] r[i].started_at,
            #[trigger] r[j].started_at,
        ) by {
            assert(r[j] == v[j - 1]);
            if i == 0 {
                if text_lt(x.started_at, v[j - 1].started_at) {
                    crate::text::lemma_text_lt_transitive(
                        v[0].started_at,
                        x.started_at,
                        v[j - 1].started_at,
                    );
                    if j - 1 > 0 {
                        assert(!text_lt(v[0].started_at, v[j - 1].started_at));
                    } else {
                        crate::text::lemma_text_lt_irreflexive(v[0].started_at);
                    }
                }
            } else {
                assert(r[i] == v[i - 1]);
            }
        }
        assert forall|i: int| 0 <= i < r.len() implies #[trigger] r[i] == x || v.contains(r[i]) by {
            if i > 0 {
                assert(v[i - 1] == r[i]);
            }
        }
    } else {
        let t = v.drop_first();
        assert forall|i: int, j: int| 0 <= i < j < t.len() implies !text_lt(
            #[trigger] t[i].started_at,
            #[trigger] t[j].started_at,
        ) by {
            assert(t[i] == v[i + 1] && t[j] == v[j + 1]);
        }
        lemma_add_latest(t, x);
        let rest = add_latest(t, x);
        assert(v.remove(0) =~= t);
        assert(r.remove(0) =~= rest);
        r.to_multiset_ensures();
        assert(r[0] == v[0]);
        assert(r.contains(v[0]));
        assert(v.contains(v[0]));
        assert(r.to_multiset() =~= v.to_multiset().insert(x)) by {
            assert(rest.to_multiset() == t.to_multiset().insert(x));
            assert(t.to_multiset() =~= v.to_multiset().remove(v[0]));
            assert(rest.to_multiset() =~= r.to_multiset().remove(v[0]));
            assert(r.to_multiset() =~= rest.to_multiset().insert(v[0]));
            assert(v.to_multiset() =~= t.to_multiset().insert(v[0]));
        }
        assert forall|i: int, j: int| 0 <= i < j < r.len() implies !text_lt(
            #[trigger] r[i].started_at,
            #[trigger] r[j].started_at,
        ) by {
            assert(r[j] == rest[j - 1]);
            if i == 0 {
                if rest[j - 1] != x {
                    assert(t.contains(rest[j - 1]));
                    let k = choose|k: int| 0 <= k < t.len() && t[k] == rest[j - 1];
                    assert(t[k] == v[k + 1]);
                    assert(!text_lt(v[0].started_at, v[k + 1].started_at));
                }
            } else {
                assert(r[i] == rest[i - 1]);
            }
        }
        assert forall|i: int| 0 <= i < r.len() implies #[trigger] r[i] == x || v.contains(r[i]) by {
            if i == 0 {
                assert(v[0] == r[0]);
            } else {
                assert(r[i] == rest[i - 1]);
                if rest[i - 1] != x {
                    let k = choose|k: int| 0 <= k < t.len() && t[k] == rest[i - 1];
                    assert(v[k + 1] == r[i]);
                }
            }
        }
    }
}

/// The list of runs shows every run once, the latest first.
pub proof fn lemma_latest_first(m: Seq<(Seq<char>, RunRowView)>, s: Seq<StepRowView>, n: int)
    requires
        0 <= n <= m.len(),
    ensures
        descending(latest_first(m, s, n)),
        latest_first(m, s, n).len() == n,
        latest_first(m, s, n).to_multiset() == Seq::new(
            n as nat,
            |i: int| summary(m[i].0, m[i].1, s),
        ).to_multiset(),
    decreases n,
{
    if n > 0 {
        lemma_latest_first(m, s, n - 1);
        let before = latest_first(m, s, n - 1);
        let x = summary(m[n - 1].0, m[n - 1].1, s);
        lemma_add_latest(before, x);
        let a = Seq::new((n - 1) as nat, |i: int| summary(m[i].0, m[i].1, s));
        let b = Seq::new(n as nat, |i: int| summary(m[i].0, m[i].1, s));
        assert(b =~= a.push(x));
        a.to_multiset_ensures();
    } else {
        assert(latest_first(m, s, n) =~= Seq::new(
            n as nat,
            |i: int| summary(m[i].0, m[i].1, s),
        ));
    }
}

/// The step that a row stands for.
pub open spec fn step_of(r: StepRowView) -> StepView {
    StepView {
        block_id: r.block_id,
        block_type: r.block_type,
        status: r.status,
        duration_ms: if r.duration_ms < 0 {
            0
        } else {
            r.duration_ms as u128
        },
        error: r.error,
    }
}

/// The list with `x` behind the steps that do not come after it.
pub open spec fn add_step(v: Seq<StepRowView>, x: StepRowView) -> Seq<StepRowView>
    decreases v.len(),
{
    if v.len() == 0 {
        seq![x]
    } else if v.last().seq > x.seq {
        add_step(v.drop_last(), x).push(v.last())
    } else {
        v.push(x)
    }
}

/// The steps of a run among the first `n` rows, in their order.
pub open spec fn steps_of_run(s: Seq<StepRowView>, id: Seq<char>, n: int) -> Seq<StepRowView>
    decreases n,
{
    if n <= 0 {
        Seq::empty()
    } else if s[n - 1].run_id == id {
        add_step(steps_of_run(s, id, n - 1), s[n - 1])
    } else {
        steps_of_run(s, id, n - 1)
    }
}

pub open spec fn detail(id: Seq<char>, r: RunRowView, s: Seq<StepRowView>) -> DetailView {
    DetailView {
        id,
        scenario_id: r.scenario_id,
        profile_id: r.profile_id,
        triggered_by: r.triggered_by,
        status: r.status,
        started_at: r.started_at,
        finished_at: r.finished_at,
        duration_ms: r.duration_ms,
        error: r.error,
        warnings: r.warnings,
        steps: steps_of_run(s, id, s.len() as int).map_values(|x: StepRowView| step_of(x)),
    }
}

impl StoreView {
    pub open spec fn run_begun(self, id: Seq<char>, row: RunRowView) -> StoreView {
        StoreView { runs: put(self.runs, id, row), ..self }
    }

    pub open spec fn run_recorded(
        self,
        id: Seq<char>,
        row: RunRowView,
        done: Seq<StepView>,
    ) -> StoreView {
        StoreView {
            runs: put(self.runs, id, row),
            steps: self.steps + rows_of_steps(id, done),
            ..self
        }
    }
}

pub open spec fn opt_detail(o: Option<RunDetail>) -> Option<DetailView> {
    match o {
        Some(d) => Some(d@),
        None => None,
    }
}

pub open spec fn summaries(v: Seq<RunSummary>) -> Seq<SummaryView> {
    v.map_values(|s: RunSummary| s@)
}

impl RunSummary {
    fn started_before(&self, other: &RunSummary) -> (r: bool)
        ensures
            r == text_lt(self@.started_at, other@.started_at),
    {
        comes_before(self.started_at.as_str(), other.started_at.as_str())
    }
}

fn insert_latest(v: &mut Vec<RunSummary>, x: RunSummary)
    ensures
        summaries(final(v)@) == add_latest(summaries(old(v)@), x@),
{
    let ghost all = summaries(v@);
    let mut i: usize = 0;
    assert(all.skip(0) =~= all);
    assert(add_latest(all, x@) =~= all.take(0) + add_latest(all.skip(0), x@));
    while i < v.len()
        invariant
            i <= v@.len(),
            all == summaries(v@),
            add_latest(all, x@) == all.take(i as int) + add_latest(all.skip(i as int), x@),
            v@ == old(v)@,
        decreases v@.len() - i,
    {
        let ghost rest = all.skip(i as int);
        assert(rest[0] == all[i as int]);
        assert(rest.drop_first() =~= all.skip(i as int + 1));
        if v[i].started_before(&x) {
            v.insert(i, x);
            assert(summaries(v@) =~= add_latest(all, x@));
            return ;
        }
        assert(add_latest(all, x@) =~= all.take(i as int + 1) + add_latest(
            all.skip(i as int + 1),
            x@,
        ));
        i = i + 1;
    }
    assert(all.skip(i as int) =~= Seq::<SummaryView>::empty());
    v.push(x);
    assert(summaries(v@) =~= add_latest(all, x@));
}

impl StepRow {
    fn copy(&self) -> (r: StepRow)
        ensures
            r@ == self@,
    {
        StepRow {
            run_id: self.run_id.clone(),
            seq: self.seq,
            block_id: self.block_id.clone(),
            block_type: self.block_type.clone(),
            status: self.status.clone(),
            duration_ms: self.duration_ms,
            error: copy_opt(&self.error),
        }
    }

    fn to_step(&self) -> (r: StepLog)
        ensures
            r@ == step_of(self@),
    {
        StepLog {
            block_id: self.block_id.clone(),
            block_type: self.block_type.clone(),
            status: self.status.clone(),
            duration_ms: if self.duration_ms < 0 {
                0
            } else {
                self.duration_ms as u128
            },
            error: copy_opt(&self.error),
        }
    }
}

fn insert_step(v: &mut Vec<StepRow>, x: StepRow)
    ensures
        step_rows(final(v)@) == add_step(step_rows(old(v)@), x@),
{
    let ghost all = step_rows(v@);
    let mut i: usize = v.len();
    assert(all.take(i as int) =~= all);
    assert(all.skip(i as int) =~= Seq::<StepRowView>::empty());
    assert(add_step(all, x@) =~= add_step(all.take(i as int), x@) + all.skip(i as int));
    while i > 0 && v[i - 1].seq > x.seq
        invariant
            i <= v@.len(),
            all == step_rows(v@),
            v@ == old(v)@,
            add_step(all, x@) == add_step(all.take(i as int), x@) + all.skip(i as int),
        decreases i,
    {
        let ghost head = all.take(i as int);
        assert(head.last() == all[i as int - 1]);
        assert(head.drop_last() =~= all.take(i as int - 1));
        assert(add_step(all, x@) =~= add_step(all.take(i as int - 1), x@) + all.skip(
            i as int - 1,
        ));
        i = i - 1;
    }
    v.insert(i, x);
    proof {
        let head = all.take(i as int);
        if i > 0 {
            assert(head.last() == all[i as int - 1]);
        }
        assert(add_step(head, x@) =~= head.push(x@));
        assert(step_rows(v@) =~= add_step(all, x@));
    }
}

impl ScenarioStore {
    /// Keeps a trace of a run that begins.
    pub fn begin_run(
        &mut self,
        id: &str,
        scenario_id: &str,
        profile_id: &str,
        triggered_by: &str,
        started_at: &str,
    )
        ensures
            final(self)@ == old(self)@.run_begun(
                id@,
                begun(scenario_id@, profile_id@, triggered_by@, started_at@),
            ),
            old(self).well_formed() ==> final(self).well_formed(),
    {
        let row = RunRow {
            scenario_id: scenario_id.to_owned(),
            profile_id: profile_id.to_owned(),
            triggered_by: triggered_by.to_owned(),
            status: "running".to_owned(),
            started_at: started_at.to_owned(),
            finished_at: String::new(),
            duration_ms: 0,
            error: None,
            warnings: Vec::new(),
            variables: TextMap::new(),
        };
        proof {
            assert(row@.finished_at =~= Seq::<char>::empty());
            assert(row@.warnings =~= Seq::<Seq<char>>::empty());
            assert(row@.variables =~= Seq::<(Seq<char>, JsonView)>::empty());
            lemma_values_by(self.runs@, row_view(), id@, row);
            if self.well_formed() {
                lemma_put_sorted(self@.runs, id@, row@);
            }
        }
        self.runs.insert(id.to_owned(), row);
    }

    /// Keeps a run that is over, in the place of what was kept under its id,
    /// and its steps.
    pub fn record_run(&mut self, run: &RunRecord)
        ensures
            final(self)@ == old(self)@.run_recorded(run.id@, row_of(*run), steps(run.steps@)),
            old(self).well_formed() ==> final(self).well_formed(),
    {
        let row = RunRow {
            scenario_id: run.scenario_id.clone(),
            profile_id: run.profile_id.clone(),
            triggered_by: run.triggered_by.clone(),
            status: run.status.clone(),
            started_at: run.started_at.clone(),
            finished_at: run.finished_at.clone(),
            duration_ms: to_i64(run.duration_ms),
            error: copy_opt(&run.error),
            warnings: copy_texts(&run.warnings),
            variables: crate::json::copy_map(&run.variables),
        };
        proof {
            lemma_values_by(self.runs@, row_view(), run.id@, row);
            if self.well_formed() {
                lemma_put_sorted(self@.runs, run.id@, row@);
            }
        }
        self.runs.insert(run.id.clone(), row);
        let ghost before = step_rows(self.steps@);
        let ghost all = rows_of_steps(run.id@, steps(run.steps@));
        let ghost mid = self@;
        let mut i: usize = 0;
        assert(before + all.take(0) =~= before);
        while i < run.steps.len()
            invariant
                i <= run.steps@.len(),
                all == rows_of_steps(run.id@, steps(run.steps@)),
                step_rows(self.steps@) == before + all.take(i as int),
                self@ == (StoreView { steps: step_rows(self.steps@), ..mid }),
            decreases run.steps@.len() - i,
        {
            let s = &run.steps[i];
            let r = StepRow {
                run_id: run.id.clone(),
                seq: i,
                block_id: s.block_id.clone(),
                block_type: s.block_type.clone(),
                status: s.status.clone(),
                duration_ms: to_i64(s.duration_ms),
                error: copy_opt(&s.error),
            };
            let ghost was = step_rows(self.steps@);
            self.steps.push(r);
            proof {
                assert(steps(run.steps@)[i as int] == s@);
                assert(r@ == all[i as int]);
                assert(step_rows(self.steps@) =~= was.push(r@));
                assert(before + all.take(i as int + 1) =~= (before + all.take(i as int)).push(
                    all[i as int],
                ));
            }
            i = i + 1;
        }
        assert(all.take(all.len() as int) =~= all);
    }

    /// Marks the runs that were left "running" as "interrupted", and says how
    /// many there were.
    pub fn recover_interrupted_runs(&mut self) -> (n: usize)
        ensures
            final(self)@ == (StoreView { runs: all_interrupted(old(self)@.runs), ..old(self)@ }),
            old(self).well_formed() ==> final(self).well_formed(),
            n == count_running(old(self)@.runs, old(self)@.runs.len() as int),
    {
        let ghost was = self@;
        let ghost f = |r: RunRowView| interrupted(r);
        let mut n: usize = 0;
        let mut i: usize = 0;
        while i < self.runs.entries.len()
            invariant
                i <= self.runs.entries@.len(),
                self.runs.entries@.len() == was.runs.len(),
                n <= i,
                n == count_running(was.runs, i as int),
                self@ == (StoreView { runs: self@.runs, ..was }),
                forall|j: int|
                    0 <= j < i ==> #[trigger] self@.runs[j] == (
                        was.runs[j].0,
                        interrupted(was.runs[j].1),
                    ),
                forall|j: int| i <= j < was.runs.len() ==> #[trigger] self@.runs[j] == was.runs[j],
            decreases self.runs.entries@.len() - i,
        {
            assert(self@.runs[i as int] == was.runs[i as int]);
            if same(self.runs.entries[i].1.status.as_str(), "running") {
                let ghost prior = self@.runs;
                let (k, old_row) = self.runs.entries.remove(i);
                let row = RunRow {
                    scenario_id: old_row.scenario_id,
                    profile_id: old_row.profile_id,
                    triggered_by: old_row.triggered_by,
                    status: "interrupted".to_owned(),
                    started_at: old_row.started_at,
                    finished_at: old_row.finished_at,
                    duration_ms: old_row.duration_ms,
                    error: old_row.error,
                    warnings: old_row.warnings,
                    variables: old_row.variables,
                };
                self.runs.entries.insert(i, (k, row));
                assert(self@.runs =~= prior.update(i as int, (prior[i as int].0, row@)));
                n = n + 1;
            }
            i = i + 1;
        }
        assert(self@.runs =~= all_interrupted(was.runs));
        proof {
            lemma_values_sorted(was.runs, f);
        }
        n
    }

    fn count_steps(&self, id: &str) -> (r: (i64, i64))
        requires
            self.steps@.len() <= i64::MAX,
        ensures
            r.0 == count_ok(self@.steps, id@, self@.steps.len() as int),
            r.1 == count_failed(self@.steps, id@, self@.steps.len() as int),
    {
        let mut ok: i64 = 0;
        let mut failed: i64 = 0;
        let mut i: usize = 0;
        while i < self.steps.len()
            invariant
                i <= self.steps@.len() <= i64::MAX,
                0 <= ok <= i,
                0 <= failed <= i,
                ok == count_ok(self@.steps, id@, i as int),
                failed == count_failed(self@.steps, id@, i as int),
            decreases self.steps@.len() - i,
        {
            let s = &self.steps[i];
            assert(self@.steps[i as int] == s@);
            if same(s.run_id.as_str(), id) {
                let st = s.status.as_str();
                if same(st, "ok") || same(st, "retried") || same(st, "dry_run") {
                    ok = ok + 1;
                }
                if same(st, "failed") {
                    failed = failed + 1;
                }
            }
            i = i + 1;
        }
        (ok, failed)
    }

    /// The latest runs, at most `limit` of them; all where it is negative.
    pub fn list_runs(&self, limit: i64) -> (r: Vec<RunSummary>)
        requires
            self@.steps.len() <= i64::MAX,
        ensures
            summaries(r@) == limited(
                latest_first(self@.runs, self@.steps, self@.runs.len() as int),
                limit,
            ),
    {
        let mut out: Vec<RunSummary> = Vec::new();
        let mut i: usize = 0;
        assert(summaries(out@) =~= Seq::<SummaryView>::empty());
        while i < self.runs.len()
            invariant
                i <= self.runs@.len(),
                self@.steps.len() <= i64::MAX,
                summaries(out@) == latest_first(self@.runs, self@.steps, i as int),
            decreases self.runs@.len() - i,
        {
            let id = self.runs.key_at(i);
            let row = self.runs.value_at(i);
            assert(self@.runs[i as int] == (id@, row@));
            let (ok, failed) = self.count_steps(id.as_str());
            let s = RunSummary {
                id: id.clone(),
                scenario_id: row.scenario_id.clone(),
                profile_id: row.profile_id.clone(),
                status: row.status.clone(),
                started_at: row.started_at.clone(),
                duration_ms: row.duration_ms,
                steps_ok: ok,
                steps_failed: failed,
            };
            insert_latest(&mut out, s);
            i = i + 1;
        }
        let ghost all = summaries(out@);
        assert(all.len() == out@.len());
        if limit >= 0 && out.len() as u64 > limit as u64 {
            let mut short: Vec<RunSummary> = out.split_off(limit as usize);
            assert(summaries(out@) =~= all.take(limit as int));
        }
        out
    }

    /// A run with its steps.
    pub fn get_run(&self, run_id: &str) -> (r: Option<RunDetail>)
        ensures
            opt_detail(r) == match lookup(self@.runs, run_id@) {
                Some(row) => Some(detail(run_id@, row, self@.steps)),
                None => None,
            },
    {
        proof {
            lemma_values_by(self.runs@, row_view(), run_id@, arbitrary());
        }
        match self.runs.get(run_id) {
            Some(row) => {
                let mut mine: Vec<StepRow> = Vec::new();
                let mut i: usize = 0;
                assert(step_rows(mine@) =~= Seq::<StepRowView>::empty());
                while i < self.steps.len()
                    invariant
                        i <= self.steps@.len(),
                        step_rows(mine@) == steps_of_run(self@.steps, run_id@, i as int),
                    decreases self.steps@.len() - i,
                {
                    assert(self@.steps[i as int] == self.steps@[i as int]@);
                    if same(self.steps[i].run_id.as_str(), run_id) {
                        insert_step(&mut mine, self.steps[i].copy());
                    }
                    i = i + 1;
                }
                let mut out: Vec<StepLog> = Vec::new();
                let ghost want = step_rows(mine@).map_values(|x: StepRowView| step_of(x));
                let mut k: usize = 0;
                while k < mine.len()
                    invariant
                        k <= mine@.len(),
                        want == step_rows(mine@).map_values(|x: StepRowView| step_of(x)),
                        steps(out@) =~= want.take(k as int),
                    decreases mine@.len() - k,
                {
                    let s = mine[k].to_step();
                    proof {
                        crate::model::lemma_steps_push(out@, s);
                    }
                    out.push(s);
                    k = k + 1;
                }
                assert(want.take(want.len() as int) =~= want);
                Some(
                    RunDetail {
                        id: run_id.to_owned(),
                        scenario_id: row.scenario_id.clone(),
                        profile_id: row.profile_id.clone(),
                        triggered_by: row.triggered_by.clone(),
                        status: row.status.clone(),
                        started_at: row.started_at.clone(),
                        finished_at: row.finished_at.clone(),
                        duration_ms: row.duration_ms,
                        error: copy_opt(&row.error),
                        warnings: copy_texts(&row.warnings),
                        steps: out,
                    },
                )
            },
            None => None,
        }
    }
}

/// A run recorded under an id that has no steps yet is found again as it was,
/// with its steps in their order.
pub proof fn lemma_recorded_is_found(
    s: StoreView,
    id: Seq<char>,
    row: RunRowView,
    done: Seq<StepView>,
)
    requires
        forall|i: int| 0 <= i < s.steps.len() ==> (#[trigger] s.steps[i]).run_id != id,
        forall|i: int| 0 <= i < done.len() ==> (#[trigger] done[i]).duration_ms <= i64::MAX,
    ensures
        lookup(s.run_recorded(id, row, done).runs, id) == Some(row),
        detail(id, row, s.run_recorded(id, row, done).steps).steps == done,
{
    lemma_lookup_put(s.runs, id, row, id);
    let all = s.steps + rows_of_steps(id, done);
    lemma_no_steps(all, s.steps.len() as int, id);
    lemma_own_steps(s.steps, id, done, done.len() as int);
    let got = steps_of_run(all, id, all.len() as int).map_values(|x: StepRowView| step_of(x));
    assert(rows_of_steps(id, done).take(done.len() as int) =~= rows_of_steps(id, done));
    assert forall|i: int| 0 <= i < done.len() implies step_of(step_row(id, i, done[i])) == done[i]
        by {
        assert(done[i].duration_ms <= i64::MAX);
    }
    assert(got =~= done);
}

proof fn lemma_no_steps(s: Seq<StepRowView>, n: int, id: Seq<char>)
    requires
        0 <= n <= s.len(),
        forall|i: int| 0 <= i < n ==> (#[trigger] s[i]).run_id != id,
    ensures
        steps_of_run(s, id, n) == Seq::<StepRowView>::empty(),
    decreases n,
{
    if n > 0 {
        lemma_no_steps(s, n - 1, id);
    }
}

proof fn lemma_own_steps(before: Seq<StepRowView>, id: Seq<char>, done: Seq<StepView>, n: int)
    requires
        0 <= n <= done.len(),
        forall|i: int| 0 <= i < before.len() ==> (#[trigger] before[i]).run_id != id,
    ensures
        steps_of_run(before + rows_of_steps(id, done), id, before.len() + n) == rows_of_steps(
            id,
            done,
        ).take(n),
    decreases n,
{
    let all = before + rows_of_steps(id, done);
    if n == 0 {
        assert forall|i: int| 0 <= i < before.len() implies (#[trigger] all[i]).run_id != id by {
            assert(all[i] == before[i]);
        }
        lemma_no_steps(all, before.len() as int, id);
        assert(rows_of_steps(id, done).take(0) =~= Seq::<StepRowView>::empty());
    } else {
        lemma_own_steps(before, id, done, n - 1);
        let x = all[before.len() + n - 1];
        assert(x == step_row(id, n - 1, done[n - 1]));
        let prior = rows_of_steps(id, done).take(n - 1);
        if n > 1 {
            assert(prior.last().seq == n - 2);
        }
        assert(add_step(prior, x) =~= prior.push(x));
        assert(prior.push(x) =~= rows_of_steps(id, done).take(n));
    }
}

/// After a recovery no run is left "running", and a second one finds none.
pub proof fn lemma_recovered(m: Seq<(Seq<char>, RunRowView)>, n: int)
    requires
        0 <= n <= m.len(),
    ensures
        count_running(all_interrupted(m), n) == 0,
    decreases n,
{
    reveal_strlit("running");
    reveal_strlit("interrupted");
    assert("running"@.len() == 7 && "interrupted"@.len() == 11);
    if n > 0 {
        lemma_recovered(m, n - 1);
    }
}

} // verus!
