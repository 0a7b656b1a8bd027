//! The manager: the runs that are under way, the documents that scenarios and
//! schedules refer to, and what is kept of a run when it is over.
use vstd::prelude::*;

use crate::ai::{AiProviderConfig, Provider};
use crate::clock::{stamped, valid_time, UtcTime};
use crate::context::{dataset_rows, ContextView, NamesView, RunContext, RunNames};
use crate::dataset::{build_seed, rows_of, seed, Dataset, Row};
use crate::json::copy_map;
use crate::map::{
    every, lemma_filter_sorted, lemma_lookup_entries, lemma_lookup_without, lemma_put_in_place,
    lemma_values_by, lemma_values_without, lemma_without_sorted, lookup, put, sorted, values_by,
    without, TextMap,
};
use crate::model::{
    blocks, copy_opt, copy_steps, lemma_block_view, steps, Block, BlockView, BindingView,
    DataBinding, DataMode, Scenario, ScenarioView, StepLog, StepView,
};
use crate::scheduler::{ProfileAssignment, Schedule};
use crate::store::{
    all_interrupted, begun, count_running, row_of, RunRecord, RunRowView, ScenarioStore, StoreView,
};
use crate::text::{
    contains, copy_texts, ends, has_part, has_suffix, has_text, join2, join3, lemma_filter_elem,
    lemma_texts_push, opt_text, same, texts,
};
use crate::value::{
    entries, lemma_array_view, lemma_object_view, lemma_values_push, values, Json, JsonView,
};

verus! {

broadcast use {lemma_array_view, lemma_object_view};

/// A run that is under way.
#[derive(Debug, PartialEq, Eq)]
pub struct ActiveRun {
    pub scenario_id: String,
    pub profile_id: String,
    pub started_at: String,
    /// Whether it is to stop.
    pub cancelled: bool,
}

/// A run that is under way, to be shown.
#[derive(Debug, PartialEq, Eq)]
pub struct RunInfo {
    pub run_id: String,
    pub scenario_id: String,
    pub profile_id: String,
    pub started_at: String,
}

/// What the scheduler remembers of a schedule.
#[derive(Debug, PartialEq, Eq)]
pub struct ScheduleState {
    /// When it ran last, in seconds; zero where it never did.
    pub last_run_epoch: u64,
    /// The day that `runs_today` counts for.
    pub day: String,
    pub runs_today: u32,
    pub last_used_profile_id: Option<String>,
    /// When each profile was used last, in seconds.
    pub profile_last_used: TextMap<u64>,
}

pub struct StateView {
    pub last_run_epoch: u64,
    pub day: Seq<char>,
    pub runs_today: u32,
    pub last_used_profile_id: Option<Seq<char>>,
    pub profile_last_used: Seq<(Seq<char>, u64)>,
}

impl ScheduleState {
    pub open spec fn view(&self) -> StateView {
        StateView {
            last_run_epoch: self.last_run_epoch,
            day: self.day@,
            runs_today: self.runs_today,
            last_used_profile_id: opt_text(self.last_used_profile_id),
            profile_last_used: self.profile_last_used@,
        }
    }
}

impl StateView {
    pub open spec fn fresh() -> StateView {
        StateView {
            last_run_epoch: 0,
            day: Seq::empty(),
            runs_today: 0,
            last_used_profile_id: None,
            profile_last_used: Seq::empty(),
        }
    }
}

impl Default for ScheduleState {
    fn default() -> (r: ScheduleState)
        ensures
            r@ == StateView::fresh(),
    {
        let r = ScheduleState {
            last_run_epoch: 0,
            day: String::new(),
            runs_today: 0,
            last_used_profile_id: None,
            profile_last_used: TextMap::new(),
        };
        assert(r@.day =~= Seq::<char>::empty());
        r
    }
}

/// The manager of scenarios.
pub struct ScenarioManager {
    pub store: ScenarioStore,
    pub running: TextMap<ActiveRun>,
    pub sched_state: TextMap<ScheduleState>,
    /// How often each scenario has taken a row of each dataset, under
    /// "scenario:dataset".
    pub ds_cursors: TextMap<u64>,
    pub schedules: TextMap<Schedule>,
    pub assignments: TextMap<ProfileAssignment>,
    pub datasets: TextMap<Dataset>,
    /// The provider of AI blocks, without its key.
    pub ai_config: Option<AiProviderConfig>,
    /// The key, which is kept apart.
    pub ai_key: Option<String>,
}

/// The profiles that a schedule remembers are in order, each once.
pub open spec fn state_in_order() -> spec_fn(ScheduleState) -> bool {
    |s: ScheduleState| sorted(s.profile_last_used@)
}

impl ScenarioManager {
    /// Everything that is kept by its id is kept in the order of the ids, each
    /// id once.
    pub open spec fn well_formed(&self) -> bool {
        &&& self.store.well_formed()
        &&& sorted(self.running@)
        &&& sorted(self.sched_state@)
        &&& every(self.sched_state@, state_in_order())
        &&& sorted(self.ds_cursors@)
        &&& sorted(self.schedules@)
        &&& sorted(self.assignments@)
        &&& sorted(self.datasets@)
    }
}

/// Everything but the given parts is as it was.
pub open spec fn rest_same(a: ScenarioManager, b: ScenarioManager) -> bool {
    &&& a.schedules == b.schedules
    &&& a.assignments == b.assignments
    &&& a.datasets == b.datasets
    &&& a.ai_config == b.ai_config
    &&& a.ai_key == b.ai_key
}

// ---------------------------------------------------------------------------
// Places
// ---------------------------------------------------------------------------

impl ScenarioManager {
    /// A manager with nothing in it.
    pub fn new(data_dir: &Vec<String>) -> (r: ScenarioManager)
        ensures
            r.store@ == StoreView::empty_at(texts(data_dir@).push("scenarios"@)),
            r.running@.len() == 0,
            r.sched_state@.len() == 0,
            r.ds_cursors@.len() == 0,
            r.schedules@.len() == 0,
            r.assignments@.len() == 0,
            r.datasets@.len() == 0,
            r.ai_config is None,
            r.ai_key is None,
            r.well_formed(),
    {
        ScenarioManager {
            store: ScenarioStore::default_location(data_dir),
            running: TextMap::new(),
            sched_state: TextMap::new(),
            ds_cursors: TextMap::new(),
            schedules: TextMap::new(),
            assignments: TextMap::new(),
            datasets: TextMap::new(),
            ai_config: None,
            ai_key: None,
        }
    }

    pub fn store(&self) -> (r: &ScenarioStore)
        ensures
            *r == self.store,
    {
        &self.store
    }

    fn under(&self, name: &str) -> (r: Vec<String>)
        ensures
            texts(r@) == self.store@.dir.push(name@),
    {
        let mut p = copy_texts(&self.store.dir);
        let n = name.to_owned();
        proof {
            lemma_texts_push(p@, n);
        }
        p.push(n);
        p
    }

    /// The place of the scenarios.
    pub fn scenarios_dir(&self) -> (r: Vec<String>)
        ensures
            texts(r@) == self.store@.dir,
    {
        copy_texts(&self.store.dir)
    }

    pub fn ai_config_path(&self) -> (r: Vec<String>)
        ensures
            texts(r@) == self.store@.dir.push("ai_provider.json"@),
    {
        self.under("ai_provider.json")
    }

    pub fn datasets_dir(&self) -> (r: Vec<String>)
        ensures
            texts(r@) == self.store@.dir.push("datasets"@),
    {
        self.under("datasets")
    }

    pub fn cursors_path(&self) -> (r: Vec<String>)
        ensures
            texts(r@) == self.store@.dir.push("datasets"@).push("_cursors.json"@),
    {
        let mut p = self.under("datasets");
        let n = "_cursors.json".to_owned();
        proof {
            lemma_texts_push(p@, n);
        }
        p.push(n);
        p
    }

    pub fn schedules_dir(&self) -> (r: Vec<String>)
        ensures
            texts(r@) == self.store@.dir.push("schedules"@),
    {
        self.under("schedules")
    }

    pub fn assignments_dir(&self) -> (r: Vec<String>)
        ensures
            texts(r@) == self.store@.dir.push("assignments"@),
    {
        self.under("assignments")
    }
}

/// The name of the file that holds a document.
pub fn document_file(id: &str) -> (r: String)
    ensures
        r@ == id@ + ".json"@,
{
    join2(id, ".json")
}

// ---------------------------------------------------------------------------
// The AI provider
// ---------------------------------------------------------------------------

pub struct ConfigView {
    pub provider: Provider,
    pub model: Seq<char>,
    pub api_key: Seq<char>,
    pub base_url: Option<Seq<char>>,
    pub max_tokens: u32,
    pub temperature: crate::value::NumberView,
}

impl AiProviderConfig {
    pub open spec fn view(&self) -> ConfigView {
        ConfigView {
            provider: self.provider,
            model: self.model@,
            api_key: self.api_key@,
            base_url: opt_text(self.base_url),
            max_tokens: self.max_tokens,
            temperature: self.temperature@,
        }
    }

    fn with_key(&self, key: &str) -> (r: AiProviderConfig)
        ensures
            r@ == (ConfigView { api_key: key@, ..self@ }),
    {
        AiProviderConfig {
            provider: self.provider,
            model: self.model.clone(),
            api_key: key.to_owned(),
            base_url: copy_opt(&self.base_url),
            max_tokens: self.max_tokens,
            temperature: self.temperature.copy(),
        }
    }
}

pub open spec fn opt_config(o: Option<AiProviderConfig>) -> Option<ConfigView> {
    match o {
        Some(c) => Some(c@),
        None => None,
    }
}

/// The settings of the provider with the key that is kept apart.
pub open spec fn config_with_key(c: Option<ConfigView>, key: Option<Seq<char>>) -> Option<
    ConfigView,
> {
    match c {
        Some(c) => match key {
            Some(k) => Some(ConfigView { api_key: k, ..c }),
            None => Some(c),
        },
        None => None,
    }
}

impl ScenarioManager {
    /// The settings of the provider, its key among them; none where none are
    /// set.
    pub fn get_ai_config(&self) -> (r: Option<AiProviderConfig>)
        ensures
            opt_config(r) == config_with_key(opt_config(self.ai_config), opt_text(self.ai_key)),
    {
        match &self.ai_config {
            Some(c) => match &self.ai_key {
                Some(k) => Some(c.with_key(k.as_str())),
                None => Some(c.with_key(c.api_key.as_str())),
            },
            None => None,
        }
    }

    /// Sets the provider. The key is kept apart from the other settings; an
    /// empty one leaves the key that is there.
    pub fn set_ai_config(&mut self, cfg: &AiProviderConfig)
        ensures
            opt_config(final(self).ai_config) == Some(
                ConfigView { api_key: Seq::empty(), ..cfg@ },
            ),
            opt_text(final(self).ai_key) == if cfg@.api_key.len() > 0 {
                Some(cfg@.api_key)
            } else {
                opt_text(old(self).ai_key)
            },
            final(self).store == old(self).store,
            final(self).running == old(self).running,
            final(self).sched_state == old(self).sched_state,
            final(self).ds_cursors == old(self).ds_cursors,
            final(self).schedules == old(self).schedules,
            final(self).assignments == old(self).assignments,
            final(self).datasets == old(self).datasets,
            old(self).well_formed() ==> final(self).well_formed(),
    {
        proof {
            reveal_strlit("");
            assert(""@ =~= Seq::<char>::empty());
        }
        self.ai_config = Some(cfg.with_key(""));
        if !cfg.api_key.as_str().is_empty() {
            self.ai_key = Some(cfg.api_key.clone());
        }
    }

    /// Forgets the provider and its key.
    pub fn clear_ai_config(&mut self)
        ensures
            final(self).ai_config is None,
            final(self).ai_key is None,
            final(self).store == old(self).store,
            final(self).running == old(self).running,
            final(self).sched_state == old(self).sched_state,
            final(self).ds_cursors == old(self).ds_cursors,
            final(self).schedules == old(self).schedules,
            final(self).assignments == old(self).assignments,
            final(self).datasets == old(self).datasets,
            old(self).well_formed() ==> final(self).well_formed(),
    {
        self.ai_config = None;
        self.ai_key = None;
    }
}

/// Settings that were set with a key are read back as they were set. Set
/// without one, they are read back with the key that was there.
pub proof fn lemma_config_read_back(set: ConfigView, key_before: Option<Seq<char>>)
    ensures
        ({
            let key = if set.api_key.len() > 0 {
                Some(set.api_key)
            } else {
                key_before
            };
            let got = config_with_key(Some(ConfigView { api_key: Seq::empty(), ..set }), key);
            &&& set.api_key.len() > 0 ==> got == Some(set)
            &&& set.api_key.len() == 0 && key_before is Some ==> got == Some(
                ConfigView { api_key: key_before->0, ..set },
            )
            &&& set.api_key.len() == 0 && key_before is None ==> got == Some(set)
        }),
{
    if set.api_key.len() == 0 {
        assert(set.api_key =~= Seq::<char>::empty());
    }
}

// ---------------------------------------------------------------------------
// Runs that are under way
// ---------------------------------------------------------------------------

pub struct InfoView {
    pub run_id: Seq<char>,
    pub scenario_id: Seq<char>,
    pub profile_id: Seq<char>,
    pub started_at: Seq<char>,
}

impl RunInfo {
    pub open spec fn view(&self) -> InfoView {
        InfoView {
            run_id: self.run_id@,
            scenario_id: self.scenario_id@,
            profile_id: self.profile_id@,
            started_at: self.started_at@,
        }
    }
}

pub open spec fn infos(v: Seq<RunInfo>) -> Seq<InfoView> {
    v.map_values(|i: RunInfo| i@)
}

pub open spec fn info_of(id: Seq<char>, r: ActiveRun) -> InfoView {
    InfoView {
        run_id: id,
        scenario_id: r.scenario_id@,
        profile_id: r.profile_id@,
        started_at: r.started_at@,
    }
}

/// Some run that is under way drives the profile.
pub open spec fn is_busy(running: Seq<(Seq<char>, ActiveRun)>, p: Seq<char>) -> bool {
    exists|i: int| 0 <= i < running.len() && (#[trigger] running[i]).1.profile_id@ == p
}

/// The run with its flag set.
pub open spec fn cancelled(r: ActiveRun) -> ActiveRun {
    ActiveRun { cancelled: true, ..r }
}

impl ScenarioManager {
    /// The runs that are under way.
    pub fn active_runs(&self) -> (r: Vec<RunInfo>)
        ensures
            infos(r@) == self.running@.map_values(
                |e: (Seq<char>, ActiveRun)| info_of(e.0, e.1),
            ),
    {
        let ghost want = self.running@.map_values(|e: (Seq<char>, ActiveRun)| info_of(e.0, e.1));
        let mut out: Vec<RunInfo> = Vec::new();
        let mut i: usize = 0;
        while i < self.running.len()
            invariant
                i <= self.running@.len(),
                want == self.running@.map_values(
                    |e: (Seq<char>, ActiveRun)| info_of(e.0, e.1),
                ),
                infos(out@) =~= want.take(i as int),
            decreases self.running@.len() - i,
        {
            let r = self.running.value_at(i);
            let x = RunInfo {
                run_id: self.running.key_at(i).clone(),
                scenario_id: r.scenario_id.clone(),
                profile_id: r.profile_id.clone(),
                started_at: r.started_at.clone(),
            };
            let ghost before = infos(out@);
            out.push(x);
            assert(infos(out@) =~= before.push(x@));
            i = i + 1;
        }
        assert(want.take(want.len() as int) =~= want);
        out
    }

    /// Tells a run to stop. Says whether there is one.
    pub fn cancel_run(&mut self, run_id: &str) -> (r: bool)
        ensures
            r == (lookup(old(self).running@, run_id@) is Some),
            r ==> final(self).running@ == put(
                old(self).running@,
                run_id@,
                cancelled(lookup(old(self).running@, run_id@)->0),
            ),
            !r ==> final(self).running@ == old(self).running@,
            final(self).store == old(self).store,
            final(self).sched_state == old(self).sched_state,
            final(self).ds_cursors == old(self).ds_cursors,
            rest_same(*final(self), *old(self)),
            old(self).well_formed() ==> final(self).well_formed(),
    {
        match self.running.get(run_id) {
            Some(a) => {
                let c = ActiveRun {
                    scenario_id: a.scenario_id.clone(),
                    profile_id: a.profile_id.clone(),
                    started_at: a.started_at.clone(),
                    cancelled: true,
                };
                self.running.insert(run_id.to_owned(), c);
                true
            },
            None => false,
        }
    }

    /// Whether a run has been told to stop.
    pub fn is_cancelled(&self, run_id: &str) -> (r: bool)
        ensures
            r == match lookup(self.running@, run_id@) {
                Some(a) => a.cancelled,
                None => false,
            },
    {
        match self.running.get(run_id) {
            Some(a) => a.cancelled,
            None => false,
        }
    }

    /// Marks the runs that an earlier session left "running" as interrupted,
    /// and says how many there were.
    pub fn recover_interrupted_runs(&mut self) -> (n: usize)
        ensures
            final(self).store@ == (StoreView {
                runs: all_interrupted(old(self).store@.runs),
                ..old(self).store@
            }),
            n == count_running(old(self).store@.runs, old(self).store@.runs.len() as int),
            final(self).running == old(self).running,
            final(self).sched_state == old(self).sched_state,
            final(self).ds_cursors == old(self).ds_cursors,
            rest_same(*final(self), *old(self)),
            old(self).well_formed() ==> final(self).well_formed(),
    {
        self.store.recover_interrupted_runs()
    }

    /// The profiles that runs are under way on, each once.
    pub fn busy_profiles(&self) -> (r: Vec<String>)
        ensures
            texts(r@).no_duplicates(),
            forall|p: Seq<char>| #[trigger]
                texts(r@).contains(p) <==> is_busy(self.running@, p),
    {
        let mut out: Vec<String> = Vec::new();
        let mut i: usize = 0;
        while i < self.running.len()
            invariant
                i <= self.running@.len(),
                texts(out@).no_duplicates(),
                forall|p: Seq<char>| #[trigger]
                    texts(out@).contains(p) <==> is_busy(self.running@.take(i as int), p),
            decreases self.running@.len() - i,
        {
            let p = &self.running.value_at(i).profile_id;
            let ghost before = texts(out@);
            let ghost m = self.running@;
            if !has_text(&out, p.as_str()) {
                proof {
                    lemma_texts_push(out@, *p);
                }
                out.push(p.clone());
            }
            proof {
                assert forall|q: Seq<char>| #[trigger] texts(out@).contains(q) <==> is_busy(
                    m.take(i as int + 1),
                    q,
                ) by {
                    let t = m.take(i as int + 1);
                    let s = m.take(i as int);
                    assert(t[i as int] == m[i as int]);
                    if is_busy(s, q) {
                        let k = choose|k: int| 0 <= k < s.len() && s[k].1.profile_id@ == q;
                        assert(t[k] == s[k]);
                        assert(is_busy(t, q));
                    }
                    if is_busy(t, q) {
                        let k = choose|k: int| 0 <= k < t.len() && t[k].1.profile_id@ == q;
                        if k < i {
                            assert(s[k] == t[k]);
                            assert(is_busy(s, q));
                        } else {
                            assert(q == p@);
                        }
                    }
                    if before.contains(q) {
                        let k = choose|k: int| 0 <= k < before.len() && before[k] == q;
                        assert(texts(out@)[k] == q);
                    }
                    if q == p@ {
                        assert(texts(out@).contains(q)) by {
                            if !before.contains(q) {
                                assert(texts(out@)[before.len() as int] == q);
                            }
                        }
                        assert(t[i as int].1.profile_id@ == q);
                    }
                    if texts(out@).contains(q) && q != p@ {
                        let k = choose|k: int| 0 <= k < texts(out@).len() && texts(out@)[k] == q;
                        assert(k < before.len());
                        assert(before[k] == q);
                    }
                }
            }
            i = i + 1;
        }
        assert(self.running@.take(self.running@.len() as int) =~= self.running@);
        out
    }
}

// ---------------------------------------------------------------------------
// Recording runs
// ---------------------------------------------------------------------------

/// What became of a run: failed where a step failed, else stopped where a
/// warning says so, else a success.
pub open spec fn run_status(s: Seq<StepView>, warnings: Seq<Seq<char>>) -> Seq<char> {
    if exists|i: int| 0 <= i < s.len() && (#[trigger] s[i]).status == "failed"@ {
        "failed"@
    } else if exists|i: int|
        0 <= i < warnings.len() && (contains(#[trigger] warnings[i], "stopped"@) || contains(
            warnings[i],
            "cap"@,
        )) {
        "stopped"@
    } else {
        "success"@
    }
}

/// What became of a run.
pub fn status_of_run(s: &Vec<StepLog>, warnings: &Vec<String>) -> (r: String)
    ensures
        r@ == run_status(steps(s@), texts(warnings@)),
{
    let ghost all = steps(s@);
    let mut i: usize = 0;
    while i < s.len()
        invariant
            i <= s@.len(),
            all == steps(s@),
            forall|j: int| 0 <= j < i ==> (#[trigger] all[j]).status != "failed"@,
        decreases s@.len() - i,
    {
        if same(s[i].status.as_str(), "failed") {
            assert(all[i as int].status == "failed"@);
            return "failed".to_owned();
        }
        i = i + 1;
    }
    let ghost ws = texts(warnings@);
    let mut k: usize = 0;
    while k < warnings.len()
        invariant
            k <= warnings@.len(),
            all == steps(s@),
            ws == texts(warnings@),
            forall|j: int| 0 <= j < all.len() ==> (#[trigger] all[j]).status != "failed"@,
            forall|j: int|
                0 <= j < k ==> !contains(#[trigger] ws[j], "stopped"@) && !contains(ws[j], "cap"@),
        decreases warnings@.len() - k,
    {
        assert(ws[k as int] == warnings@[k as int]@);
        if has_part(warnings[k].as_str(), "stopped") || has_part(warnings[k].as_str(), "cap") {
            return "stopped".to_owned();
        }
        k = k + 1;
    }
    "success".to_owned()
}

/// A step as JSON; an error only where there is one.
pub open spec fn step_json(s: StepView) -> JsonView {
    let base = JsonView::empty().with("block_id"@, JsonView::Str(s.block_id)).with(
        "block_type"@,
        JsonView::Str(s.block_type),
    ).with("status"@, JsonView::Str(s.status)).with(
        "duration_ms"@,
        JsonView::from_uint(s.duration_ms as u64),
    );
    match s.error {
        Some(e) => base.with("error"@, JsonView::Str(e)),
        None => base,
    }
}

/// The steps as JSON; null where a duration is too long for a JSON number.
pub open spec fn steps_json(s: Seq<StepView>) -> JsonView {
    if forall|i: int| 0 <= i < s.len() ==> (#[trigger] s[i]).duration_ms <= u64::MAX {
        JsonView::Array(s.map_values(|x: StepView| step_json(x)))
    } else {
        JsonView::Null
    }
}

/// The summary of a run that is over.
pub open spec fn run_summary(
    run_id: Seq<char>,
    scenario_id: Seq<char>,
    status: Seq<char>,
    s: Seq<StepView>,
    variables: Row,
    warnings: Seq<Seq<char>>,
) -> JsonView {
    JsonView::empty().with("run_id"@, JsonView::Str(run_id)).with(
        "scenario_id"@,
        JsonView::Str(scenario_id),
    ).with("status"@, JsonView::Str(status)).with("steps"@, steps_json(s)).with(
        "variables"@,
        JsonView::Object(variables),
    ).with(
        "warnings"@,
        JsonView::Array(warnings.map_values(|t: Seq<char>| JsonView::Str(t))),
    )
}

fn step_to_json(s: &StepLog) -> (r: Json)
    requires
        s.duration_ms <= u64::MAX,
    ensures
        r@ == step_json(s@),
{
    let base = Json::empty().with("block_id", Json::Str(s.block_id.clone())).with(
        "block_type",
        Json::Str(s.block_type.clone()),
    ).with("status", Json::Str(s.status.clone())).with(
        "duration_ms",
        Json::from_uint(s.duration_ms as u64),
    );
    match &s.error {
        Some(e) => base.with("error", Json::Str(e.clone())),
        None => base,
    }
}

fn steps_to_json(s: &Vec<StepLog>) -> (r: Json)
    ensures
        r@ == steps_json(steps(s@)),
{
    let ghost all = steps(s@);
    let mut out: Vec<Json> = Vec::new();
    let mut i: usize = 0;
    while i < s.len()
        invariant
            i <= s@.len(),
            all == steps(s@),
            forall|j: int| 0 <= j < i ==> (#[trigger] all[j]).duration_ms <= u64::MAX,
            values(out@) =~= all.take(i as int).map_values(|x: StepView| step_json(x)),
        decreases s@.len() - i,
    {
        assert(all[i as int] == s@[i as int]@);
        if s[i].duration_ms > 0xffff_ffff_ffff_ffff {
            return Json::Null;
        }
        let x = step_to_json(&s[i]);
        proof {
            lemma_values_push(out@, x);
        }
        out.push(x);
        i = i + 1;
    }
    assert(all.take(all.len() as int) =~= all);
    Json::Array(out)
}

/// A run that is over, but for what became of it.
pub struct Finished {
    pub run_id: String,
    pub scenario_id: String,
    pub profile_id: String,
    pub triggered_by: String,
    pub started_at: String,
    pub finished_at: String,
    /// The time between the two, in milliseconds.
    pub elapsed_ms: i64,
}

/// The record of a run that is over.
pub open spec fn record_view(f: Finished, c: ContextView) -> RunRowView {
    RunRowView {
        scenario_id: f.scenario_id@,
        profile_id: f.profile_id@,
        triggered_by: f.triggered_by@,
        status: run_status(c.step_logs, c.warnings),
        started_at: f.started_at@,
        finished_at: f.finished_at@,
        duration_ms: if f.elapsed_ms < 0 {
            0
        } else {
            f.elapsed_ms
        },
        error: None,
        warnings: c.warnings,
        variables: c.variables,
    }
}

/// `uuid::Uuid::new_v4`, written as text: an identifier made from random bits.
/// Nothing is claimed of it.
#[verifier::external_body]
pub(crate) fn random_id() -> String {
    uuid::Uuid::new_v4().to_string()
}

impl ScenarioManager {
    /// Enters a run that begins, under the given id.
    pub fn begin_run_as(
        &mut self,
        run_id: &str,
        scenario_id: &str,
        profile_id: &str,
        triggered_by: &str,
        started_at: &str,
    )
        ensures
            exists|a: ActiveRun|
                final(self).running@ == #[trigger] put(old(self).running@, run_id@, a)
                    && a.scenario_id@ == scenario_id@ && a.profile_id@ == profile_id@
                    && a.started_at@ == started_at@ && !a.cancelled,
            final(self).store@ == old(self).store@.run_begun(
                run_id@,
                begun(scenario_id@, profile_id@, triggered_by@, started_at@),
            ),
            final(self).sched_state == old(self).sched_state,
            final(self).ds_cursors == old(self).ds_cursors,
            rest_same(*final(self), *old(self)),
            old(self).well_formed() ==> final(self).well_formed(),
    {
        let a = ActiveRun {
            scenario_id: scenario_id.to_owned(),
            profile_id: profile_id.to_owned(),
            started_at: started_at.to_owned(),
            cancelled: false,
        };
        self.running.insert(run_id.to_owned(), a);
        self.store.begin_run(run_id, scenario_id, profile_id, triggered_by, started_at);
    }

    /// Enters a run that begins, under a new id.
    pub fn begin_run(
        &mut self,
        scenario_id: &str,
        profile_id: &str,
        triggered_by: &str,
        started_at: &str,
    ) -> (run_id: String)
        ensures
            exists|a: ActiveRun|
                final(self).running@ == #[trigger] put(old(self).running@, run_id@, a)
                    && a.scenario_id@ == scenario_id@ && a.profile_id@ == profile_id@
                    && a.started_at@ == started_at@ && !a.cancelled,
            final(self).store@ == old(self).store@.run_begun(
                run_id@,
                begun(scenario_id@, profile_id@, triggered_by@, started_at@),
            ),
            final(self).sched_state == old(self).sched_state,
            final(self).ds_cursors == old(self).ds_cursors,
            rest_same(*final(self), *old(self)),
            old(self).well_formed() ==> final(self).well_formed(),
    {
        let id = random_id();
        self.begin_run_as(id.as_str(), scenario_id, profile_id, triggered_by, started_at);
        id
    }

    /// Takes a run out that is over, keeps it, and sums it up.
    pub fn finish_run(&mut self, f: &Finished, ctx: &RunContext) -> (r: Json)
        ensures
            r@ == run_summary(
                f.run_id@,
                f.scenario_id@,
                run_status(ctx@.step_logs, ctx@.warnings),
                ctx@.step_logs,
                ctx@.variables,
                ctx@.warnings,
            ),
            final(self).running@ == without(old(self).running@, f.run_id@),
            final(self).store@ == old(self).store@.run_recorded(
                f.run_id@,
                record_view(*f, ctx@),
                ctx@.step_logs,
            ),
            final(self).sched_state == old(self).sched_state,
            final(self).ds_cursors == old(self).ds_cursors,
            rest_same(*final(self), *old(self)),
            old(self).well_formed() ==> final(self).well_formed(),
    {
        let _ = self.running.remove(f.run_id.as_str());
        let status = status_of_run(&ctx.step_logs, &ctx.warnings);
        let duration_ms: u128 = if f.elapsed_ms < 0 {
            0
        } else {
            f.elapsed_ms as u128
        };
        let record = RunRecord {
            id: f.run_id.clone(),
            scenario_id: f.scenario_id.clone(),
            profile_id: f.profile_id.clone(),
            triggered_by: f.triggered_by.clone(),
            status: status.clone(),
            started_at: f.started_at.clone(),
            finished_at: f.finished_at.clone(),
            duration_ms,
            error: None,
            warnings: copy_texts(&ctx.warnings),
            variables: copy_map(&ctx.variables),
            steps: copy_steps(&ctx.step_logs),
        };
        assert(row_of(record) == record_view(*f, ctx@));
        self.store.record_run(&record);
        Json::empty().with("run_id", Json::Str(f.run_id.clone())).with(
            "scenario_id",
            Json::Str(f.scenario_id.clone()),
        ).with("status", Json::Str(status)).with("steps", steps_to_json(&ctx.step_logs)).with(
            "variables",
            Json::Object(copy_map(&ctx.variables)),
        ).with("warnings", Json::text_array(&ctx.warnings))
    }
}

/// A run that hit a limit or was stopped by a failure is never counted as a
/// success.
pub proof fn lemma_stopped_is_no_success(s: Seq<StepView>, warnings: Seq<Seq<char>>, i: int)
    requires
        0 <= i < warnings.len(),
        warnings[i] == "Run stopped on error"@ || exists|c: Seq<char>| warnings[i] == #[trigger] (
        "Run hit cap: "@ + c),
    ensures
        run_status(s, warnings) != "success"@,
{
    reveal_strlit("Run stopped on error");
    reveal_strlit("Run hit cap: ");
    reveal_strlit("stopped");
    reveal_strlit("cap");
    reveal_strlit("failed");
    reveal_strlit("success");
    assert("success"@.len() == 7 && "stopped"@.len() == 7 && "failed"@.len() == 6);
    assert("success"@[1] == 'u' && "stopped"@[1] == 't');
    let w = warnings[i];
    if w == "Run stopped on error"@ {
        assert(w.subrange(4, 11) =~= "stopped"@);
        assert(crate::text::occurs(w, "stopped"@, 4));
        assert(contains(w, "stopped"@));
    } else {
        let c = choose|c: Seq<char>| w == #[trigger] ("Run hit cap: "@ + c);
        assert(w.subrange(8, 11) =~= "cap"@);
        assert(crate::text::occurs(w, "cap"@, 8));
        assert(contains(w, "cap"@));
    }
}

// ---------------------------------------------------------------------------
// Datasets
// ---------------------------------------------------------------------------

/// A block refers to this dataset; the empty text where it refers to none.
pub open spec fn dataset_named(b: BlockView) -> Seq<char> {
    if b.block_type == "pick_row"@ || b.block_type == "load_dataset"@ {
        match b.params.field_str("dataset_id"@) {
            Some(id) => id,
            None => Seq::empty(),
        }
    } else {
        Seq::empty()
    }
}

pub open spec fn add_name(out: Seq<Seq<char>>, id: Seq<char>) -> Seq<Seq<char>> {
    if id.len() == 0 || out.contains(id) {
        out
    } else {
        out.push(id)
    }
}

/// The datasets that the first `n` blocks refer to, with what is inside them,
/// behind `out`, each once.
pub open spec fn datasets_in(bs: Seq<BlockView>, n: nat, out: Seq<Seq<char>>) -> Seq<Seq<char>>
    decreases bs, n,
{
    if n == 0 || n > bs.len() {
        out
    } else {
        let before = datasets_in(bs, (n - 1) as nat, out);
        let b = bs[n - 1];
        let own = add_name(before, dataset_named(b));
        let inner = datasets_in(b.children, b.children.len(), own);
        match b.branch_else {
            Some(e) => datasets_in(e, e.len(), inner),
            None => inner,
        }
    }
}

fn dataset_of(b: &Block) -> (r: String)
    ensures
        r@ == dataset_named(b@),
{
    let empty = String::new();
    assert(empty@ =~= Seq::<char>::empty());
    if same(b.block_type.as_str(), "pick_row") || same(b.block_type.as_str(), "load_dataset") {
        match b.params.get_str("dataset_id") {
            Some(id) => id.clone(),
            None => empty,
        }
    } else {
        empty
    }
}

proof fn lemma_inner_smaller(v: Vec<Block>, i: int)
    requires
        0 <= i < v@.len(),
    ensures
        decreases_to!(v => v@[i].children),
        v@[i].branch_else is Some ==> decreases_to!(v => v@[i].branch_else->0),
{
    assert(decreases_to!(v => v[i]));
    let b = v@[i];
    assert(decreases_to!(b => b.children));
    if b.branch_else is Some {
        assert(decreases_to!(b => b.branch_else->0));
    }
}

fn walk(bs: &Vec<Block>, out: &mut Vec<String>)
    ensures
        texts(final(out)@) == datasets_in(
            blocks(bs@),
            blocks(bs@).len(),
            texts(old(out)@),
        ),
    decreases bs,
{
    let ghost all = blocks(bs@);
    let mut i: usize = 0;
    while i < bs.len()
        invariant
            i <= bs@.len(),
            all == blocks(bs@),
            texts(out@) == datasets_in(all, i as nat, texts(old(out)@)),
        decreases bs@.len() - i,
    {
        let b = &bs[i];
        proof {
            lemma_inner_smaller(*bs, i as int);
            lemma_block_view(*b);
            assert(all[i as int] == b@);
        }
        let id = dataset_of(b);
        if !id.as_str().is_empty() && !has_text(out, id.as_str()) {
            proof {
                lemma_texts_push(out@, id);
            }
            out.push(id);
        }
        walk(&b.children, out);
        match &b.branch_else {
            Some(e) => {
                walk(e, out);
            },
            None => {},
        }
        i = i + 1;
    }
}

/// The datasets that blocks refer to, each once.
pub fn collect_dataset_ids(bs: &Vec<Block>) -> (r: Vec<String>)
    ensures
        texts(r@) == datasets_in(blocks(bs@), blocks(bs@).len(), Seq::empty()),
{
    let mut out: Vec<String> = Vec::new();
    assert(texts(out@) =~= Seq::<Seq<char>>::empty());
    walk(bs, &mut out);
    out
}

/// The key of a cursor.
pub open spec fn cursor_key(scenario_id: Seq<char>, dataset_id: Seq<char>) -> Seq<char> {
    scenario_id + ":"@ + dataset_id
}

/// How often the scenario has taken a row of the dataset.
pub open spec fn cursor(m: Seq<(Seq<char>, u64)>, k: Seq<char>) -> u64 {
    match lookup(m, k) {
        Some(n) => n,
        None => 0,
    }
}

/// The next count, starting again behind the greatest.
pub open spec fn next_count(n: u64) -> u64 {
    if n == u64::MAX {
        0
    } else {
        (n + 1) as u64
    }
}

pub open spec fn kept_cursors(m: Seq<(Seq<char>, u64)>, id: Seq<char>) -> Seq<(Seq<char>, u64)> {
    m.filter(|e: (Seq<char>, u64)| !ends(e.0, ":"@ + id))
}

/// The row that a binding takes, and the cursors then.
pub open spec fn bound_row(
    m: Seq<(Seq<char>, u64)>,
    scenario_id: Seq<char>,
    b: BindingView,
    len: int,
    draw: u64,
) -> (int, Seq<(Seq<char>, u64)>) {
    match b.mode {
        DataMode::Random => (draw as int % len, m),
        DataMode::Sequential => {
            let k = cursor_key(scenario_id, b.dataset_id);
            (cursor(m, k) as int % len, put(m, k, next_count(cursor(m, k))))
        },
    }
}

/// The variables that a binding seeds, or why it seeds none.
pub open spec fn bound_seed(
    d: Option<(Seq<char>, Seq<Row>)>,
    b: BindingView,
    at: int,
) -> Result<Row, Seq<char>> {
    match d {
        Some((name, rows)) => if rows.len() == 0 {
            Err("[data] dataset '"@ + name + "' is empty"@)
        } else {
            Ok(seed(b.prefix, rows[at]))
        },
        None => Err("[data] dataset not found: "@ + b.dataset_id),
    }
}

pub open spec fn named_rows() -> spec_fn(Dataset) -> (Seq<char>, Seq<Row>) {
    |d: Dataset| (d.name@, rows_of(d.rows@))
}

pub open spec fn seed_view(r: Result<TextMap<Json>, String>) -> Result<Row, Seq<char>> {
    match r {
        Ok(m) => Ok(entries(m@)),
        Err(e) => Err(e@),
    }
}

impl Dataset {
    /// A copy of the dataset.
    pub fn copy(&self) -> (r: Dataset)
        ensures
            r.id@ == self.id@,
            r.name@ == self.name@,
            texts(r.columns@) == texts(self.columns@),
            rows_of(r.rows@) == rows_of(self.rows@),
            r.created_at@ == self.created_at@,
            r.updated_at@ == self.updated_at@,
    {
        let mut rows: Vec<TextMap<Json>> = Vec::new();
        let mut i: usize = 0;
        while i < self.rows.len()
            invariant
                i <= self.rows@.len(),
                rows@.len() == i,
                forall|j: int|
                    0 <= j < i ==> entries((#[trigger] rows@[j])@) == entries(self.rows@[j]@),
            decreases self.rows@.len() - i,
        {
            rows.push(copy_map(&self.rows[i]));
            i = i + 1;
        }
        assert(rows_of(rows@) =~= rows_of(self.rows@));
        Dataset {
            id: self.id.clone(),
            name: self.name.clone(),
            columns: copy_texts(&self.columns),
            rows,
            created_at: self.created_at.clone(),
            updated_at: self.updated_at.clone(),
        }
    }
}

/// What a dataset holds.
pub struct DatasetView {
    pub id: Seq<char>,
    pub name: Seq<char>,
    pub columns: Seq<Seq<char>>,
    pub rows: Seq<Row>,
    pub created_at: Seq<char>,
    pub updated_at: Seq<char>,
}

impl Dataset {
    pub open spec fn view(&self) -> DatasetView {
        DatasetView {
            id: self.id@,
            name: self.name@,
            columns: texts(self.columns@),
            rows: rows_of(self.rows@),
            created_at: self.created_at@,
            updated_at: self.updated_at@,
        }
    }
}

pub open spec fn dataset_view() -> spec_fn(Dataset) -> DatasetView {
    |d: Dataset| d@
}

impl ScenarioManager {
    /// All the datasets, in the order of their ids.
    pub fn list_datasets(&self) -> (r: Vec<Dataset>)
        ensures
            r@.len() == self.datasets@.len(),
            forall|i: int| 0 <= i < r@.len() ==> (#[trigger] r@[i])@ == self.datasets@[i].1@,
    {
        let mut out: Vec<Dataset> = Vec::new();
        let mut i: usize = 0;
        while i < self.datasets.len()
            invariant
                i <= self.datasets@.len(),
                out@.len() == i,
                forall|j: int| 0 <= j < i ==> (#[trigger] out@[j])@ == self.datasets@[j].1@,
            decreases self.datasets@.len() - i,
        {
            out.push(self.datasets.value_at(i).copy());
            i = i + 1;
        }
        out
    }

    /// The dataset under an id.
    pub fn get_dataset(&self, id: &str) -> (r: Option<Dataset>)
        ensures
            match r {
                Some(d) => lookup(values_by(self.datasets@, dataset_view()), id@) == Some(d@),
                None => lookup(values_by(self.datasets@, dataset_view()), id@) is None,
            },
    {
        proof {
            lemma_values_by(self.datasets@, dataset_view(), id@, arbitrary());
        }
        match self.datasets.get(id) {
            Some(d) => Some(d.copy()),
            None => None,
        }
    }

    /// Keeps a dataset under its id.
    pub fn save_dataset(&mut self, d: &Dataset)
        ensures
            values_by(final(self).datasets@, dataset_view()) == put(
                values_by(old(self).datasets@, dataset_view()),
                d@.id,
                d@,
            ),
            final(self).store == old(self).store,
            final(self).running == old(self).running,
            final(self).sched_state == old(self).sched_state,
            final(self).ds_cursors == old(self).ds_cursors,
            final(self).schedules == old(self).schedules,
            final(self).assignments == old(self).assignments,
            final(self).ai_config == old(self).ai_config,
            final(self).ai_key == old(self).ai_key,
            old(self).well_formed() ==> final(self).well_formed(),
    {
        let c = d.copy();
        proof {
            lemma_values_by(self.datasets@, dataset_view(), d.id@, c);
        }
        self.datasets.insert(d.id.clone(), c);
    }

    /// Drops a dataset, and the cursors that go with it.
    pub fn delete_dataset(&mut self, id: &str)
        ensures
            final(self).datasets@ == without(old(self).datasets@, id@),
            final(self).ds_cursors@ == kept_cursors(old(self).ds_cursors@, id@),
            final(self).store == old(self).store,
            final(self).running == old(self).running,
            final(self).sched_state == old(self).sched_state,
            final(self).schedules == old(self).schedules,
            final(self).assignments == old(self).assignments,
            final(self).ai_config == old(self).ai_config,
            final(self).ai_key == old(self).ai_key,
            old(self).well_formed() ==> final(self).well_formed(),
    {
        let _ = self.datasets.remove(id);
        let tail = join2(":", id);
        let ghost m = self.ds_cursors@;
        let ghost keep = |e: (Seq<char>, u64)| !ends(e.0, ":"@ + id@);
        let mut out: TextMap<u64> = TextMap::new();
        let mut i: usize = 0;
        proof {
            reveal(Seq::filter);
            assert(m.take(0).filter(keep) =~= out@);
        }
        while i < self.ds_cursors.len()
            invariant
                i <= self.ds_cursors@.len(),
                m == self.ds_cursors@,
                tail@ == ":"@ + id@,
                keep == (|e: (Seq<char>, u64)| !ends(e.0, ":"@ + id@)),
                out@ == m.take(i as int).filter(keep),
            decreases self.ds_cursors@.len() - i,
        {
            let k = self.ds_cursors.key_at(i);
            let v = *self.ds_cursors.value_at(i);
            proof {
                crate::text::lemma_filter_push(m.take(i as int), m[i as int], keep);
                assert(m.take(i as int + 1) =~= m.take(i as int).push(m[i as int]));
            }
            if !has_suffix(k.as_str(), tail.as_str()) {
                let ghost before = out@;
                out.entries.push((k.clone(), v));
                assert(out@ =~= before.push((k@, v)));
            }
            i = i + 1;
        }
        assert(m.take(m.len() as int) =~= m);
        proof {
            if sorted(m) {
                lemma_filter_sorted(m, keep);
            }
        }
        self.ds_cursors = out;
    }

    /// The place of the next row of a dataset that a scenario takes in turn.
    pub fn next_seq_index(&mut self, scenario_id: &str, dataset_id: &str, len: usize) -> (r: usize)
        ensures
            len == 0 ==> r == 0 && *final(self) == *old(self),
            len > 0 ==> r == cursor(
                old(self).ds_cursors@,
                cursor_key(scenario_id@, dataset_id@),
            ) as int % len as int,
            len > 0 ==> final(self).ds_cursors@ == put(
                old(self).ds_cursors@,
                cursor_key(scenario_id@, dataset_id@),
                next_count(
                    cursor(old(self).ds_cursors@, cursor_key(scenario_id@, dataset_id@)),
                ),
            ),
            final(self).store == old(self).store,
            final(self).running == old(self).running,
            final(self).sched_state == old(self).sched_state,
            rest_same(*final(self), *old(self)),
            old(self).well_formed() ==> final(self).well_formed(),
    {
        if len == 0 {
            return 0;
        }
        let key = join3(scenario_id, ":", dataset_id);
        let n: u64 = match self.ds_cursors.get(key.as_str()) {
            Some(n) => *n,
            None => 0,
        };
        let next: u64 = if n == u64::MAX {
            0
        } else {
            n + 1
        };
        self.ds_cursors.insert(key, next);
        crate::chance::pick(n, len)
    }

    /// The variables that the dataset of a scenario seeds, given the random
    /// number that decides where chance does.
    pub fn pick_dataset_row_with(
        &mut self,
        scenario_id: &str,
        b: &DataBinding,
        draw: u64,
    ) -> (r: Result<TextMap<Json>, String>)
        ensures
            (seed_view(r), final(self).ds_cursors@) == seed_taken(
                *old(self),
                scenario_id@,
                b@,
                draw,
            ),
            final(self).store == old(self).store,
            final(self).running == old(self).running,
            final(self).sched_state == old(self).sched_state,
            rest_same(*final(self), *old(self)),
            old(self).well_formed() ==> final(self).well_formed(),
    {
        proof {
            lemma_values_by(self.datasets@, named_rows(), b.dataset_id@, arbitrary());
        }
        let ds = match self.datasets.get(b.dataset_id.as_str()) {
            Some(d) => d.copy(),
            None => {
                return Err(join2("[data] dataset not found: ", b.dataset_id.as_str()));
            },
        };
        assert(rows_of(ds.rows@).len() == ds.rows@.len());
        if ds.rows.len() == 0 {
            return Err(join3("[data] dataset '", ds.name.as_str(), "' is empty"));
        }
        let at: usize = match b.mode {
            DataMode::Random => crate::chance::pick(draw, ds.rows.len()),
            DataMode::Sequential => self.next_seq_index(
                scenario_id,
                b.dataset_id.as_str(),
                ds.rows.len(),
            ),
        };
        assert(rows_of(ds.rows@)[at as int] == entries(ds.rows@[at as int]@));
        Ok(build_seed(b, &ds.rows[at]))
    }

    /// The variables that the dataset of a scenario seeds.
    pub fn pick_dataset_row(&mut self, scenario_id: &str, b: &DataBinding) -> (r: Result<
        TextMap<Json>,
        String,
    >)
        ensures
            exists|draw: u64|
                (seed_view(r), final(self).ds_cursors@) == #[trigger] seed_taken(
                    *old(self),
                    scenario_id@,
                    b@,
                    draw,
                ),
            final(self).store == old(self).store,
            final(self).running == old(self).running,
            final(self).sched_state == old(self).sched_state,
            rest_same(*final(self), *old(self)),
            old(self).well_formed() ==> final(self).well_formed(),
    {
        let d: u64 = crate::chance::random_u64();
        self.pick_dataset_row_with(scenario_id, b, d)
    }

    /// Makes a run ready: the datasets that its blocks refer to, and the
    /// variables that its own dataset seeds.
    pub fn prepare_run(&mut self, scenario: &Scenario, ctx: RunContext, draw: u64) -> (r: RunContext)
        ensures
            (r@, final(self).ds_cursors@) == prepared(*old(self), scenario@, ctx@, draw),
            final(self).store == old(self).store,
            final(self).running == old(self).running,
            final(self).sched_state == old(self).sched_state,
            rest_same(*final(self), *old(self)),
            old(self).well_formed() ==> final(self).well_formed(),
    {
        let mut c = ctx;
        let ids = collect_dataset_ids(&scenario.blocks);
        let ghost all = texts(ids@);
        let ghost mine = values_by(self.datasets@, dataset_rows());
        let ghost start = c@;
        let mut i: usize = 0;
        while i < ids.len()
            invariant
                i <= ids@.len(),
                all == texts(ids@),
                mine == values_by(self.datasets@, dataset_rows()),
                c@ == (ContextView {
                    datasets: datasets_loaded(start.datasets, mine, all, i as int),
                    ..start
                }),
            decreases ids@.len() - i,
        {
            assert(all[i as int] == ids@[i as int]@);
            proof {
                lemma_values_by(self.datasets@, dataset_rows(), ids@[i as int]@, arbitrary());
            }
            match self.datasets.get(ids[i].as_str()) {
                Some(d) => {
                    let x = d.copy();
                    proof {
                        lemma_values_by(c.datasets@, dataset_rows(), ids@[i as int]@, x);
                    }
                    c.datasets.insert(ids[i].clone(), x);
                },
                None => {},
            }
            i = i + 1;
        }
        match &scenario.data_source {
            Some(b) => {
                let seeded = self.pick_dataset_row_with(scenario.id.as_str(), b, draw);
                match seeded {
                    Ok(vars) => {
                        c.seed_variables(vars);
                    },
                    Err(w) => {
                        c.warn(w);
                    },
                }
            },
            None => {},
        }
        c
    }
}

/// The datasets at hand once the first `n` of `ids` have been loaded.
pub open spec fn datasets_loaded(
    m: Seq<(Seq<char>, Seq<Row>)>,
    from: Seq<(Seq<char>, Seq<Row>)>,
    ids: Seq<Seq<char>>,
    n: int,
) -> Seq<(Seq<char>, Seq<Row>)>
    decreases n,
{
    if n <= 0 {
        m
    } else {
        let before = datasets_loaded(m, from, ids, n - 1);
        match lookup(from, ids[n - 1]) {
            Some(rows) => put(before, ids[n - 1], rows),
            None => before,
        }
    }
}

/// What a binding seeds in a manager as it stands, and the cursors then.
pub open spec fn seed_taken(
    m: ScenarioManager,
    scenario_id: Seq<char>,
    b: BindingView,
    draw: u64,
) -> (Result<Row, Seq<char>>, Seq<(Seq<char>, u64)>) {
    let d = lookup(values_by(m.datasets@, named_rows()), b.dataset_id);
    if d is Some && (d->0).1.len() > 0 {
        let (at, cursors) = bound_row(
            m.ds_cursors@,
            scenario_id,
            b,
            (d->0).1.len() as int,
            draw,
        );
        (bound_seed(d, b, at), cursors)
    } else {
        (bound_seed(d, b, 0), m.ds_cursors@)
    }
}

/// A run made ready, and the cursors then.
pub open spec fn prepared(m: ScenarioManager, s: ScenarioView, c: ContextView, draw: u64) -> (
    ContextView,
    Seq<(Seq<char>, u64)>,
) {
    let ids = datasets_in(s.blocks, s.blocks.len(), Seq::empty());
    let loaded = ContextView {
        datasets: datasets_loaded(
            c.datasets,
            values_by(m.datasets@, dataset_rows()),
            ids,
            ids.len() as int,
        ),
        ..c
    };
    match s.data_source {
        Some(b) => {
            let (seeded, cursors) = seed_taken(m, s.id, b, draw);
            (
                match seeded {
                    Ok(vars) => loaded.assign_all(vars),
                    Err(w) => loaded.warn(w),
                },
                cursors,
            )
        },
        None => (loaded, m.ds_cursors@),
    }
}

/// The state at the start of a run that was entered under the id, and the
/// cursors then.
pub open spec fn opened(
    m: ScenarioManager,
    s: ScenarioView,
    run_id: Seq<char>,
    profile_id: Seq<char>,
    profile_name: Seq<char>,
    t: UtcTime,
    draw: u64,
) -> (ContextView, Seq<(Seq<char>, u64)>) {
    let names = NamesView { profile_name, run_id, scenario_name: s.name };
    prepared(m, s, ContextView::start(profile_id, s.caps, stamped(t), Some(names)), draw)
}

impl ScenarioManager {
    /// The state at the start of a run that was entered under the id and starts
    /// now.
    pub fn open_run(
        &mut self,
        scenario: &Scenario,
        run_id: &str,
        profile_id: &str,
        profile_name: &str,
    ) -> (r: RunContext)
        ensures
            exists|t: UtcTime, draw: u64|
                valid_time(t) && (r@, final(self).ds_cursors@) == #[trigger] opened(
                    *old(self),
                    scenario@,
                    run_id@,
                    profile_id@,
                    profile_name@,
                    t,
                    draw,
                ),
            final(self).store == old(self).store,
            final(self).running == old(self).running,
            final(self).sched_state == old(self).sched_state,
            rest_same(*final(self), *old(self)),
            old(self).well_formed() ==> final(self).well_formed(),
    {
        let names = RunNames {
            profile_name: profile_name.to_owned(),
            run_id: run_id.to_owned(),
            scenario_name: scenario.name.clone(),
        };
        let ghost m = *self;
        let ctx = RunContext::named(profile_id, scenario.caps, names);
        let d: u64 = crate::chance::random_u64();
        let ghost t = choose|t: UtcTime|
            valid_time(t) && ctx@ == ContextView::start(
                profile_id@,
                scenario.caps,
                #[trigger] stamped(t),
                Some(names@),
            );
        let r = self.prepare_run(scenario, ctx, d);
        assert((r@, self.ds_cursors@) == opened(
            m,
            scenario@,
            run_id@,
            profile_id@,
            profile_name@,
            t,
            d,
        ));
        r
    }
}

/// Taken in turn, the rows come one after the other, and the first again
/// behind the last.
pub proof fn lemma_rows_in_turn(
    m: Seq<(Seq<char>, u64)>,
    scenario_id: Seq<char>,
    b: BindingView,
    len: int,
    draw: u64,
    again: u64,
)
    requires
        len > 0,
        b.mode == DataMode::Sequential,
        cursor(m, cursor_key(scenario_id, b.dataset_id)) < u64::MAX,
    ensures
        ({
            let (first, m2) = bound_row(m, scenario_id, b, len, draw);
            let (second, m3) = bound_row(m2, scenario_id, b, len, again);
            &&& 0 <= first < len
            &&& second == (first + 1) % len
        }),
{
    let k = cursor_key(scenario_id, b.dataset_id);
    let n = cursor(m, k);
    crate::map::lemma_lookup_put(m, k, next_count(n), k);
    vstd::arithmetic::div_mod::lemma_add_mod_noop(n as int, 1, len);
    if len > 1 {
        vstd::arithmetic::div_mod::lemma_small_mod(1, len as nat);
    }
    assert((n as int % len + 1) % len == (n as int + 1) % len) by {
        vstd::arithmetic::div_mod::lemma_add_mod_noop(n as int, 1, len);
        vstd::arithmetic::div_mod::lemma_add_mod_noop(n as int % len, 1, len);
        vstd::arithmetic::div_mod::lemma_mod_twice(n as int, len);
    }
}

/// The profile of a run that has begun is busy for as long as the run is under
/// way.
pub proof fn lemma_run_keeps_busy(m: Seq<(Seq<char>, ActiveRun)>, id: Seq<char>, a: ActiveRun)
    ensures
        is_busy(put(m, id, a), a.profile_id@),
        is_busy(put(put(m, id, a), id, cancelled(a)), a.profile_id@),
{
    lemma_put_is_there(m, id, a);
    lemma_put_is_there(put(m, id, a), id, cancelled(a));
}

proof fn lemma_put_is_there(m: Seq<(Seq<char>, ActiveRun)>, id: Seq<char>, a: ActiveRun)
    ensures
        exists|i: int| 0 <= i < put(m, id, a).len() && #[trigger] put(m, id, a)[i] == (id, a),
    decreases m.len(),
{
    let p = put(m, id, a);
    if m.len() == 0 || m[0].0 == id || crate::text::text_lt(id, m[0].0) {
        assert(p[0] == (id, a));
    } else {
        let t = m.drop_first();
        lemma_put_is_there(t, id, a);
        let i = choose|i: int| 0 <= i < put(t, id, a).len() && #[trigger] put(t, id, a)[i] == (id, a);
        assert(p[i + 1] == (id, a));
    }
}

/// A run that was told to stop sees it, and no other run does.
pub proof fn lemma_cancel_is_seen(
    m: Seq<(Seq<char>, ActiveRun)>,
    id: Seq<char>,
    other: Seq<char>,
)
    requires
        lookup(m, id) is Some,
        other != id,
    ensures
        ({
            let after = put(m, id, cancelled(lookup(m, id)->0));
            &&& lookup(after, id) is Some && (lookup(after, id)->0).cancelled
            &&& lookup(after, other) == lookup(m, other)
        }),
{
    crate::map::lemma_lookup_put(m, id, cancelled(lookup(m, id)->0), id);
    crate::map::lemma_lookup_put(m, id, cancelled(lookup(m, id)->0), other);
}

/// A run that was told to stop is still under way, as all the others are, and
/// its profile is still busy.
pub proof fn lemma_cancel_keeps_runs(m: ScenarioManager, id: Seq<char>)
    requires
        m.well_formed(),
        lookup(m.running@, id) is Some,
    ensures
        ({
            let after = put(m.running@, id, cancelled(lookup(m.running@, id)->0));
            &&& after.map_values(|e: (Seq<char>, ActiveRun)| info_of(e.0, e.1))
                == m.running@.map_values(|e: (Seq<char>, ActiveRun)| info_of(e.0, e.1))
            &&& forall|p: Seq<char>| #[trigger] is_busy(after, p) <==> is_busy(m.running@, p)
        }),
{
    let runs = m.running@;
    let after = put(runs, id, cancelled(lookup(runs, id)->0));
    lemma_put_in_place(runs, id, cancelled(lookup(runs, id)->0));
    assert forall|i: int| 0 <= i < runs.len() implies info_of(after[i].0, after[i].1) == info_of(
        runs[i].0,
        #[trigger] runs[i].1,
    ) && after[i].1.profile_id == runs[i].1.profile_id by {
        assert(runs.contains((runs[i].0, runs[i].1)));
        lemma_lookup_entries(runs, runs[i].0, runs[i].1);
    }
    assert(after.map_values(|e: (Seq<char>, ActiveRun)| info_of(e.0, e.1)) =~= runs.map_values(
        |e: (Seq<char>, ActiveRun)| info_of(e.0, e.1),
    ));
    assert forall|p: Seq<char>| #[trigger] is_busy(after, p) <==> is_busy(runs, p) by {
        if is_busy(after, p) {
            let i = choose|i: int| 0 <= i < after.len() && (#[trigger] after[i]).1.profile_id@ == p;
            assert(runs[i].1.profile_id@ == p);
        }
        if is_busy(runs, p) {
            let i = choose|i: int| 0 <= i < runs.len() && (#[trigger] runs[i]).1.profile_id@ == p;
            assert(after[i].1.profile_id@ == p);
        }
    }
}

/// A run that is over is no longer under way, and the others still are. A
/// profile is busy then where another run drives it.
pub proof fn lemma_finished_is_gone(
    m: ScenarioManager,
    id: Seq<char>,
    other: Seq<char>,
    p: Seq<char>,
)
    requires
        m.well_formed(),
    ensures
        lookup(without(m.running@, id), id) is None,
        other != id ==> lookup(without(m.running@, id), other) == lookup(m.running@, other),
        is_busy(without(m.running@, id), p) <==> exists|i: int|
            0 <= i < m.running@.len() && (#[trigger] m.running@[i]).0 != id
                && m.running@[i].1.profile_id@ == p,
{
    let runs = m.running@;
    let after = without(runs, id);
    lemma_lookup_without(runs, id, other);
    lemma_without_sorted(runs, id);
    if is_busy(after, p) {
        let i = choose|i: int| 0 <= i < after.len() && (#[trigger] after[i]).1.profile_id@ == p;
        let (k, r) = after[i];
        assert(after.contains((k, r)));
        lemma_lookup_entries(after, k, r);
        lemma_lookup_without(runs, id, k);
        lemma_lookup_entries(runs, k, r);
        let j = choose|j: int| 0 <= j < runs.len() && runs[j] == (k, r);
        assert(runs[j].0 != id && runs[j].1.profile_id@ == p);
    }
    if exists|i: int|
        0 <= i < runs.len() && (#[trigger] runs[i]).0 != id && runs[i].1.profile_id@ == p {
        let i = choose|i: int|
            0 <= i < runs.len() && (#[trigger] runs[i]).0 != id && runs[i].1.profile_id@ == p;
        let (k, r) = runs[i];
        assert(runs.contains((k, r)));
        lemma_lookup_entries(runs, k, r);
        lemma_lookup_without(runs, id, k);
        lemma_lookup_entries(after, k, r);
        let j = choose|j: int| 0 <= j < after.len() && after[j] == (k, r);
        assert(after[j].1.profile_id@ == p);
    }
}

/// A dataset that has been deleted is gone, with every count of the rows that
/// were taken of it; the other datasets are as they were.
pub proof fn lemma_dataset_is_gone(
    m: ScenarioManager,
    id: Seq<char>,
    other: Seq<char>,
    scenario_id: Seq<char>,
)
    requires
        m.well_formed(),
        other != id,
    ensures
        ({
            let after = values_by(without(m.datasets@, id), dataset_view());
            &&& lookup(after, id) is None
            &&& lookup(after, other) == lookup(
                values_by(m.datasets@, dataset_view()),
                other,
            )
            &&& lookup(kept_cursors(m.ds_cursors@, id), cursor_key(scenario_id, id)) is None
        }),
{
    lemma_values_without(m.datasets@, dataset_view(), id, other);
    let keep = |e: (Seq<char>, u64)| !ends(e.0, ":"@ + id);
    let kept = kept_cursors(m.ds_cursors@, id);
    let k = cursor_key(scenario_id, id);
    if lookup(kept, k) is Some {
        let n = lookup(kept, k)->0;
        lemma_lookup_entries(kept, k, n);
        lemma_filter_elem(m.ds_cursors@, keep, (k, n));
        assert(k.subrange(k.len() - (":"@ + id).len(), k.len() as int) =~= ":"@ + id);
        assert(ends(k, ":"@ + id));
    }
}

} // verus!
