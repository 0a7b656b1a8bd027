//! The state of a run that its blocks read and change.
use vstd::prelude::*;

use crate::clock::{stamp_at, stamped, utc_now, valid_time, Stamp, StampView, UtcTime};
use crate::dataset::{rows_of, Dataset, Row};
use crate::interpolate::{chars, text_entries};
use crate::map::{lemma_lookup_put, lemma_values_by, lookup, put, values_by, TextMap};
use crate::model::{lemma_steps_push, steps, AiMode, Block, BlockView, RunCaps, StepLog, StepView};
use crate::text::{lemma_texts_push, opt_text, texts};
use crate::value::{deep, entries, Json, JsonView};

verus! {

/// The state of a run.
pub struct RunContext {
    pub profile_id: String,
    pub variables: TextMap<Json>,
    pub system: TextMap<String>,
    pub warnings: Vec<String>,
    pub step_logs: Vec<StepLog>,
    pub steps_run: u32,
    pub loop_iterations: u32,
    /// Tokens used up by AI blocks, held against `caps.max_ai_tokens`.
    pub ai_tokens_used: u64,
    pub ai_mode: AiMode,
    /// The datasets that blocks refer to.
    pub datasets: TextMap<Dataset>,
    pub caps: RunCaps,
}

pub struct ContextView {
    pub profile_id: Seq<char>,
    pub variables: Row,
    pub system: Seq<(Seq<char>, Seq<char>)>,
    pub warnings: Seq<Seq<char>>,
    pub step_logs: Seq<StepView>,
    pub steps_run: u32,
    pub loop_iterations: u32,
    pub ai_tokens_used: u64,
    pub ai_mode: AiMode,
    pub datasets: Seq<(Seq<char>, Seq<Row>)>,
    pub caps: RunCaps,
}

/// The rows that a dataset holds, as a function.
pub open spec fn dataset_rows() -> spec_fn(Dataset) -> Seq<Row> {
    |d: Dataset| rows_of(d.rows@)
}

impl RunContext {
    pub open spec fn view(&self) -> ContextView {
        ContextView {
            profile_id: self.profile_id@,
            variables: entries(self.variables@),
            system: text_entries(self.system@),
            warnings: texts(self.warnings@),
            step_logs: steps(self.step_logs@),
            steps_run: self.steps_run,
            loop_iterations: self.loop_iterations,
            ai_tokens_used: self.ai_tokens_used,
            ai_mode: self.ai_mode,
            datasets: values_by(self.datasets@, dataset_rows()),
            caps: self.caps,
        }
    }
}

/// The variables with the first `n` entries of `more` put in.
pub open spec fn put_all(m: Row, more: Row, n: int) -> Row
    decreases n,
{
    if n <= 0 {
        m
    } else {
        put(put_all(m, more, n - 1), more[n - 1].0, more[n - 1].1)
    }
}

impl ContextView {
    /// The state at the start of a run: what is known of the run and the time
    /// of its start are system variables.
    pub open spec fn start(
        profile_id: Seq<char>,
        caps: RunCaps,
        stamp: StampView,
        names: Option<NamesView>,
    ) -> ContextView {
        let timed = put(
            put(
                put(put(Seq::empty(), "profile_id"@, profile_id), "date"@, stamp.date),
                "time"@,
                stamp.time,
            ),
            "datetime"@,
            stamp.datetime,
        );
        ContextView {
            profile_id,
            variables: Seq::empty(),
            system: match names {
                Some(n) => put(
                    put(
                        put(timed, "profile_name"@, n.profile_name),
                        "run_id"@,
                        n.run_id,
                    ),
                    "scenario_name"@,
                    n.scenario_name,
                ),
                None => timed,
            },
            warnings: Seq::empty(),
            step_logs: Seq::empty(),
            steps_run: 0,
            loop_iterations: 0,
            ai_tokens_used: 0,
            ai_mode: AiMode::Auto,
            datasets: Seq::empty(),
            caps,
        }
    }

    pub open spec fn warn(self, w: Seq<char>) -> ContextView {
        ContextView { warnings: self.warnings.push(w), ..self }
    }

    pub open spec fn assign(self, name: Seq<char>, value: JsonView) -> ContextView {
        ContextView { variables: put(self.variables, name, value), ..self }
    }

    pub open spec fn assign_opt(self, name: Option<Seq<char>>, value: JsonView) -> ContextView {
        match name {
            Some(n) => self.assign(n, value),
            None => self,
        }
    }

    pub open spec fn assign_all(self, more: Row) -> ContextView {
        ContextView { variables: put_all(self.variables, more, more.len() as int), ..self }
    }

    /// The time since `started`, in milliseconds.
    pub open spec fn since(started_ms: u64, now_ms: u64) -> u128 {
        if now_ms >= started_ms {
            (now_ms - started_ms) as u128
        } else {
            0
        }
    }

    pub open spec fn log(
        self,
        b: BlockView,
        started_ms: u64,
        now_ms: u64,
        status: Seq<char>,
        error: Option<Seq<char>>,
    ) -> ContextView {
        ContextView {
            step_logs: self.step_logs.push(
                StepView {
                    block_id: b.id,
                    block_type: b.block_type,
                    status,
                    duration_ms: ContextView::since(started_ms, now_ms),
                    error,
                },
            ),
            ..self
        }
    }
}

/// What a run is called: the names of its profile and its scenario, and its
/// own id.
#[derive(Debug, PartialEq, Eq)]
pub struct RunNames {
    pub profile_name: String,
    pub run_id: String,
    pub scenario_name: String,
}

pub struct NamesView {
    pub profile_name: Seq<char>,
    pub run_id: Seq<char>,
    pub scenario_name: Seq<char>,
}

impl RunNames {
    pub open spec fn view(&self) -> NamesView {
        NamesView {
            profile_name: self.profile_name@,
            run_id: self.run_id@,
            scenario_name: self.scenario_name@,
        }
    }
}

pub open spec fn opt_names(o: Option<RunNames>) -> Option<NamesView> {
    match o {
        Some(n) => Some(n@),
        None => None,
    }
}

fn set_system(m: &mut TextMap<String>, k: &str, v: String)
    ensures
        text_entries(final(m)@) == put(text_entries(old(m)@), k@, v@),
{
    proof {
        lemma_values_by(m@, chars(), k@, v);
    }
    m.insert(k.to_owned(), v);
}

impl RunContext {
    /// The state at the start of a run at the given time. A run that is kept
    /// has names.
    pub fn at(profile_id: &str, caps: RunCaps, stamp: Stamp, names: Option<RunNames>) -> (r:
        RunContext)
        ensures
            r@ == ContextView::start(profile_id@, caps, stamp@, opt_names(names)),
    {
        let mut system: TextMap<String> = TextMap::new();
        let Stamp { date, time, datetime } = stamp;
        assert(text_entries(system@) =~= Seq::<(Seq<char>, Seq<char>)>::empty());
        set_system(&mut system, "profile_id", profile_id.to_owned());
        set_system(&mut system, "date", date);
        set_system(&mut system, "time", time);
        set_system(&mut system, "datetime", datetime);
        match names {
            Some(RunNames { profile_name, run_id, scenario_name }) => {
                set_system(&mut system, "profile_name", profile_name);
                set_system(&mut system, "run_id", run_id);
                set_system(&mut system, "scenario_name", scenario_name);
            },
            None => {},
        }
        let r = RunContext {
            profile_id: profile_id.to_owned(),
            variables: TextMap::new(),
            system,
            warnings: Vec::new(),
            step_logs: Vec::new(),
            steps_run: 0,
            loop_iterations: 0,
            ai_tokens_used: 0,
            ai_mode: AiMode::Auto,
            datasets: TextMap::new(),
            caps,
        };
        assert(r@.variables =~= Seq::<(Seq<char>, JsonView)>::empty());
        assert(r@.warnings =~= Seq::<Seq<char>>::empty());
        assert(r@.step_logs =~= Seq::<StepView>::empty());
        assert(r@.datasets =~= Seq::<(Seq<char>, Seq<Row>)>::empty());
        r
    }

    /// The state at the start of a run that starts now and has no names.
    pub fn new(profile_id: &str, caps: RunCaps) -> (r: RunContext)
        ensures
            exists|t: UtcTime|
                valid_time(t) && r@ == ContextView::start(
                    profile_id@,
                    caps,
                    #[trigger] stamped(t),
                    None,
                ),
    {
        let t = utc_now();
        RunContext::at(profile_id, caps, stamp_at(t), None)
    }

    /// The state at the start of a run that starts now.
    pub fn named(profile_id: &str, caps: RunCaps, names: RunNames) -> (r: RunContext)
        ensures
            exists|t: UtcTime|
                valid_time(t) && r@ == ContextView::start(
                    profile_id@,
                    caps,
                    #[trigger] stamped(t),
                    Some(names@),
                ),
    {
        let t = utc_now();
        RunContext::at(profile_id, caps, stamp_at(t), Some(names))
    }

    pub fn warn(&mut self, w: String)
        ensures
            final(self)@ == old(self)@.warn(w@),
    {
        proof {
            lemma_texts_push(self.warnings@, w);
        }
        self.warnings.push(w);
    }

    /// Gives a variable a value.
    pub fn assign(&mut self, name: &str, value: Json)
        ensures
            final(self)@ == old(self)@.assign(name@, value@),
    {
        proof {
            lemma_values_by(self.variables@, deep(), name@, value);
        }
        self.variables.insert(name.to_owned(), value);
    }

    /// Gives a variable a value, where one is named.
    pub fn assign_opt(&mut self, name: &Option<String>, value: Json)
        ensures
            final(self)@ == old(self)@.assign_opt(opt_text(*name), value@),
    {
        match name {
            Some(n) => {
                self.assign(n.as_str(), value);
            },
            None => {},
        }
    }

    /// Seeds variables, over those of the same names.
    pub fn seed_variables(&mut self, vars: TextMap<Json>)
        ensures
            final(self)@ == old(self)@.assign_all(entries(vars@)),
    {
        let ghost m = old(self)@.variables;
        let ghost more = entries(vars@);
        let mut i: usize = 0;
        while i < vars.len()
            invariant
                i <= vars@.len(),
                more == entries(vars@),
                self@ == (ContextView {
                    variables: put_all(m, more, i as int),
                    ..old(self)@
                }),
            decreases vars@.len() - i,
        {
            self.assign(vars.key_at(i).as_str(), vars.value_at(i).copy());
            i = i + 1;
        }
    }

    /// Logs a block.
    pub fn log(
        &mut self,
        b: &Block,
        started_ms: u64,
        now_ms: u64,
        status: &str,
        error: Option<String>,
    )
        ensures
            final(self)@ == old(self)@.log(b@, started_ms, now_ms, status@, opt_text(error)),
    {
        let duration_ms: u128 = if now_ms >= started_ms {
            (now_ms - started_ms) as u128
        } else {
            0
        };
        let e = StepLog {
            block_id: b.id.clone(),
            block_type: b.block_type.clone(),
            status: status.to_owned(),
            duration_ms,
            error,
        };
        proof {
            lemma_steps_push(self.step_logs@, e);
        }
        self.step_logs.push(e);
    }
}

// ---------------------------------------------------------------------------
// Laws
// ---------------------------------------------------------------------------

/// The system variables of a run at its start are what they are called.
pub proof fn lemma_system_variables(
    profile_id: Seq<char>,
    caps: RunCaps,
    stamp: StampView,
    names: NamesView,
)
    ensures
        ({
            let sys = ContextView::start(profile_id, caps, stamp, Some(names)).system;
            &&& lookup(sys, "profile_id"@) == Some(profile_id)
            &&& lookup(sys, "date"@) == Some(stamp.date)
            &&& lookup(sys, "time"@) == Some(stamp.time)
            &&& lookup(sys, "datetime"@) == Some(stamp.datetime)
            &&& lookup(sys, "profile_name"@) == Some(names.profile_name)
            &&& lookup(sys, "run_id"@) == Some(names.run_id)
            &&& lookup(sys, "scenario_name"@) == Some(names.scenario_name)
        }),
{
    reveal_strlit("profile_id");
    reveal_strlit("date");
    reveal_strlit("time");
    reveal_strlit("datetime");
    reveal_strlit("profile_name");
    reveal_strlit("run_id");
    reveal_strlit("scenario_name");
    assert("date"@[0] == 'd' && "time"@[0] == 't');
    let e = Seq::<(Seq<char>, Seq<char>)>::empty();
    let s1 = put(e, "profile_id"@, profile_id);
    let s2 = put(s1, "date"@, stamp.date);
    let s3 = put(s2, "time"@, stamp.time);
    let s4 = put(s3, "datetime"@, stamp.datetime);
    let s5 = put(s4, "profile_name"@, names.profile_name);
    let s6 = put(s5, "run_id"@, names.run_id);
    lemma_put_seven(e, "profile_id"@, profile_id);
    lemma_put_seven(s1, "date"@, stamp.date);
    lemma_put_seven(s2, "time"@, stamp.time);
    lemma_put_seven(s3, "datetime"@, stamp.datetime);
    lemma_put_seven(s4, "profile_name"@, names.profile_name);
    lemma_put_seven(s5, "run_id"@, names.run_id);
    lemma_put_seven(s6, "scenario_name"@, names.scenario_name);
}

/// What a system variable that is set does to the others.
proof fn lemma_put_seven(m: Seq<(Seq<char>, Seq<char>)>, k: Seq<char>, v: Seq<char>)
    ensures
        lookup(put(m, k, v), k) == Some(v),
        "profile_id"@ != k ==> lookup(put(m, k, v), "profile_id"@) == lookup(m, "profile_id"@),
        "date"@ != k ==> lookup(put(m, k, v), "date"@) == lookup(m, "date"@),
        "time"@ != k ==> lookup(put(m, k, v), "time"@) == lookup(m, "time"@),
        "datetime"@ != k ==> lookup(put(m, k, v), "datetime"@) == lookup(m, "datetime"@),
        "profile_name"@ != k ==> lookup(put(m, k, v), "profile_name"@) == lookup(
            m,
            "profile_name"@,
        ),
        "run_id"@ != k ==> lookup(put(m, k, v), "run_id"@) == lookup(m, "run_id"@),
{
    lemma_lookup_put(m, k, v, k);
    lemma_lookup_put(m, k, v, "profile_id"@);
    lemma_lookup_put(m, k, v, "date"@);
    lemma_lookup_put(m, k, v, "time"@);
    lemma_lookup_put(m, k, v, "datetime"@);
    lemma_lookup_put(m, k, v, "profile_name"@);
    lemma_lookup_put(m, k, v, "run_id"@);
}

} // verus!
