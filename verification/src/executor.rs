//! The engine that runs a scenario: the steps of the machine, taken.
use vstd::prelude::*;

use crate::ai::{AiRequest, AiResult};
use crate::chance::draw;
use crate::context::{dataset_rows, RunContext};
use crate::dataset::{build_seed, rows_of, Row};
use crate::interpolate::{
    capped, capped_sum, count_value_tokens, fresh_trace, interp_value, Scope, Trace, Whole,
};
use crate::json::{copy_map, copy_values};
use crate::machine::{
    answer_note, answer_schema, answer_value, fallback_value, frames, initial, lemma_frames,
    one_property, question, wants, Action, Event, EventView, Flow, Frame, FrameView, Job, Moment,
    Outcome, Phase, PhaseView, Engine, RunView, Task,
};
use crate::map::{lemma_values_by, TextMap};
use crate::model::{
    blocks, copy_blocks, lemma_block_view, AiMode, Block, DataBinding, DataMode, OnError, Scenario,
};
use crate::plan::{
    choose_row, eval_condition, leaf_plan, pairs_to_compare, read_condition, text_of, text_pairs,
    u64_or, NumOrder, Plan,
};
use crate::text::{clip, count_chars, dec_u64, join2, join3, opt_text, same, texts};
use crate::value::{
    deep, entries, lemma_array_view, lemma_object_view, values, Json, JsonView,
};

verus! {

broadcast use {lemma_array_view, lemma_object_view};

/// An exec step's result, by what it stands for.
pub open spec fn seen(r: (Engine, Action)) -> Outcome {
    (r.0@, r.1@)
}

fn json_text_pair(name: &str, kind: &str) -> (r: Json)
    ensures
        r@ == one_property(name@, kind@),
{
    let inner = Json::empty().with(name, Json::empty().with("type", Json::text(kind)));
    let mut req: Vec<Json> = Vec::new();
    req.push(Json::text(name));
    assert(values(req@) =~= seq![JsonView::Str(name@)]);
    Json::empty().with("type", Json::text("object")).with("properties", inner).with(
        "required",
        Json::Array(req),
    )
}

fn schema_for(kind: &str) -> (r: Option<Json>)
    ensures
        crate::json::opt_json_owned(r) == answer_schema(kind@),
{
    if same(kind, "ai_check") {
        Some(json_text_pair("result", "boolean"))
    } else if same(kind, "ai_find_element") {
        Some(json_text_pair("index", "integer"))
    } else if same(kind, "ai_decide") || same(kind, "ai_extract") {
        Some(json_text_pair("items", "array"))
    } else {
        None
    }
}

fn no_items() -> (r: Json)
    ensures
        r@ == JsonView::Array(Seq::empty()),
{
    let none: Vec<Json> = Vec::new();
    assert(values(none@) =~= Seq::<JsonView>::empty());
    Json::Array(none)
}

fn value_of_answer(kind: &str, a: &AiResult) -> (r: Json)
    ensures
        r@ == answer_value(kind@, a@),
{
    if same(kind, "ai_check") {
        Json::Bool(
            match &a.json {
                Some(j) => match j.get_bool("result") {
                    Some(b) => b,
                    None => false,
                },
                None => false,
            },
        )
    } else if same(kind, "ai_find_element") {
        match &a.json {
            Some(j) => match j.get("index") {
                Some(v) => v.copy(),
                None => Json::from_uint(0),
            },
            None => Json::from_uint(0),
        }
    } else if same(kind, "ai_decide") || same(kind, "ai_extract") {
        match &a.json {
            Some(j) => match j.get("items") {
                Some(v) => v.copy(),
                None => j.copy(),
            },
            None => no_items(),
        }
    } else {
        match &a.text {
            Some(t) => Json::Str(t.clone()),
            None => {
                let r = String::new();
                assert(r@ =~= Seq::<char>::empty());
                Json::Str(r)
            },
        }
    }
}

fn value_instead(kind: &str, p: &Json) -> (r: Json)
    ensures
        r@ == fallback_value(kind@, p@),
{
    if same(kind, "ai_check") {
        Json::Bool(false)
    } else if same(kind, "ai_write") {
        Json::Str(p.str_or("fallback_text", ""))
    } else if same(kind, "ai_find_element") {
        Json::from_uint(0)
    } else {
        no_items()
    }
}

fn note_of_answer(kind: &str, a: &AiResult, total: u64, cap: u64) -> (r: String)
    ensures
        r@ == answer_note(kind@, a@, total, cap),
{
    let mut out = join3("[ai] ", kind, " ok (tokens ");
    out.append(dec_u64(a.input_tokens).as_str());
    out.append("+");
    out.append(dec_u64(a.output_tokens).as_str());
    out.append(", total ");
    out.append(dec_u64(total).as_str());
    out.append("/");
    out.append(dec_u64(cap).as_str());
    out.append(")");
    out
}

fn question_of(p: &Json) -> (r: String)
    ensures
        r@ == question(p@),
{
    let v = match p.get("prompt") {
        Some(v) => Some(v),
        None => p.get("question"),
    };
    match v {
        Some(v) => match v.as_str() {
            Some(t) => t.clone(),
            None => "".to_owned(),
        },
        None => "".to_owned(),
    }
}

fn asks_for(p: &Json, what: &str) -> (r: bool)
    ensures
        r == wants(p@, what@),
{
    match p.get_array("input") {
        Some(a) => {
            let ghost all = values(a@);
            let mut i: usize = 0;
            while i < a.len()
                invariant
                    i <= a@.len(),
                    all == values(a@),
                    p@.field_array("input"@) == Some(all),
                    forall|j: int| 0 <= j < i ==> (#[trigger] all[j]).text() != Some(what@),
                decreases a@.len() - i,
            {
                match a[i].as_str() {
                    Some(s) => {
                        if same(s.as_str(), what) {
                            assert(all[i as int].text() == Some(what@));
                            return true;
                        }
                    },
                    None => {},
                }
                assert(all[i as int].text() != Some(what@));
                i = i + 1;
            }
            false
        },
        None => false,
    }
}

impl RunContext {
    /// Picks a row of a dataset into the variables.
    fn pick_row(&mut self, p: &Json, draw: u64)
        ensures
            final(self)@ == old(self)@.row_picked(p@, draw),
    {
        let id = p.str_or("dataset_id", "");
        let prefix = match p.get_str("prefix") {
            Some(s) => {
                if s.as_str().is_empty() {
                    None
                } else {
                    Some(s.clone())
                }
            },
            None => None,
        };
        proof {
            lemma_values_by(self.datasets@, dataset_rows(), id@, arbitrary());
        }
        match self.datasets.get(id.as_str()) {
            Some(ds) => {
                assert(rows_of(ds.rows@).len() == ds.rows@.len());
                if ds.rows.len() > 0 {
                    let k: usize = choose_row(p, ds.rows.len(), draw);
                    assert(rows_of(ds.rows@)[k as int] == entries(ds.rows@[k as int]@));
                    let binding = DataBinding {
                        dataset_id: id,
                        mode: DataMode::Random,
                        prefix,
                    };
                    let vars = build_seed(&binding, &ds.rows[k]);
                    self.seed_variables(vars);
                    return ;
                }
            },
            None => {},
        }
        self.warn(join3("[pick_row] dataset '", id.as_str(), "' missing or empty"));
    }

    /// Puts a dataset into a variable.
    fn load_dataset(&mut self, p: &Json)
        ensures
            final(self)@ == old(self)@.dataset_loaded(p@),
    {
        let id = p.str_or("dataset_id", "");
        let out = p.str_or("output_variable", "rows");
        proof {
            lemma_values_by(self.datasets@, dataset_rows(), id@, arbitrary());
        }
        match self.datasets.get(id.as_str()) {
            Some(ds) => {
                let mut a: Vec<Json> = Vec::new();
                let mut i: usize = 0;
                while i < ds.rows.len()
                    invariant
                        i <= ds.rows@.len(),
                        a@.len() == i,
                        forall|j: int|
                            0 <= j < i ==> (#[trigger] a@[j])@ == JsonView::Object(
                                entries(ds.rows@[j]@),
                            ),
                    decreases ds.rows@.len() - i,
                {
                    a.push(Json::Object(copy_map(&ds.rows[i])));
                    i = i + 1;
                }
                assert(values(a@) =~= rows_of(ds.rows@).map_values(
                    |r: Row| JsonView::Object(r),
                ));
                self.assign(out.as_str(), Json::Array(a));
            },
            None => {
                self.warn(join3("[load_dataset] dataset '", id.as_str(), "' not found"));
            },
        }
    }

    /// Lets the text of a reply go to the output variable.
    fn store_output(&mut self, p: &Json, reply: &Json)
        ensures
            final(self)@ == old(self)@.stored(p@, reply@),
    {
        match p.get_str("output_variable") {
            Some(name) => {
                self.assign(name.as_str(), Json::Str(text_of(reply)));
            },
            None => {},
        }
    }

    fn output_variable(p: &Json) -> (r: Option<String>)
        ensures
            opt_text(r) == p@.field_str("output_variable"@),
    {
        match p.get_str("output_variable") {
            Some(n) => Some(n.clone()),
            None => None,
        }
    }

    /// Takes in the answer of a language model.
    fn take_answer(&mut self, b: &Block, p: &Json, a: &AiResult)
        requires
            old(self)@.ai_tokens_used + a.input_tokens + a.output_tokens <= u64::MAX,
        ensures
            final(self)@ == old(self)@.answered(b@, p@, a@),
    {
        let value = value_of_answer(b.block_type.as_str(), a);
        let name = RunContext::output_variable(p);
        self.assign_opt(&name, value);
        self.ai_tokens_used = self.ai_tokens_used + a.input_tokens + a.output_tokens;
        let total: u64 = self.ai_tokens_used;
        let cap: u64 = self.caps.max_ai_tokens;
        self.warn(note_of_answer(b.block_type.as_str(), a, total, cap));
    }

    /// Lets a value stand in for an answer.
    fn take_instead(&mut self, b: &Block, p: &Json, v: Json)
        ensures
            final(self)@ == old(self)@.fallen_back(b@, p@, v@),
    {
        let name = RunContext::output_variable(p);
        self.assign_opt(&name, v);
        self.warn(join2("[ai] fallback ", b.block_type.as_str()));
    }

    fn ai_is_on(&self, b: &Block) -> (r: bool)
        ensures
            r == self@.ai_on(b@),
    {
        match self.ai_mode {
            AiMode::NoAi => false,
            AiMode::Ai => true,
            AiMode::Auto => b.ai_enabled,
        }
    }
}

impl Engine {
    /// A run of `scenario` from the given state on, without a language model.
    pub fn new(scenario: &Scenario, ctx: RunContext) -> (r: Engine)
        ensures
            r@ == initial(
                ctx@,
                scenario.ai_mode,
                scenario.on_error,
                blocks(scenario.blocks@),
                false,
            ),
    {
        Engine::prepared(scenario, ctx, false)
    }

    /// A run of `scenario` from the given state on, with a language model.
    pub fn with_ai(scenario: &Scenario, ctx: RunContext) -> (r: Engine)
        ensures
            r@ == initial(
                ctx@,
                scenario.ai_mode,
                scenario.on_error,
                blocks(scenario.blocks@),
                true,
            ),
    {
        Engine::prepared(scenario, ctx, true)
    }

    fn prepared(scenario: &Scenario, ctx: RunContext, has_ai: bool) -> (r: Engine)
        ensures
            r@ == initial(
                ctx@,
                scenario.ai_mode,
                scenario.on_error,
                blocks(scenario.blocks@),
                has_ai,
            ),
    {
        let mut c = ctx;
        c.ai_mode = scenario.ai_mode;
        let mut stack: Vec<Frame> = Vec::new();
        stack.push(Frame::List { blocks: copy_blocks(&scenario.blocks), next: 0 });
        let r = Engine {
            ctx: c,
            default_err: scenario.on_error,
            has_ai,
            stack,
            phase: Phase::Next,
        };
        assert(r@.stack =~= seq![
            FrameView::List { blocks: blocks(scenario.blocks@), next: 0 },
        ]);
        r
    }

    fn over(self) -> (r: (Engine, Action))
        ensures
            seen(r) == self@.over(),
    {
        let mut run = self;
        run.stack = Vec::new();
        run.phase = Phase::Done;
        assert(frames(run.stack@) =~= Seq::<FrameView>::empty());
        (run, Action::Finished)
    }

    fn capped(self, cap: &str) -> (r: (Engine, Action))
        ensures
            seen(r) == self@.capped(cap@),
    {
        let mut run = self;
        run.ctx.warn(join2("Run hit cap: ", cap));
        run.over()
    }

    /// Logs a frame that has been taken off the stack, and hands its flow on.
    fn left(self, b: &Block, started_ms: u64, flow: Flow, m: Moment) -> (r: (Engine, Action))
        ensures
            seen(r) == self@.with_ctx(
                self@.ctx.log(b@, started_ms, m.now_ms, "ok"@, None),
            ).go(PhaseView::Return(flow)).proceed(),
    {
        let mut run = self;
        run.ctx.log(b, started_ms, m.now_ms, "ok", None);
        run.phase = Phase::Return(flow);
        (run, Action::Proceed)
    }

    fn next(self, m: Moment, draws: Vec<u64>) -> (r: (Engine, Action))
        requires
            self@.go(PhaseView::Next).has_room(m, EventView::Ready),
        ensures
            seen(r) == self@.next(m, draws@),
    {
        proof {
            reveal(RunView::next);
        }
        let mut run = self;
        let ghost st = run.stack@;
        let top = run.stack.pop();
        match top {
            None => {
                assert(frames(st).len() == 0);
                assert(run.stack@ =~= st);
                run.over()
            },
            Some(Frame::List { blocks: list, next }) => {
                proof {
                    lemma_frames(st, st.last());
                }
                assert(blocks(list@).len() == list@.len());
                if next >= list.len() {
                    run.phase = Phase::Return(Flow::Continue);
                    return (run, Action::Proceed);
                }
                if m.cancelled {
                    run.phase = Phase::Return(Flow::Stop);
                    return (run, Action::Proceed);
                }
                assert(blocks(list@)[next as int] == list@[next as int]@);
                let b = list[next].copy();
                let f = Frame::List { blocks: list, next: next + 1 };
                proof {
                    lemma_frames(run.stack@, f);
                }
                run.stack.push(f);
                run.begin(b, m, draws)
            },
            Some(Frame::Loop { block, started_ms, left }) => {
                proof {
                    lemma_frames(st, st.last());
                    lemma_block_view(block);
                }
                if left == 0 {
                    return run.left(&block, started_ms, Flow::Continue, m);
                }
                run.ctx.loop_iterations = run.ctx.loop_iterations + 1;
                if run.ctx.loop_iterations > run.ctx.caps.max_loop_iterations {
                    return run.capped("max_loop_iterations");
                }
                if m.cancelled {
                    return run.left(&block, started_ms, Flow::Stop, m);
                }
                let body = copy_blocks(&block.children);
                let f = Frame::Loop { block, started_ms, left: left - 1 };
                let g = Frame::List { blocks: body, next: 0 };
                proof {
                    lemma_frames(run.stack@, f);
                    lemma_frames(run.stack@.push(f), g);
                }
                run.stack.push(f);
                run.stack.push(g);
                run.phase = Phase::Next;
                (run, Action::Proceed)
            },
            Some(Frame::Each { block, started_ms, items, next }) => {
                proof {
                    lemma_frames(st, st.last());
                    lemma_block_view(block);
                }
                assert(values(items@).len() == items@.len());
                if next >= items.len() {
                    return run.left(&block, started_ms, Flow::Continue, m);
                }
                run.ctx.loop_iterations = run.ctx.loop_iterations + 1;
                if run.ctx.loop_iterations > run.ctx.caps.max_loop_iterations {
                    return run.capped("max_loop_iterations");
                }
                if m.cancelled {
                    return run.left(&block, started_ms, Flow::Stop, m);
                }
                assert(values(items@)[next as int] == items@[next as int]@);
                run.ctx.assign("item", items[next].copy());
                run.ctx.assign("loop_index", Json::from_uint(next as u64));
                let body = copy_blocks(&block.children);
                let f = Frame::Each { block, started_ms, items, next: next + 1 };
                let g = Frame::List { blocks: body, next: 0 };
                proof {
                    lemma_frames(run.stack@, f);
                    lemma_frames(run.stack@.push(f), g);
                }
                run.stack.push(f);
                run.stack.push(g);
                run.phase = Phase::Next;
                (run, Action::Proceed)
            },
            Some(Frame::Branch { block, started_ms }) => {
                proof {
                    lemma_frames(st, st.last());
                }
                run.left(&block, started_ms, Flow::Continue, m)
            },
        }
    }

    fn deliver(self, flow: Flow, m: Moment) -> (r: (Engine, Action))
        requires
            self@.phase == PhaseView::Return(flow),
        ensures
            seen(r) == self@.deliver(flow, m),
    {
        proof {
            reveal(RunView::deliver);
        }
        let mut run = self;
        let ghost st = run.stack@;
        let top = run.stack.pop();
        match top {
            None => {
                assert(frames(st).len() == 0);
                assert(run.stack@ =~= st);
                run.over()
            },
            Some(Frame::List { blocks: list, next }) => {
                proof {
                    lemma_frames(st, st.last());
                }
                if flow == Flow::Continue {
                    let f = Frame::List { blocks: list, next };
                    run.stack.push(f);
                    assert(run.stack@ =~= st);
                    run.phase = Phase::Next;
                }
                (run, Action::Proceed)
            },
            Some(Frame::Loop { block, started_ms, left }) => {
                proof {
                    lemma_frames(st, st.last());
                }
                match flow {
                    Flow::Break => run.left(&block, started_ms, Flow::Continue, m),
                    Flow::Stop => run.left(&block, started_ms, Flow::Stop, m),
                    _ => {
                        run.stack.push(Frame::Loop { block, started_ms, left });
                        assert(run.stack@ =~= st);
                        run.phase = Phase::Next;
                        (run, Action::Proceed)
                    },
                }
            },
            Some(Frame::Each { block, started_ms, items, next }) => {
                proof {
                    lemma_frames(st, st.last());
                }
                match flow {
                    Flow::Break => run.left(&block, started_ms, Flow::Continue, m),
                    Flow::Stop => run.left(&block, started_ms, Flow::Stop, m),
                    _ => {
                        run.stack.push(Frame::Each { block, started_ms, items, next });
                        assert(run.stack@ =~= st);
                        run.phase = Phase::Next;
                        (run, Action::Proceed)
                    },
                }
            },
            Some(Frame::Branch { block, started_ms }) => {
                proof {
                    lemma_frames(st, st.last());
                }
                run.left(&block, started_ms, flow, m)
            },
        }
    }

    fn begin(self, b: Block, m: Moment, draws: Vec<u64>) -> (r: (Engine, Action))
        requires
            !b.disabled ==> self.ctx.steps_run < u32::MAX,
        ensures
            seen(r) == self@.begin(b@, m, draws@),
    {
        proof {
            reveal(RunView::begin);
        }
        let mut run = self;
        if b.disabled {
            run.phase = Phase::Next;
            return (run, Action::Proceed);
        }
        run.ctx.steps_run = run.ctx.steps_run + 1;
        if run.ctx.steps_run > run.ctx.caps.max_steps {
            return run.capped("max_steps");
        }
        if m.elapsed_secs > run.ctx.caps.max_total_secs {
            return run.capped("max_total_secs");
        }
        if same(b.block_type.as_str(), "break") {
            run.phase = Phase::Return(Flow::Break);
            return (run, Action::Proceed);
        }
        if same(b.block_type.as_str(), "continue") {
            run.phase = Phase::Return(Flow::ContinueLoop);
            return (run, Action::Proceed);
        }
        if same(b.block_type.as_str(), "stop") {
            run.phase = Phase::Return(Flow::Stop);
            return (run, Action::Proceed);
        }
        let job = Job { block: b, started_ms: m.now_ms, attempt: 0 };
        run.load(job, draws, None, m)
    }

    fn load(self, job: Job, draws: Vec<u64>, readings: Option<TextMap<Whole>>, m: Moment) -> (r: (
        Engine,
        Action,
    ))
        ensures
            seen(r) == self@.load(
                job@,
                draws@,
                match readings {
                    Some(t) => Some(t@),
                    None => None,
                },
                m,
            ),
    {
        proof {
            reveal(RunView::load);
        }
        let mut run = self;
        let first: bool = readings.is_none();
        let table: TextMap<Whole> = match readings {
            Some(t) => t,
            None => TextMap::new(),
        };
        let mut kept: Vec<u64> = Vec::new();
        let mut i: usize = 0;
        while i < draws.len()
            invariant
                i <= draws@.len(),
                kept@ =~= draws@.take(i as int),
            decreases draws@.len() - i,
        {
            kept.push(draws[i]);
            i = i + 1;
        }
        let mut trace = Trace {
            warnings: crate::text::copy_texts(&run.ctx.warnings),
            draws,
            asked: Vec::new(),
            unknown: Vec::new(),
        };
        let ghost tr0 = trace@;
        assert(tr0 =~= fresh_trace(run.ctx@.warnings, draws@)) by {
            assert(texts(trace.asked@) =~= Seq::<Seq<char>>::empty());
            assert(texts(trace.unknown@) =~= Seq::<Seq<char>>::empty());
        }
        let p = {
            let scope = Scope {
                vars: &run.ctx.variables,
                sys: &run.ctx.system,
                readings: &table,
            };
            assert(scope@ == run.ctx@.scope(table@));
            interp_value(&job.block.params, &scope, &mut trace)
        };
        assert(texts(trace.asked@).len() == trace.asked@.len());
        assert(texts(trace.unknown@).len() == trace.unknown@.len());
        if trace.unknown.len() > 0 {
            assert(texts(trace.unknown@)[0] == trace.unknown@[0]@);
            let error = join2("Unknown filter: ", trace.unknown[0].as_str());
            run.ctx.warnings = trace.warnings;
            return run.fail(job, error, m);
        }
        if first && trace.asked.len() > 0 {
            assert(kept@ =~= draws@);
            run.phase = Phase::Load { job, draws: kept };
            return (run, Action::ReadNumbers { notations: trace.asked });
        }
        let draw: u64 = match trace.draws.pop() {
            Some(d) => d,
            None => 0,
        };
        run.ctx.warnings = trace.warnings;
        run.enter(job, p, draw, m)
    }

    fn enter(self, job: Job, p: Json, draw: u64, m: Moment) -> (r: (Engine, Action))
        ensures
            seen(r) == self@.enter(job@, p@, draw, m),
    {
        proof {
            reveal(RunView::enter);
        }
        let mut run = self;
        if same(job.block.block_type.as_str(), "loop") {
            let f = Frame::Loop {
                started_ms: job.started_ms,
                block: job.block,
                left: u64_or(&p, "count", 0),
            };
            proof {
                lemma_frames(run.stack@, f);
            }
            run.stack.push(f);
            run.phase = Phase::Next;
            return (run, Action::Proceed);
        }
        if same(job.block.block_type.as_str(), "condition") {
            return match read_condition(&p, &run.ctx.variables) {
                Some(c) => {
                    let pairs = pairs_to_compare(&c);
                    assert(text_pairs(pairs@).len() == pairs@.len());
                    if pairs.len() == 0 {
                        let none: Vec<Option<NumOrder>> = Vec::new();
                        assert(none@ =~= Seq::<Option<NumOrder>>::empty());
                        let yes = eval_condition(&c, &none);
                        run.branch(job, yes)
                    } else {
                        run.phase = Phase::Compare { job, condition: c };
                        (run, Action::Compare { pairs })
                    }
                },
                None => run.branch(job, false),
            };
        }
        if same(job.block.block_type.as_str(), "for_each") {
            let source = p.str_or("source", "");
            proof {
                lemma_values_by(run.ctx.variables@, deep(), source@, Json::Null);
            }
            let items = match run.ctx.variables.get(source.as_str()) {
                Some(Json::Array(a)) => copy_values(a),
                _ => {
                    let none: Vec<Json> = Vec::new();
                    assert(values(none@) =~= Seq::<JsonView>::empty());
                    none
                },
            };
            let f = Frame::Each {
                started_ms: job.started_ms,
                block: job.block,
                items,
                next: 0,
            };
            proof {
                lemma_frames(run.stack@, f);
            }
            run.stack.push(f);
            run.phase = Phase::Next;
            return (run, Action::Proceed);
        }
        run.leaf(job, p, draw, m)
    }

    fn branch(self, job: Job, yes: bool) -> (r: (Engine, Action))
        ensures
            seen(r) == self@.branch(job@, yes),
    {
        proof {
            reveal(RunView::branch);
        }
        let mut run = self;
        let Job { block, started_ms, attempt: _ } = job;
        proof {
            lemma_block_view(block);
        }
        let list: Option<Vec<Block>> = if yes {
            Some(copy_blocks(&block.children))
        } else {
            match &block.branch_else {
                Some(other) => Some(copy_blocks(other)),
                None => None,
            }
        };
        let f = Frame::Branch { block, started_ms };
        proof {
            lemma_frames(run.stack@, f);
        }
        run.stack.push(f);
        match list {
            Some(l) => {
                let g = Frame::List { blocks: l, next: 0 };
                proof {
                    lemma_frames(run.stack@, g);
                }
                run.stack.push(g);
                run.phase = Phase::Next;
                (run, Action::Proceed)
            },
            None => {
                run.phase = Phase::Return(Flow::Continue);
                (run, Action::Proceed)
            },
        }
    }

    fn await_task(self, job: Job, params: Json, task: Task, a: Action) -> (r: (Engine, Action))
        ensures
            seen(r) == self@.await_task(job@, params@, task@, a@),
    {
        let mut run = self;
        run.phase = Phase::Work { job, params, task };
        (run, a)
    }

    fn leaf(self, job: Job, p: Json, draw: u64, m: Moment) -> (r: (Engine, Action))
        ensures
            seen(r) == self@.leaf(job@, p@, draw, m),
    {
        proof {
            reveal(RunView::leaf);
        }
        let mut run = self;
        match leaf_plan(job.block.block_type.as_str(), &p) {
            Plan::Call { tool, args, store } => {
                if job.block.dry_run {
                    if store {
                        let reply = Json::empty().with("dry_run", Json::Bool(true));
                        run.ctx.store_output(&p, &reply);
                    }
                    return run.succeed(job, m);
                }
                run.await_task(job, p, Task::Tool { store }, Action::Call { tool, args })
            },
            Plan::Wait { seconds } => run.await_task(job, p, Task::Rest, Action::Wait { seconds }),
            Plan::WaitRandom { min, max } => run.await_task(
                job,
                p,
                Task::Rest,
                Action::WaitRandom { min, max },
            ),
            Plan::Assign { name, value } => {
                run.ctx.assign(name.as_str(), value);
                run.succeed(job, m)
            },
            Plan::Note { message } => {
                run.ctx.warn(message);
                run.succeed(job, m)
            },
            Plan::PickRow => {
                run.ctx.pick_row(&p, draw);
                run.succeed(job, m)
            },
            Plan::LoadDataset => {
                run.ctx.load_dataset(&p);
                run.succeed(job, m)
            },
            Plan::Ai => run.ai(job, p, m),
            Plan::Nothing => run.succeed(job, m),
            Plan::Fail { message } => run.fail(job, message, m),
        }
    }

    fn succeed(self, job: Job, m: Moment) -> (r: (Engine, Action))
        ensures
            seen(r) == self@.succeed(job@, m),
    {
        let mut run = self;
        if job.block.dry_run {
            run.ctx.log(&job.block, job.started_ms, m.now_ms, "dry_run", None);
        } else if job.attempt > 0 {
            run.ctx.log(&job.block, job.started_ms, m.now_ms, "retried", None);
        } else {
            run.ctx.log(&job.block, job.started_ms, m.now_ms, "ok", None);
        }
        run.phase = Phase::Next;
        (run, Action::Proceed)
    }

    fn fail(self, job: Job, error: String, m: Moment) -> (r: (Engine, Action))
        ensures
            seen(r) == self@.fail(job@, error@, m),
    {
        let mut run = self;
        let e: OnError = match job.block.on_error {
            Some(e) => e,
            None => run.default_err,
        };
        if e == OnError::Retry && job.attempt < 2 {
            let again = Job {
                block: job.block,
                started_ms: job.started_ms,
                attempt: job.attempt + 1,
            };
            run.phase = Phase::Pause { job: again };
            return (run, Action::Sleep { ms: 2000 });
        }
        if e == OnError::Skip {
            run.ctx.log(&job.block, job.started_ms, m.now_ms, "skipped", Some(error));
            run.phase = Phase::Next;
            return (run, Action::Proceed);
        }
        run.ctx.log(&job.block, job.started_ms, m.now_ms, "failed", Some(error));
        run.ctx.warn("Run stopped on error".to_owned());
        run.over()
    }

    fn ai(self, job: Job, p: Json, m: Moment) -> (r: (Engine, Action))
        ensures
            seen(r) == self@.ai(job@, p@, m),
    {
        let mut run = self;
        let on: bool = run.ctx.ai_is_on(&job.block);
        let cap: u64 = run.ctx.caps.max_ai_tokens;
        if on && run.ctx.ai_tokens_used < cap {
            if run.has_ai {
                return run.ask_page(job, p);
            }
            return run.fall_back(job, p, m);
        }
        if on {
            run.ctx.warn(join3("[ai] token cap ", dec_u64(cap).as_str(), " reached → fallback"));
        }
        run.fall_back(job, p, m)
    }

    fn ask_page(self, job: Job, p: Json) -> (r: (Engine, Action))
        ensures
            seen(r) == self@.ask_page(job@, p@),
    {
        let prompt = question_of(&p);
        if asks_for(&p, "page_text") {
            let args = Json::empty().with("format", Json::text("text"));
            self.await_task(
                job,
                p,
                Task::PageText { prompt },
                Action::Call { tool: "get_page_content".to_owned(), args },
            )
        } else {
            self.ask_elements(job, p, prompt)
        }
    }

    fn ask_elements(self, job: Job, p: Json, prompt: String) -> (r: (Engine, Action))
        ensures
            seen(r) == self@.ask_elements(job@, p@, prompt@),
    {
        if asks_for(&p, "interactive_list") {
            self.await_task(
                job,
                p,
                Task::Elements { prompt },
                Action::Call {
                    tool: "get_interactive_elements".to_owned(),
                    args: Json::empty(),
                },
            )
        } else {
            self.ask_model(job, p, prompt)
        }
    }

    fn ask_model(self, job: Job, p: Json, prompt: String) -> (r: (Engine, Action))
        ensures
            seen(r) == self@.ask_model(job@, p@, prompt@),
    {
        let request = AiRequest {
            system:
                "You are a browser-automation assistant. Follow the requested output format exactly.".to_owned(),
            prompt,
            schema: schema_for(job.block.block_type.as_str()),
        };
        self.await_task(job, p, Task::Answer, Action::Ask { request })
    }

    fn fall_back(self, job: Job, p: Json, m: Moment) -> (r: (Engine, Action))
        ensures
            seen(r) == self@.fall_back(job@, p@, m),
    {
        let mut run = self;
        if same(job.block.block_type.as_str(), "ai_summarize") {
            let args = Json::empty().with("format", Json::text("text"));
            return run.await_task(
                job,
                p,
                Task::Summary,
                Action::Call { tool: "get_page_content".to_owned(), args },
            );
        }
        let v = value_instead(job.block.block_type.as_str(), &p);
        run.ctx.take_instead(&job.block, &p, v);
        run.succeed(job, m)
    }

    fn resume(self, job: Job, p: Json, task: Task, ev: Event, m: Moment) -> (r: (Engine, Action))
        requires
            self@.go(PhaseView::Work { job: job@, params: p@, task: task@ }).has_room(m, ev@),
        ensures
            seen(r) == self@.go(
                PhaseView::Work { job: job@, params: p@, task: task@ },
            ).resume(job@, p@, task@, ev@, m),
    {
        proof {
            reveal(RunView::resume);
        }
        let mut run = self;
        match ev {
            Event::Ready => {
                if let Task::Rest = task {
                    return run.succeed(job, m);
                }
            },
            Event::Answered(Ok(a)) => {
                if let Task::Answer = task {
                    run.ctx.take_answer(&job.block, &p, &a);
                    return run.succeed(job, m);
                }
            },
            Event::Answered(Err(e)) => {
                if let Task::Answer = task {
                    let mut w = join3(
                        "[ai] ",
                        job.block.block_type.as_str(),
                        " error → fallback: ",
                    );
                    w.append(e.as_str());
                    run.ctx.warn(w);
                    return run.fall_back(job, p, m);
                }
            },
            Event::Reply(Ok(v)) => {
                match task {
                    Task::Tool { store } => {
                        if store {
                            run.ctx.store_output(&p, &v);
                        }
                        return run.succeed(job, m);
                    },
                    Task::PageText { prompt } => {
                        let mut q = join2(prompt.as_str(), "\n\n[PAGE TEXT]\n");
                        q.append(text_of(&v).as_str());
                        return run.ask_elements(job, p, q);
                    },
                    Task::Elements { prompt } => {
                        let mut q = join2(prompt.as_str(), "\n\n[INTERACTIVE]\n");
                        q.append(text_of(&v).as_str());
                        return run.ask_model(job, p, q);
                    },
                    Task::Summary => {
                        let most: u64 = u64_or(&p, "max_length", 500);
                        let text = text_of(&v);
                        let n: usize = count_chars(text.as_str());
                        let short = if n as u64 > most {
                            clip(text.as_str(), most as usize)
                        } else {
                            text
                        };
                        run.ctx.take_instead(&job.block, &p, Json::Str(short));
                        return run.succeed(job, m);
                    },
                    other => {
                        run.phase = Phase::Work { job, params: p, task: other };
                        return (run, Action::Proceed);
                    },
                }
            },
            Event::Reply(Err(e)) => {
                match task {
                    Task::Rest => {},
                    Task::Answer => {},
                    _ => {
                        return run.fail(job, e, m);
                    },
                }
            },
            _ => {},
        }
        run.phase = Phase::Work { job, params: p, task };
        (run, Action::Proceed)
    }

    /// One step of the machine, given the random numbers that it may need.
    pub fn step_with(self, m: Moment, ev: Event, draws: Vec<u64>) -> (r: (Engine, Action))
        requires
            self@.has_room(m, ev@),
        ensures
            seen(r) == self@.step(m, ev@, draws@),
    {
        let Engine { ctx, default_err, has_ai, stack, phase } = self;
        match phase {
            Phase::Next => {
                let run = Engine { ctx, default_err, has_ai, stack, phase: Phase::Next };
                run.next(m, draws)
            },
            Phase::Return(flow) => {
                let run = Engine { ctx, default_err, has_ai, stack, phase: Phase::Return(flow) };
                run.deliver(flow, m)
            },
            Phase::Load { job, draws: kept } => match ev {
                Event::Numbers(t) => {
                    let run = Engine { ctx, default_err, has_ai, stack, phase: Phase::Next };
                    run.load(job, kept, Some(t), m)
                },
                _ => {
                    let run = Engine {
                        ctx,
                        default_err,
                        has_ai,
                        stack,
                        phase: Phase::Load { job, draws: kept },
                    };
                    (run, Action::Proceed)
                },
            },
            Phase::Compare { job, condition } => match ev {
                Event::Compared(o) => {
                    let yes = eval_condition(&condition, &o);
                    let run = Engine { ctx, default_err, has_ai, stack, phase: Phase::Next };
                    run.branch(job, yes)
                },
                _ => {
                    let run = Engine {
                        ctx,
                        default_err,
                        has_ai,
                        stack,
                        phase: Phase::Compare { job, condition },
                    };
                    (run, Action::Proceed)
                },
            },
            Phase::Work { job, params, task } => {
                let run = Engine { ctx, default_err, has_ai, stack, phase: Phase::Next };
                run.resume(job, params, task, ev, m)
            },
            Phase::Pause { job } => {
                let mut run = Engine { ctx, default_err, has_ai, stack, phase: Phase::Next };
                if m.cancelled {
                    run.phase = Phase::Return(Flow::Stop);
                    (run, Action::Proceed)
                } else {
                    run.load(job, draws, None, m)
                }
            },
            Phase::Done => {
                let run = Engine { ctx, default_err, has_ai, stack, phase: Phase::Done };
                (run, Action::Finished)
            },
        }
    }

    /// How many random numbers the next step may take.
    fn draws_needed(&self) -> (n: usize)
        ensures
            n == capped(self@.draws_wanted()),
    {
        let tokens: usize = match &self.phase {
            Phase::Next => {
                let top: usize = self.stack.len();
                assert(self@.stack.len() == top);
                if top == 0 {
                    0
                } else {
                    assert(self@.stack.last() == self.stack@[top - 1]@);
                    match &self.stack[top - 1] {
                        Frame::List { blocks: list, next } => {
                            assert(blocks(list@).len() == list@.len());
                            if *next < list.len() {
                                assert(blocks(list@)[*next as int] == list@[*next as int]@);
                                count_value_tokens(&list[*next].params)
                            } else {
                                0
                            }
                        },
                        _ => 0,
                    }
                }
            },
            Phase::Pause { job } => count_value_tokens(&job.block.params),
            _ => 0,
        };
        capped_sum(tokens, 1)
    }

    /// One step of the machine.
    pub fn step(self, m: Moment, ev: Event) -> (r: (Engine, Action))
        requires
            self@.has_room(m, ev@),
        ensures
            exists|draws: Seq<u64>|
                draws.len() == capped(self@.draws_wanted()) && seen(r) == #[trigger] self@.step(
                    m,
                    ev@,
                    draws,
                ),
    {
        let draws = draw(self.draws_needed());
        self.step_with(m, ev, draws)
    }
}

} // verus!
