//! What a run does, step by step.
//!
//! A run is a machine that goes step by step. Each step takes what came back
//! from the action before it and says what to do next: call a tool, rest, ask
//! a language model, compare numbers. Whoever drives the machine does that,
//! and tells at each step whether the run was cancelled and what the clock
//! says.
use vstd::prelude::*;

use crate::ai::{AiRequest, AiRequestView, AiResult, AiResultView};
use crate::context::{ContextView, RunContext};
use crate::dataset::{seed, Row};
use crate::interpolate::{
    filled_value, fresh_trace, openings_in, ScopeView, TraceView, Whole,
};
use crate::map::{lookup, TextMap};
use crate::model::{blocks, AiMode, Block, BlockView, OnError};
use crate::plan::{
    compared, condition_of, holds, opt_number, plan_of, reply_text, row_index, str_arg,
    text_of_field, text_or, text_pairs, uint_or, Condition, ConditionView, NumOrder, PlanView,
};
use crate::text::{clipped, dec, texts};
use crate::value::{values, Json, JsonView, Number, NumberView};

verus! {

// ---------------------------------------------------------------------------
// What the machine says and hears
// ---------------------------------------------------------------------------

/// How control leaves a block.
#[derive(Debug, Clone, Copy, PartialEq, Eq, Structural)]
pub enum Flow {
    Continue,
    Break,
    ContinueLoop,
    Stop,
}

/// What holds when a step is taken: whether the run was cancelled, the time
/// since its start, and a clock in milliseconds.
#[derive(Debug, Clone, Copy, PartialEq, Eq, Structural)]
pub struct Moment {
    pub cancelled: bool,
    pub elapsed_secs: u64,
    pub now_ms: u64,
}

/// What to do before the next step.
#[derive(Debug, PartialEq, Eq)]
pub enum Action {
    /// Nothing: take the next step.
    Proceed,
    /// Call a tool on the profile of the run.
    Call { tool: String, args: Json },
    /// Rest, unless the run is cancelled.
    Sleep { ms: u64 },
    Wait { seconds: Option<Number> },
    WaitRandom { min: Option<Number>, max: Option<Number> },
    /// Read the notations of numbers.
    ReadNumbers { notations: Vec<String> },
    /// Compare numbers by their notations.
    Compare { pairs: Vec<(String, String)> },
    /// Ask a language model.
    Ask { request: AiRequest },
    /// The run is over.
    Finished,
}

pub enum ActionView {
    Proceed,
    Call { tool: Seq<char>, args: JsonView },
    Sleep { ms: u64 },
    Wait { seconds: Option<NumberView> },
    WaitRandom { min: Option<NumberView>, max: Option<NumberView> },
    ReadNumbers { notations: Seq<Seq<char>> },
    Compare { pairs: Seq<(Seq<char>, Seq<char>)> },
    Ask { request: AiRequestView },
    Finished,
}

impl Action {
    pub open spec fn view(&self) -> ActionView {
        match self {
            Action::Proceed => ActionView::Proceed,
            Action::Call { tool, args } => ActionView::Call { tool: tool@, args: args@ },
            Action::Sleep { ms } => ActionView::Sleep { ms: *ms },
            Action::Wait { seconds } => ActionView::Wait { seconds: opt_number(*seconds) },
            Action::WaitRandom { min, max } => ActionView::WaitRandom {
                min: opt_number(*min),
                max: opt_number(*max),
            },
            Action::ReadNumbers { notations } => ActionView::ReadNumbers {
                notations: texts(notations@),
            },
            Action::Compare { pairs } => ActionView::Compare { pairs: text_pairs(pairs@) },
            Action::Ask { request } => ActionView::Ask { request: request@ },
            Action::Finished => ActionView::Finished,
        }
    }
}

/// What came back from an action.
#[derive(Debug, PartialEq, Eq)]
pub enum Event {
    /// Nothing was to come back, or the rest is over.
    Ready,
    /// The reply of a tool, or what went wrong.
    Reply(Result<Json, String>),
    /// What the notations stand for that could be read.
    Numbers(TextMap<Whole>),
    /// How each pair compares; none where one of the two is no number.
    Compared(Vec<Option<NumOrder>>),
    /// The answer of a language model, or what went wrong.
    Answered(Result<AiResult, String>),
}

pub enum EventView {
    Ready,
    Reply(Result<JsonView, Seq<char>>),
    Numbers(Seq<(Seq<char>, Whole)>),
    Compared(Seq<Option<NumOrder>>),
    Answered(Result<AiResultView, Seq<char>>),
}

impl Event {
    pub open spec fn view(&self) -> EventView {
        match self {
            Event::Ready => EventView::Ready,
            Event::Reply(Ok(v)) => EventView::Reply(Ok(v@)),
            Event::Reply(Err(e)) => EventView::Reply(Err(e@)),
            Event::Numbers(m) => EventView::Numbers(m@),
            Event::Compared(o) => EventView::Compared(o@),
            Event::Answered(Ok(a)) => EventView::Answered(Ok(a@)),
            Event::Answered(Err(e)) => EventView::Answered(Err(e@)),
        }
    }
}

// ---------------------------------------------------------------------------
// Where the machine stands
// ---------------------------------------------------------------------------

/// What is under way, from the outside in.
pub enum Frame {
    /// A list of blocks, and the place of the next one.
    List { blocks: Vec<Block>, next: usize },
    /// A loop, and the rounds that are left.
    Loop { block: Block, started_ms: u64, left: u64 },
    /// A loop over items, and the place of the next one.
    Each { block: Block, started_ms: u64, items: Vec<Json>, next: usize },
    /// A condition that has been decided.
    Branch { block: Block, started_ms: u64 },
}

pub enum FrameView {
    List { blocks: Seq<BlockView>, next: int },
    Loop { block: BlockView, started_ms: u64, left: u64 },
    Each { block: BlockView, started_ms: u64, items: Seq<JsonView>, next: int },
    Branch { block: BlockView, started_ms: u64 },
}

impl Frame {
    pub open spec fn view(&self) -> FrameView {
        match self {
            Frame::List { blocks: b, next } => FrameView::List {
                blocks: blocks(b@),
                next: *next as int,
            },
            Frame::Loop { block, started_ms, left } => FrameView::Loop {
                block: block@,
                started_ms: *started_ms,
                left: *left,
            },
            Frame::Each { block, started_ms, items, next } => FrameView::Each {
                block: block@,
                started_ms: *started_ms,
                items: values(items@),
                next: *next as int,
            },
            Frame::Branch { block, started_ms } => FrameView::Branch {
                block: block@,
                started_ms: *started_ms,
            },
        }
    }
}

pub open spec fn frames(v: Seq<Frame>) -> Seq<FrameView> {
    v.map_values(|f: Frame| f@)
}

pub proof fn lemma_frames(v: Seq<Frame>, f: Frame)
    ensures
        frames(v.push(f)) == frames(v).push(f@),
        frames(v).len() == v.len(),
        v.len() > 0 ==> frames(v.drop_last()) == frames(v).drop_last(),
        v.len() > 0 ==> frames(v).last() == v.last()@,
{
    assert(frames(v.push(f)) =~= frames(v).push(f@));
    if v.len() > 0 {
        assert(frames(v.drop_last()) =~= frames(v).drop_last());
    }
}

/// What a block at work waits for.
pub enum Task {
    /// The reply of a tool; its text goes to the output variable where
    /// `store` says so.
    Tool { store: bool },
    Rest,
    /// The text of the page, for a question to a language model.
    PageText { prompt: String },
    /// The list of interactive elements, for the question.
    Elements { prompt: String },
    Answer,
    /// The text of the page, to be cut down in place of a summary.
    Summary,
}

pub enum TaskView {
    Tool { store: bool },
    Rest,
    PageText { prompt: Seq<char> },
    Elements { prompt: Seq<char> },
    Answer,
    Summary,
}

impl Task {
    pub open spec fn view(&self) -> TaskView {
        match self {
            Task::Tool { store } => TaskView::Tool { store: *store },
            Task::Rest => TaskView::Rest,
            Task::PageText { prompt } => TaskView::PageText { prompt: prompt@ },
            Task::Elements { prompt } => TaskView::Elements { prompt: prompt@ },
            Task::Answer => TaskView::Answer,
            Task::Summary => TaskView::Summary,
        }
    }
}

/// A block under way: when it was started, and how often it has failed.
pub struct Job {
    pub block: Block,
    pub started_ms: u64,
    pub attempt: u32,
}

pub struct JobView {
    pub block: BlockView,
    pub started_ms: u64,
    pub attempt: u32,
}

impl Job {
    pub open spec fn view(&self) -> JobView {
        JobView { block: self.block@, started_ms: self.started_ms, attempt: self.attempt }
    }
}

/// What the machine does next.
pub enum Phase {
    /// Goes on with the innermost frame.
    Next,
    /// Hands the flow of a block or a list to the innermost frame.
    Return(Flow),
    /// Waits for the numbers that the settings of a block mention.
    Load { job: Job, draws: Vec<u64> },
    /// Waits for the comparisons that decide a condition.
    Compare { job: Job, condition: Condition },
    /// Waits for what a block set off.
    Work { job: Job, params: Json, task: Task },
    /// Rests before a block is tried again.
    Pause { job: Job },
    Done,
}

pub enum PhaseView {
    Next,
    Return(Flow),
    Load { job: JobView, draws: Seq<u64> },
    Compare { job: JobView, condition: ConditionView },
    Work { job: JobView, params: JsonView, task: TaskView },
    Pause { job: JobView },
    Done,
}

impl Phase {
    pub open spec fn view(&self) -> PhaseView {
        match self {
            Phase::Next => PhaseView::Next,
            Phase::Return(f) => PhaseView::Return(*f),
            Phase::Load { job, draws } => PhaseView::Load { job: job@, draws: draws@ },
            Phase::Compare { job, condition } => PhaseView::Compare {
                job: job@,
                condition: condition@,
            },
            Phase::Work { job, params, task } => PhaseView::Work {
                job: job@,
                params: params@,
                task: task@,
            },
            Phase::Pause { job } => PhaseView::Pause { job: job@ },
            Phase::Done => PhaseView::Done,
        }
    }
}

/// A run of a scenario.
pub struct Engine {
    pub ctx: RunContext,
    pub default_err: OnError,
    /// Whether there is a language model to ask.
    pub has_ai: bool,
    pub stack: Vec<Frame>,
    pub phase: Phase,
}

pub struct RunView {
    pub ctx: ContextView,
    pub default_err: OnError,
    pub has_ai: bool,
    pub stack: Seq<FrameView>,
    pub phase: PhaseView,
}

impl Engine {
    pub open spec fn view(&self) -> RunView {
        RunView {
            ctx: self.ctx@,
            default_err: self.default_err,
            has_ai: self.has_ai,
            stack: frames(self.stack@),
            phase: self.phase@,
        }
    }
}

pub type Outcome = (RunView, ActionView);

// ---------------------------------------------------------------------------
// One step
// ---------------------------------------------------------------------------

/// The question that an AI block asks, before what it adds of the page.
pub open spec fn question(p: JsonView) -> Seq<char> {
    let v = match p.field("prompt"@) {
        Some(v) => Some(v),
        None => p.field("question"@),
    };
    match v {
        Some(v) => match v.text() {
            Some(t) => t,
            None => ""@,
        },
        None => ""@,
    }
}

/// Whether the settings ask for the given input.
pub open spec fn wants(p: JsonView, what: Seq<char>) -> bool {
    match p.field_array("input"@) {
        Some(a) => exists|i: int| 0 <= i < a.len() && (#[trigger] a[i]).text() == Some(what),
        None => false,
    }
}

pub open spec fn one_property(name: Seq<char>, kind: Seq<char>) -> JsonView {
    JsonView::empty().with("type"@, JsonView::Str("object"@)).with(
        "properties"@,
        JsonView::empty().with(name, str_arg("type"@, kind)),
    ).with("required"@, JsonView::Array(seq![JsonView::Str(name)]))
}

/// The shape that the answer is to have.
pub open spec fn answer_schema(kind: Seq<char>) -> Option<JsonView> {
    if kind == "ai_check"@ {
        Some(one_property("result"@, "boolean"@))
    } else if kind == "ai_find_element"@ {
        Some(one_property("index"@, "integer"@))
    } else if kind == "ai_decide"@ || kind == "ai_extract"@ {
        Some(one_property("items"@, "array"@))
    } else {
        None
    }
}

/// The value that an answer stands for.
pub open spec fn answer_value(kind: Seq<char>, a: AiResultView) -> JsonView {
    if kind == "ai_check"@ {
        JsonView::Bool(
            match a.json {
                Some(j) => match j.field_bool("result"@) {
                    Some(b) => b,
                    None => false,
                },
                None => false,
            },
        )
    } else if kind == "ai_find_element"@ {
        match a.json {
            Some(j) => match j.field("index"@) {
                Some(v) => v,
                None => JsonView::from_uint(0),
            },
            None => JsonView::from_uint(0),
        }
    } else if kind == "ai_decide"@ || kind == "ai_extract"@ {
        match a.json {
            Some(j) => match j.field("items"@) {
                Some(v) => v,
                None => j,
            },
            None => JsonView::Array(Seq::empty()),
        }
    } else {
        JsonView::Str(
            match a.text {
                Some(t) => t,
                None => Seq::empty(),
            },
        )
    }
}

/// The value that stands in for an answer.
pub open spec fn fallback_value(kind: Seq<char>, p: JsonView) -> JsonView {
    if kind == "ai_check"@ {
        JsonView::Bool(false)
    } else if kind == "ai_write"@ {
        JsonView::Str(text_of_field(p, "fallback_text"@))
    } else if kind == "ai_find_element"@ {
        JsonView::from_uint(0)
    } else {
        JsonView::Array(Seq::empty())
    }
}

pub open spec fn answer_note(kind: Seq<char>, a: AiResultView, total: u64, cap: u64) -> Seq<char> {
    "[ai] "@ + kind + " ok (tokens "@ + dec(a.input_tokens as nat) + "+"@ + dec(
        a.output_tokens as nat,
    ) + ", total "@ + dec(total as nat) + "/"@ + dec(cap as nat) + ")"@
}

/// What stands for the reply of a tool that a dry run does not call.
pub open spec fn dry_reply() -> JsonView {
    JsonView::empty().with("dry_run"@, JsonView::Bool(true))
}

pub open spec fn assistant() -> Seq<char> {
    "You are a browser-automation assistant. Follow the requested output format exactly."@
}

impl ContextView {
    pub open spec fn scope(self, readings: Seq<(Seq<char>, Whole)>) -> ScopeView {
        ScopeView { vars: self.variables, sys: self.system, readings }
    }

    /// The settings of a block, filled in, and what went along with it.
    pub open spec fn prepared(
        self,
        params: JsonView,
        readings: Seq<(Seq<char>, Whole)>,
        draws: Seq<u64>,
    ) -> (JsonView, TraceView) {
        filled_value(params, self.scope(readings), fresh_trace(self.warnings, draws))
    }

    /// The state once a row has been picked from a dataset.
    pub open spec fn row_picked(self, p: JsonView, draw: u64) -> ContextView {
        let id = text_of_field(p, "dataset_id"@);
        let prefix = match p.field_str("prefix"@) {
            Some(s) => if s.len() > 0 {
                Some(s)
            } else {
                None
            },
            None => None,
        };
        match lookup(self.datasets, id) {
            Some(rows) => if rows.len() > 0 {
                self.assign_all(seed(prefix, rows[row_index(p, rows.len() as int, draw)]))
            } else {
                self.warn("[pick_row] dataset '"@ + id + "' missing or empty"@)
            },
            None => self.warn("[pick_row] dataset '"@ + id + "' missing or empty"@),
        }
    }

    /// The state once a dataset has been put into a variable.
    pub open spec fn dataset_loaded(self, p: JsonView) -> ContextView {
        let id = text_of_field(p, "dataset_id"@);
        match lookup(self.datasets, id) {
            Some(rows) => self.assign(
                text_or(p, "output_variable"@, "rows"@),
                JsonView::Array(rows.map_values(|r: Row| JsonView::Object(r))),
            ),
            None => self.warn("[load_dataset] dataset '"@ + id + "' not found"@),
        }
    }

    /// The state once the text of a reply has gone to the output variable.
    pub open spec fn stored(self, p: JsonView, reply: JsonView) -> ContextView {
        self.assign_opt(p.field_str("output_variable"@), JsonView::Str(reply_text(reply)))
    }

    pub open spec fn count_step(self) -> ContextView {
        ContextView { steps_run: (self.steps_run + 1) as u32, ..self }
    }

    pub open spec fn count_round(self) -> ContextView {
        ContextView { loop_iterations: (self.loop_iterations + 1) as u32, ..self }
    }

    /// Whether an AI block asks a language model, as far as the scenario and
    /// the block have a say.
    pub open spec fn ai_on(self, b: BlockView) -> bool {
        match self.ai_mode {
            AiMode::NoAi => false,
            AiMode::Ai => true,
            AiMode::Auto => b.ai_enabled,
        }
    }

    pub open spec fn budget_left(self) -> bool {
        self.ai_tokens_used < self.caps.max_ai_tokens
    }

    /// The state once an answer has come in.
    pub open spec fn answered(self, b: BlockView, p: JsonView, a: AiResultView) -> ContextView {
        let total = (self.ai_tokens_used + a.input_tokens + a.output_tokens) as u64;
        let set = self.assign_opt(
            p.field_str("output_variable"@),
            answer_value(b.block_type, a),
        );
        ContextView { ai_tokens_used: total, ..set }.warn(
            answer_note(b.block_type, a, total, self.caps.max_ai_tokens),
        )
    }

    /// The state once a value has stood in for an answer.
    pub open spec fn fallen_back(self, b: BlockView, p: JsonView, v: JsonView) -> ContextView {
        self.assign_opt(p.field_str("output_variable"@), v).warn("[ai] fallback "@ + b.block_type)
    }
}

impl RunView {
    pub open spec fn go(self, phase: PhaseView) -> RunView {
        RunView { phase, ..self }
    }

    pub open spec fn with_ctx(self, ctx: ContextView) -> RunView {
        RunView { ctx, ..self }
    }

    pub open spec fn pushed(self, f: FrameView) -> RunView {
        RunView { stack: self.stack.push(f), ..self }
    }

    pub open spec fn popped(self) -> RunView {
        RunView { stack: self.stack.drop_last(), ..self }
    }

    /// The end of the run.
    pub open spec fn over(self) -> Outcome {
        (RunView { stack: Seq::empty(), phase: PhaseView::Done, ..self }, ActionView::Finished)
    }

    pub open spec fn capped(self, cap: Seq<char>) -> Outcome {
        self.with_ctx(self.ctx.warn("Run hit cap: "@ + cap)).over()
    }

    pub open spec fn proceed(self) -> Outcome {
        (self, ActionView::Proceed)
    }

    /// The innermost frame is done: it is logged, and its flow goes to the
    /// frame around it.
    pub open spec fn leave(self, b: BlockView, started_ms: u64, flow: Flow, m: Moment) -> Outcome {
        self.with_ctx(self.ctx.log(b, started_ms, m.now_ms, "ok"@, None)).popped().go(
            PhaseView::Return(flow),
        ).proceed()
    }

    /// Goes on with the innermost frame.
    #[verifier::opaque]
    pub open spec fn next(self, m: Moment, draws: Seq<u64>) -> Outcome {
        if self.stack.len() == 0 {
            self.over()
        } else {
            match self.stack.last() {
                FrameView::List { blocks, next } => if next >= blocks.len() {
                    self.popped().go(PhaseView::Return(Flow::Continue)).proceed()
                } else if m.cancelled {
                    self.popped().go(PhaseView::Return(Flow::Stop)).proceed()
                } else {
                    self.popped().pushed(FrameView::List { blocks, next: next + 1 }).begin(
                        blocks[next],
                        m,
                        draws,
                    )
                },
                FrameView::Loop { block, started_ms, left } => if left == 0 {
                    self.leave(block, started_ms, Flow::Continue, m)
                } else {
                    let s = self.with_ctx(self.ctx.count_round());
                    if s.ctx.loop_iterations > s.ctx.caps.max_loop_iterations {
                        s.capped("max_loop_iterations"@)
                    } else if m.cancelled {
                        s.leave(block, started_ms, Flow::Stop, m)
                    } else {
                        s.popped().pushed(
                            FrameView::Loop { block, started_ms, left: (left - 1) as u64 },
                        ).pushed(FrameView::List { blocks: block.children, next: 0 }).go(
                            PhaseView::Next,
                        ).proceed()
                    }
                },
                FrameView::Each { block, started_ms, items, next } => if next >= items.len() {
                    self.leave(block, started_ms, Flow::Continue, m)
                } else {
                    let s = self.with_ctx(self.ctx.count_round());
                    if s.ctx.loop_iterations > s.ctx.caps.max_loop_iterations {
                        s.capped("max_loop_iterations"@)
                    } else if m.cancelled {
                        s.leave(block, started_ms, Flow::Stop, m)
                    } else {
                        s.with_ctx(
                            s.ctx.assign("item"@, items[next]).assign(
                                "loop_index"@,
                                JsonView::from_uint(next as u64),
                            ),
                        ).popped().pushed(
                            FrameView::Each { block, started_ms, items, next: next + 1 },
                        ).pushed(FrameView::List { blocks: block.children, next: 0 }).go(
                            PhaseView::Next,
                        ).proceed()
                    }
                },
                FrameView::Branch { block, started_ms } => self.leave(
                    block,
                    started_ms,
                    Flow::Continue,
                    m,
                ),
            }
        }
    }

    /// Hands a flow to the innermost frame.
    #[verifier::opaque]
    pub open spec fn deliver(self, flow: Flow, m: Moment) -> Outcome {
        if self.stack.len() == 0 {
            self.over()
        } else {
            match self.stack.last() {
                FrameView::List { .. } => if flow == Flow::Continue {
                    self.go(PhaseView::Next).proceed()
                } else {
                    self.popped().proceed()
                },
                FrameView::Loop { block, started_ms, .. } => self.round_ended(
                    block,
                    started_ms,
                    flow,
                    m,
                ),
                FrameView::Each { block, started_ms, .. } => self.round_ended(
                    block,
                    started_ms,
                    flow,
                    m,
                ),
                FrameView::Branch { block, started_ms } => self.leave(block, started_ms, flow, m),
            }
        }
    }

    /// A round of a loop has ended with the given flow.
    pub open spec fn round_ended(
        self,
        b: BlockView,
        started_ms: u64,
        flow: Flow,
        m: Moment,
    ) -> Outcome {
        match flow {
            Flow::Break => self.leave(b, started_ms, Flow::Continue, m),
            Flow::Stop => self.leave(b, started_ms, Flow::Stop, m),
            _ => self.go(PhaseView::Next).proceed(),
        }
    }

    /// Begins a block.
    #[verifier::opaque]
    pub open spec fn begin(self, b: BlockView, m: Moment, draws: Seq<u64>) -> Outcome {
        if b.disabled {
            self.go(PhaseView::Next).proceed()
        } else {
            let s = self.with_ctx(self.ctx.count_step());
            if s.ctx.steps_run > s.ctx.caps.max_steps {
                s.capped("max_steps"@)
            } else if m.elapsed_secs > s.ctx.caps.max_total_secs {
                s.capped("max_total_secs"@)
            } else if b.block_type == "break"@ {
                s.go(PhaseView::Return(Flow::Break)).proceed()
            } else if b.block_type == "continue"@ {
                s.go(PhaseView::Return(Flow::ContinueLoop)).proceed()
            } else if b.block_type == "stop"@ {
                s.go(PhaseView::Return(Flow::Stop)).proceed()
            } else {
                s.load(JobView { block: b, started_ms: m.now_ms, attempt: 0 }, draws, None, m)
            }
        }
    }

    /// Fills in the settings of a block and sets it to work. Where they ask for
    /// a filter that is not known, the block fails; where they mention numbers
    /// that have to be read first, waits for them.
    #[verifier::opaque]
    pub open spec fn load(
        self,
        job: JobView,
        draws: Seq<u64>,
        readings: Option<Seq<(Seq<char>, Whole)>>,
        m: Moment,
    ) -> Outcome {
        let r = match readings {
            Some(r) => r,
            None => Seq::empty(),
        };
        let (p, tr) = self.ctx.prepared(job.block.params, r, draws);
        let told = self.with_ctx(ContextView { warnings: tr.warnings, ..self.ctx });
        if tr.unknown.len() > 0 {
            told.fail(job, "Unknown filter: "@ + tr.unknown[0], m)
        } else if readings is None && tr.asked.len() > 0 {
            (
                self.go(PhaseView::Load { job, draws }),
                ActionView::ReadNumbers { notations: tr.asked },
            )
        } else {
            told.enter(job, p, tr.next(), m)
        }
    }

    /// Sets a block to work with its settings filled in.
    #[verifier::opaque]
    pub open spec fn enter(self, job: JobView, p: JsonView, draw: u64, m: Moment) -> Outcome {
        let b = job.block;
        if b.block_type == "loop"@ {
            self.pushed(
                FrameView::Loop {
                    block: b,
                    started_ms: job.started_ms,
                    left: uint_or(p, "count"@, 0),
                },
            ).go(PhaseView::Next).proceed()
        } else if b.block_type == "condition"@ {
            match condition_of(p, self.ctx.variables) {
                Some(c) => if compared(c).len() == 0 {
                    self.branch(job, holds(c, Seq::empty()))
                } else {
                    (
                        self.go(PhaseView::Compare { job, condition: c }),
                        ActionView::Compare { pairs: compared(c) },
                    )
                },
                None => self.branch(job, false),
            }
        } else if b.block_type == "for_each"@ {
            let items = match lookup(self.ctx.variables, text_of_field(p, "source"@)) {
                Some(JsonView::Array(a)) => a,
                _ => Seq::empty(),
            };
            self.pushed(
                FrameView::Each { block: b, started_ms: job.started_ms, items, next: 0 },
            ).go(PhaseView::Next).proceed()
        } else {
            self.leaf(job, p, draw, m)
        }
    }

    /// Takes the branch of a condition.
    #[verifier::opaque]
    pub open spec fn branch(self, job: JobView, holds: bool) -> Outcome {
        let b = job.block;
        let s = self.pushed(FrameView::Branch { block: b, started_ms: job.started_ms });
        if holds {
            s.pushed(FrameView::List { blocks: b.children, next: 0 }).go(PhaseView::Next).proceed()
        } else {
            match b.branch_else {
                Some(other) => s.pushed(FrameView::List { blocks: other, next: 0 }).go(
                    PhaseView::Next,
                ).proceed(),
                None => s.go(PhaseView::Return(Flow::Continue)).proceed(),
            }
        }
    }

    pub open spec fn await_task(
        self,
        job: JobView,
        p: JsonView,
        task: TaskView,
        a: ActionView,
    ) -> Outcome {
        (self.go(PhaseView::Work { job, params: p, task }), a)
    }

    /// Does what a leaf block does, or sets it off.
    #[verifier::opaque]
    pub open spec fn leaf(self, job: JobView, p: JsonView, draw: u64, m: Moment) -> Outcome {
        match plan_of(job.block.block_type, p) {
            PlanView::Call { tool, args, store } => if job.block.dry_run {
                self.with_ctx(
                    if store {
                        self.ctx.stored(p, dry_reply())
                    } else {
                        self.ctx
                    },
                ).succeed(job, m)
            } else {
                self.await_task(job, p, TaskView::Tool { store }, ActionView::Call { tool, args })
            },
            PlanView::Wait { seconds } => self.await_task(
                job,
                p,
                TaskView::Rest,
                ActionView::Wait { seconds },
            ),
            PlanView::WaitRandom { min, max } => self.await_task(
                job,
                p,
                TaskView::Rest,
                ActionView::WaitRandom { min, max },
            ),
            PlanView::Assign { name, value } => self.with_ctx(
                self.ctx.assign(name, value),
            ).succeed(job, m),
            PlanView::Note { message } => self.with_ctx(self.ctx.warn(message)).succeed(job, m),
            PlanView::PickRow => self.with_ctx(self.ctx.row_picked(p, draw)).succeed(job, m),
            PlanView::LoadDataset => self.with_ctx(self.ctx.dataset_loaded(p)).succeed(job, m),
            PlanView::Ai => self.ai(job, p, m),
            PlanView::Nothing => self.succeed(job, m),
            PlanView::Fail { message } => self.fail(job, message, m),
        }
    }

    /// A block has done its work.
    pub open spec fn succeed(self, job: JobView, m: Moment) -> Outcome {
        let status = if job.block.dry_run {
            "dry_run"@
        } else if job.attempt > 0 {
            "retried"@
        } else {
            "ok"@
        };
        self.with_ctx(
            self.ctx.log(job.block, job.started_ms, m.now_ms, status, None),
        ).go(PhaseView::Next).proceed()
    }

    /// What the run does when a block fails.
    pub open spec fn on_error(self, b: BlockView) -> OnError {
        match b.on_error {
            Some(e) => e,
            None => self.default_err,
        }
    }

    /// A block has failed: it is tried again, skipped, or stops the run.
    pub open spec fn fail(self, job: JobView, error: Seq<char>, m: Moment) -> Outcome {
        let e = self.on_error(job.block);
        if e == OnError::Retry && job.attempt < 2 {
            (
                self.go(
                    PhaseView::Pause { job: JobView { attempt: (job.attempt + 1) as u32, ..job } },
                ),
                ActionView::Sleep { ms: 2000 },
            )
        } else if e == OnError::Skip {
            self.with_ctx(
                self.ctx.log(job.block, job.started_ms, m.now_ms, "skipped"@, Some(error)),
            ).go(PhaseView::Next).proceed()
        } else {
            self.with_ctx(
                self.ctx.log(job.block, job.started_ms, m.now_ms, "failed"@, Some(error)).warn(
                    "Run stopped on error"@,
                ),
            ).over()
        }
    }

    /// Begins an AI block: asks where it may, else falls back.
    pub open spec fn ai(self, job: JobView, p: JsonView, m: Moment) -> Outcome {
        let on = self.ctx.ai_on(job.block);
        if on && self.ctx.budget_left() {
            if self.has_ai {
                self.ask_page(job, p)
            } else {
                self.fall_back(job, p, m)
            }
        } else if on {
            self.with_ctx(
                self.ctx.warn(
                    "[ai] token cap "@ + dec(self.ctx.caps.max_ai_tokens as nat)
                        + " reached → fallback"@,
                ),
            ).fall_back(job, p, m)
        } else {
            self.fall_back(job, p, m)
        }
    }

    pub open spec fn ask_page(self, job: JobView, p: JsonView) -> Outcome {
        if wants(p, "page_text"@) {
            self.await_task(
                job,
                p,
                TaskView::PageText { prompt: question(p) },
                ActionView::Call {
                    tool: "get_page_content"@,
                    args: str_arg("format"@, "text"@),
                },
            )
        } else {
            self.ask_elements(job, p, question(p))
        }
    }

    pub open spec fn ask_elements(self, job: JobView, p: JsonView, prompt: Seq<char>) -> Outcome {
        if wants(p, "interactive_list"@) {
            self.await_task(
                job,
                p,
                TaskView::Elements { prompt },
                ActionView::Call { tool: "get_interactive_elements"@, args: JsonView::empty() },
            )
        } else {
            self.ask_model(job, p, prompt)
        }
    }

    pub open spec fn ask_model(self, job: JobView, p: JsonView, prompt: Seq<char>) -> Outcome {
        self.await_task(
            job,
            p,
            TaskView::Answer,
            ActionView::Ask {
                request: AiRequestView {
                    system: assistant(),
                    prompt,
                    schema: answer_schema(job.block.block_type),
                },
            },
        )
    }

    /// Lets a value stand in for an answer.
    pub open spec fn fall_back(self, job: JobView, p: JsonView, m: Moment) -> Outcome {
        if job.block.block_type == "ai_summarize"@ {
            self.await_task(
                job,
                p,
                TaskView::Summary,
                ActionView::Call {
                    tool: "get_page_content"@,
                    args: str_arg("format"@, "text"@),
                },
            )
        } else {
            self.with_ctx(
                self.ctx.fallen_back(job.block, p, fallback_value(job.block.block_type, p)),
            ).succeed(job, m)
        }
    }

    /// Goes on with a block once what it waited for has come. What it did not
    /// wait for changes nothing.
    #[verifier::opaque]
    pub open spec fn resume(
        self,
        job: JobView,
        p: JsonView,
        task: TaskView,
        ev: EventView,
        m: Moment,
    ) -> Outcome {
        match (task, ev) {
            (TaskView::Rest, EventView::Ready) => self.succeed(job, m),
            (TaskView::Answer, EventView::Answered(Ok(a))) => self.with_ctx(
                self.ctx.answered(job.block, p, a),
            ).succeed(job, m),
            (TaskView::Answer, EventView::Answered(Err(e))) => self.with_ctx(
                self.ctx.warn("[ai] "@ + job.block.block_type + " error → fallback: "@ + e),
            ).fall_back(job, p, m),
            (TaskView::Tool { store }, EventView::Reply(Ok(v))) => self.with_ctx(
                if store {
                    self.ctx.stored(p, v)
                } else {
                    self.ctx
                },
            ).succeed(job, m),
            (TaskView::PageText { prompt }, EventView::Reply(Ok(v))) => self.ask_elements(
                job,
                p,
                prompt + "\n\n[PAGE TEXT]\n"@ + reply_text(v),
            ),
            (TaskView::Elements { prompt }, EventView::Reply(Ok(v))) => self.ask_model(
                job,
                p,
                prompt + "\n\n[INTERACTIVE]\n"@ + reply_text(v),
            ),
            (TaskView::Summary, EventView::Reply(Ok(v))) => self.with_ctx(
                self.ctx.fallen_back(
                    job.block,
                    p,
                    JsonView::Str(
                        clipped(reply_text(v), uint_or(p, "max_length"@, 500) as int),
                    ),
                ),
            ).succeed(job, m),
            (TaskView::Tool { .. }, EventView::Reply(Err(e))) => self.fail(job, e, m),
            (TaskView::PageText { .. }, EventView::Reply(Err(e))) => self.fail(job, e, m),
            (TaskView::Elements { .. }, EventView::Reply(Err(e))) => self.fail(job, e, m),
            (TaskView::Summary, EventView::Reply(Err(e))) => self.fail(job, e, m),
            _ => self.proceed(),
        }
    }

    /// Whether the counters of the run have room for what the next step adds
    /// to them: a block that begins, a round of a loop, or the tokens of an
    /// answer.
    pub open spec fn has_room(self, m: Moment, ev: EventView) -> bool {
        match self.phase {
            PhaseView::Next => self.stack.len() > 0 ==> match self.stack.last() {
                FrameView::List { blocks, next } => next < blocks.len() && !m.cancelled
                    && !blocks[next].disabled ==> self.ctx.steps_run < u32::MAX,
                FrameView::Loop { left, .. } => left > 0 ==> self.ctx.loop_iterations < u32::MAX,
                FrameView::Each { items, next, .. } => next < items.len()
                    ==> self.ctx.loop_iterations < u32::MAX,
                FrameView::Branch { .. } => true,
            },
            PhaseView::Work { task, .. } => match (task, ev) {
                (TaskView::Answer, EventView::Answered(Ok(a))) => self.ctx.ai_tokens_used
                    + a.input_tokens + a.output_tokens <= u64::MAX,
                _ => true,
            },
            _ => true,
        }
    }

    /// How many random numbers the next step may take: one for each opening
    /// pair of braces in the settings of the block that it begins or tries
    /// again, and one for the row that the block may pick.
    pub open spec fn draws_wanted(self) -> nat {
        1 + match self.phase {
            PhaseView::Next => if self.stack.len() > 0 {
                match self.stack.last() {
                    FrameView::List { blocks, next } => if 0 <= next < blocks.len() {
                        openings_in(blocks[next].params)
                    } else {
                        0
                    },
                    _ => 0,
                }
            } else {
                0
            },
            PhaseView::Pause { job } => openings_in(job.block.params),
            _ => 0nat,
        }
    }

    /// One step of the machine.
    pub open spec fn step(self, m: Moment, ev: EventView, draws: Seq<u64>) -> Outcome {
        match self.phase {
            PhaseView::Next => self.next(m, draws),
            PhaseView::Return(flow) => self.deliver(flow, m),
            PhaseView::Load { job, draws: kept } => match ev {
                EventView::Numbers(r) => self.go(PhaseView::Next).load(job, kept, Some(r), m),
                _ => self.proceed(),
            },
            PhaseView::Compare { job, condition } => match ev {
                EventView::Compared(o) => self.go(PhaseView::Next).branch(job, holds(condition, o)),
                _ => self.proceed(),
            },
            PhaseView::Work { job, params, task } => self.resume(job, params, task, ev, m),
            PhaseView::Pause { job } => if m.cancelled {
                self.go(PhaseView::Return(Flow::Stop)).proceed()
            } else {
                self.go(PhaseView::Next).load(job, draws, None, m)
            },
            PhaseView::Done => (self, ActionView::Finished),
        }
    }
}

/// The machine before its first step.
pub open spec fn initial(
    ctx: ContextView,
    ai_mode: AiMode,
    default_err: OnError,
    list: Seq<BlockView>,
    has_ai: bool,
) -> RunView {
    RunView {
        ctx: ContextView { ai_mode, ..ctx },
        default_err,
        has_ai,
        stack: seq![FrameView::List { blocks: list, next: 0 }],
        phase: PhaseView::Next,
    }
}

} // verus!
