//! What every run keeps to: it stays within its limits, it only adds to its
//! log, and it ends.
use vstd::prelude::*;

use crate::context::ContextView;
use crate::interpolate::{
    filled_fields, filled_items, filled_value, fresh_trace, lemma_filled_warnings,
    lemma_value_draws, openings_in, ScopeView, TraceView, Whole,
};
use crate::machine::{
    ActionView, EventView, Flow, FrameView, JobView, Moment, Outcome, PhaseView, RunView, TaskView,
};
use crate::model::{AiMode, BlockView, OnError};
use crate::plan::{condition_of, plan_of, PlanView};
use crate::value::JsonView;

verus! {

// ---------------------------------------------------------------------------
// What a step leaves alone
// ---------------------------------------------------------------------------

/// `t` is the state of the same run as `s`, later or at the same time: who
/// runs, under which limits and with which data is as it was, and the log,
/// the warnings and the counters have only grown.
pub open spec fn follows(s: ContextView, t: ContextView) -> bool {
    &&& t.profile_id == s.profile_id
    &&& t.system == s.system
    &&& t.datasets == s.datasets
    &&& t.caps == s.caps
    &&& t.ai_mode == s.ai_mode
    &&& s.warnings.is_prefix_of(t.warnings)
    &&& s.step_logs.is_prefix_of(t.step_logs)
    &&& s.steps_run <= t.steps_run
    &&& s.loop_iterations <= t.loop_iterations
}

pub proof fn lemma_follows_trans(a: ContextView, b: ContextView, c: ContextView)
    requires
        follows(a, b),
        follows(b, c),
    ensures
        follows(a, c),
{
    assert(a.warnings.is_prefix_of(c.warnings)) by {
        assert(b.warnings =~= c.warnings.take(b.warnings.len() as int));
        assert(a.warnings =~= c.warnings.take(a.warnings.len() as int));
    }
    assert(a.step_logs.is_prefix_of(c.step_logs)) by {
        assert(b.step_logs =~= c.step_logs.take(b.step_logs.len() as int));
        assert(a.step_logs =~= c.step_logs.take(a.step_logs.len() as int));
    }
}

proof fn lemma_push_prefix<A>(s: Seq<A>, x: A)
    ensures
        s.is_prefix_of(s.push(x)),
        s.is_prefix_of(s),
{
    assert(s =~= s.push(x).take(s.len() as int));
    assert(s =~= s.take(s.len() as int));
}

proof fn lemma_follows_self(s: ContextView)
    ensures
        follows(s, s),
{
    lemma_push_prefix(s.warnings, Seq::<char>::empty());
    assert(s.step_logs =~= s.step_logs.take(s.step_logs.len() as int));
}

proof fn lemma_follows_warn(s: ContextView, w: Seq<char>)
    ensures
        follows(s, s.warn(w)),
{
    lemma_follows_self(s);
    lemma_push_prefix(s.warnings, w);
}

proof fn lemma_follows_log(
    s: ContextView,
    b: BlockView,
    started_ms: u64,
    now_ms: u64,
    status: Seq<char>,
    error: Option<Seq<char>>,
)
    ensures
        follows(s, s.log(b, started_ms, now_ms, status, error)),
{
    lemma_follows_self(s);
    let t = s.log(b, started_ms, now_ms, status, error);
    lemma_push_prefix(s.step_logs, t.step_logs.last());
}

/// Filling in a value only adds warnings.
pub proof fn lemma_filled_value_warnings(v: JsonView, sc: ScopeView, tr: TraceView)
    ensures
        tr.warnings.is_prefix_of(filled_value(v, sc, tr).1.warnings),
    decreases v, 0nat,
{
    match v {
        JsonView::Str(s) => {
            lemma_filled_warnings(s, sc, tr);
        },
        JsonView::Array(a) => {
            lemma_filled_items_warnings(a, a.len(), sc, tr);
        },
        JsonView::Object(m) => {
            lemma_filled_fields_warnings(m, m.len(), sc, tr);
        },
        _ => {
            lemma_push_prefix(tr.warnings, Seq::<char>::empty());
        },
    }
}

proof fn lemma_filled_items_warnings(a: Seq<JsonView>, n: nat, sc: ScopeView, tr: TraceView)
    ensures
        tr.warnings.is_prefix_of(filled_items(a, n, sc, tr).1.warnings),
    decreases a, n,
{
    if n == 0 || n > a.len() {
        lemma_push_prefix(tr.warnings, Seq::<char>::empty());
    } else {
        let (b, tr1) = filled_items(a, (n - 1) as nat, sc, tr);
        lemma_filled_items_warnings(a, (n - 1) as nat, sc, tr);
        lemma_filled_value_warnings(a[n - 1], sc, tr1);
        let tr2 = filled_value(a[n - 1], sc, tr1).1;
        assert(tr.warnings =~= tr2.warnings.take(tr.warnings.len() as int)) by {
            assert(tr1.warnings =~= tr2.warnings.take(tr1.warnings.len() as int));
        }
    }
}

proof fn lemma_filled_fields_warnings(
    m: Seq<(Seq<char>, JsonView)>,
    n: nat,
    sc: ScopeView,
    tr: TraceView,
)
    ensures
        tr.warnings.is_prefix_of(filled_fields(m, n, sc, tr).1.warnings),
    decreases m, n,
{
    if n == 0 || n > m.len() {
        lemma_push_prefix(tr.warnings, Seq::<char>::empty());
    } else {
        let (b, tr1) = filled_fields(m, (n - 1) as nat, sc, tr);
        lemma_filled_fields_warnings(m, (n - 1) as nat, sc, tr);
        lemma_filled_value_warnings(m[n - 1].1, sc, tr1);
        let tr2 = filled_value(m[n - 1].1, sc, tr1).1;
        assert(tr.warnings =~= tr2.warnings.take(tr.warnings.len() as int)) by {
            assert(tr1.warnings =~= tr2.warnings.take(tr1.warnings.len() as int));
        }
    }
}

/// The run as a whole is the same.
pub open spec fn same_run(s: RunView, t: RunView) -> bool {
    &&& follows(s.ctx, t.ctx)
    &&& t.default_err == s.default_err
    &&& t.has_ai == s.has_ai
}

// ---------------------------------------------------------------------------
// Work that is left
// ---------------------------------------------------------------------------

/// How many more blocks may begin and rounds may start.
pub open spec fn budget(s: RunView) -> int {
    (s.ctx.caps.max_steps - s.ctx.steps_run) + (s.ctx.caps.max_loop_iterations
        - s.ctx.loop_iterations)
}

pub open spec fn frame_weight(f: FrameView) -> nat {
    match f {
        FrameView::List { blocks, next } => if next < blocks.len() {
            (2 * (blocks.len() - next) + 2) as nat
        } else {
            2
        },
        _ => 2,
    }
}

pub open spec fn stack_weight(v: Seq<FrameView>) -> nat
    decreases v.len(),
{
    if v.len() == 0 {
        0
    } else {
        stack_weight(v.drop_last()) + frame_weight(v.last())
    }
}

/// What a block may put on the stack.
pub open spec fn push_weight(b: BlockView) -> nat {
    2 * b.children.len() + match b.branch_else {
        Some(e) => 2 * e.len(),
        None => 0,
    } + 6
}

pub open spec fn task_weight(t: TaskView) -> nat {
    match t {
        TaskView::PageText { .. } => 6,
        TaskView::Elements { .. } => 5,
        TaskView::Answer => 4,
        TaskView::Summary => 3,
        TaskView::Tool { .. } => 3,
        TaskView::Rest => 3,
    }
}

pub open spec fn job_weight(job: JobView, stage: nat) -> nat {
    push_weight(job.block) + stage + if job.attempt >= 2 {
        0
    } else {
        (10 * (2 - job.attempt)) as nat
    }
}

pub open spec fn phase_weight(p: PhaseView) -> nat {
    match p {
        PhaseView::Next => 0,
        PhaseView::Return(_) => 1,
        PhaseView::Pause { job } => job_weight(job, 9),
        PhaseView::Load { job, .. } => job_weight(job, 8),
        PhaseView::Compare { job, .. } => job_weight(job, 7),
        PhaseView::Work { job, task, .. } => job_weight(job, task_weight(task)),
        PhaseView::Done => 0,
    }
}

pub open spec fn weight(s: RunView) -> nat {
    stack_weight(s.stack) + phase_weight(s.phase)
}

/// The counters have not passed the limits, unless the run is over.
pub open spec fn within(s: RunView) -> bool {
    s.phase is Done || (s.ctx.steps_run <= s.ctx.caps.max_steps && s.ctx.loop_iterations
        <= s.ctx.caps.max_loop_iterations)
}

/// `t` has less to do than `s`.
pub open spec fn nearer(s: RunView, t: RunView) -> bool {
    t.phase is Done || (within(t) && (budget(t) < budget(s) || (budget(t) == budget(s) && weight(t)
        < weight(s))))
}

/// What a step does to a run: it is the same run, within its limits, with
/// less to do, and it says that it is over exactly where it is.
pub open spec fn moves(s: RunView, o: Outcome) -> bool {
    &&& same_run(s, o.0)
    &&& within(o.0)
    &&& nearer(s, o.0)
    &&& (o.1 is Finished <==> o.0.phase is Done)
}

/// As `moves`, from a run that has spent one unit of its budget, or has the
/// given weight to spare.
pub open spec fn settles(s: RunView, o: Outcome, spare: int) -> bool {
    &&& same_run(s, o.0)
    &&& within(o.0)
    &&& (o.1 is Finished <==> o.0.phase is Done)
    &&& o.0.phase is Done || (budget(o.0) == budget(s) && weight(o.0) <= stack_weight(s.stack)
        + spare)
}

proof fn lemma_stack_push(v: Seq<FrameView>, f: FrameView)
    ensures
        stack_weight(v.push(f)) == stack_weight(v) + frame_weight(f),
{
    assert(v.push(f).drop_last() =~= v);
}

proof fn lemma_succeed(s: RunView, job: JobView, m: Moment)
    requires
        s.ctx.steps_run <= s.ctx.caps.max_steps,
        s.ctx.loop_iterations <= s.ctx.caps.max_loop_iterations,
    ensures
        settles(s, s.succeed(job, m), 0),
{
    let status = if job.block.dry_run {
        "dry_run"@
    } else if job.attempt > 0 {
        "retried"@
    } else {
        "ok"@
    };
    lemma_follows_log(s.ctx, job.block, job.started_ms, m.now_ms, status, None);
}

proof fn lemma_fail(s: RunView, job: JobView, error: Seq<char>, m: Moment)
    requires
        s.ctx.steps_run <= s.ctx.caps.max_steps,
        s.ctx.loop_iterations <= s.ctx.caps.max_loop_iterations,
    ensures
        settles(s, s.fail(job, error, m), job_weight(job, 2) as int),
{
    lemma_follows_self(s.ctx);
    lemma_follows_log(s.ctx, job.block, job.started_ms, m.now_ms, "skipped"@, Some(error));
    lemma_follows_log(s.ctx, job.block, job.started_ms, m.now_ms, "failed"@, Some(error));
    let t = s.ctx.log(job.block, job.started_ms, m.now_ms, "failed"@, Some(error));
    lemma_follows_warn(t, "Run stopped on error"@);
    lemma_follows_trans(s.ctx, t, t.warn("Run stopped on error"@));
}

proof fn lemma_fall_back(s: RunView, job: JobView, p: JsonView, m: Moment)
    requires
        s.ctx.steps_run <= s.ctx.caps.max_steps,
        s.ctx.loop_iterations <= s.ctx.caps.max_loop_iterations,
    ensures
        settles(s, s.fall_back(job, p, m), job_weight(job, 3) as int),
{
    lemma_follows_self(s.ctx);
    if job.block.block_type != "ai_summarize"@ {
        let c = s.ctx.fallen_back(
            job.block,
            p,
            crate::machine::fallback_value(job.block.block_type, p),
        );
        lemma_follows_fallen(s.ctx, job.block, p, crate::machine::fallback_value(
            job.block.block_type,
            p,
        ));
        lemma_succeed(s.with_ctx(c), job, m);
        lemma_follows_trans(s.ctx, c, s.fall_back(job, p, m).0.ctx);
    }
}

proof fn lemma_follows_fallen(s: ContextView, b: BlockView, p: JsonView, v: JsonView)
    ensures
        follows(s, s.fallen_back(b, p, v)),
        s.fallen_back(b, p, v).steps_run == s.steps_run,
        s.fallen_back(b, p, v).loop_iterations == s.loop_iterations,
{
    let t = s.assign_opt(p.field_str("output_variable"@), v);
    lemma_follows_self(s);
    lemma_follows_warn(t, "[ai] fallback "@ + b.block_type);
    lemma_follows_trans(s, t, s.fallen_back(b, p, v));
}

proof fn lemma_ai(s: RunView, job: JobView, p: JsonView, m: Moment)
    requires
        s.ctx.steps_run <= s.ctx.caps.max_steps,
        s.ctx.loop_iterations <= s.ctx.caps.max_loop_iterations,
    ensures
        settles(s, s.ai(job, p, m), job_weight(job, 6) as int),
{
    lemma_follows_self(s.ctx);
    lemma_fall_back(s, job, p, m);
    let w = "[ai] token cap "@ + crate::text::dec(s.ctx.caps.max_ai_tokens as nat)
        + " reached → fallback"@;
    lemma_follows_warn(s.ctx, w);
    let t = s.with_ctx(s.ctx.warn(w));
    lemma_fall_back(t, job, p, m);
    lemma_follows_trans(s.ctx, t.ctx, t.fall_back(job, p, m).0.ctx);
}

proof fn lemma_leaf(s: RunView, job: JobView, p: JsonView, draw: u64, m: Moment)
    requires
        s.ctx.steps_run <= s.ctx.caps.max_steps,
        s.ctx.loop_iterations <= s.ctx.caps.max_loop_iterations,
    ensures
        settles(s, s.leaf(job, p, draw, m), job_weight(job, 6) as int),
{
    reveal(RunView::leaf);
    lemma_follows_self(s.ctx);
    match plan_of(job.block.block_type, p) {
        PlanView::Call { tool, args, store } => {
            if job.block.dry_run {
                let c = if store {
                    s.ctx.stored(p, crate::machine::dry_reply())
                } else {
                    s.ctx
                };
                lemma_succeed(s.with_ctx(c), job, m);
            }
        },
        PlanView::Assign { name, value } => {
            lemma_succeed(s.with_ctx(s.ctx.assign(name, value)), job, m);
        },
        PlanView::Note { message } => {
            let c = s.ctx.warn(message);
            lemma_follows_warn(s.ctx, message);
            lemma_succeed(s.with_ctx(c), job, m);
            lemma_follows_trans(s.ctx, c, s.with_ctx(c).succeed(job, m).0.ctx);
        },
        PlanView::PickRow => {
            let c = s.ctx.row_picked(p, draw);
            assert forall|w: Seq<char>| follows(s.ctx, #[trigger] s.ctx.warn(w)) by {
                lemma_follows_warn(s.ctx, w);
            }
            lemma_succeed(s.with_ctx(c), job, m);
            lemma_follows_trans(s.ctx, c, s.with_ctx(c).succeed(job, m).0.ctx);
        },
        PlanView::LoadDataset => {
            let c = s.ctx.dataset_loaded(p);
            assert forall|w: Seq<char>| follows(s.ctx, #[trigger] s.ctx.warn(w)) by {
                lemma_follows_warn(s.ctx, w);
            }
            lemma_succeed(s.with_ctx(c), job, m);
            lemma_follows_trans(s.ctx, c, s.with_ctx(c).succeed(job, m).0.ctx);
        },
        PlanView::Ai => {
            lemma_ai(s, job, p, m);
        },
        PlanView::Nothing => {
            lemma_succeed(s, job, m);
        },
        PlanView::Fail { message } => {
            lemma_fail(s, job, message, m);
        },
        _ => {},
    }
}

proof fn lemma_branch(s: RunView, job: JobView, yes: bool)
    requires
        s.ctx.steps_run <= s.ctx.caps.max_steps,
        s.ctx.loop_iterations <= s.ctx.caps.max_loop_iterations,
    ensures
        settles(s, s.branch(job, yes), push_weight(job.block) as int),
{
    reveal(RunView::branch);
    lemma_follows_self(s.ctx);
    let b = job.block;
    let f = FrameView::Branch { block: b, started_ms: job.started_ms };
    lemma_stack_push(s.stack, f);
    lemma_stack_push(s.stack.push(f), FrameView::List { blocks: b.children, next: 0 });
    if let Some(e) = b.branch_else {
        lemma_stack_push(s.stack.push(f), FrameView::List { blocks: e, next: 0 });
    }
}

proof fn lemma_enter(s: RunView, job: JobView, p: JsonView, draw: u64, m: Moment)
    requires
        s.ctx.steps_run <= s.ctx.caps.max_steps,
        s.ctx.loop_iterations <= s.ctx.caps.max_loop_iterations,
    ensures
        settles(s, s.enter(job, p, draw, m), job_weight(job, 7) as int),
{
    reveal(RunView::enter);
    lemma_follows_self(s.ctx);
    let b = job.block;
    if b.block_type == "loop"@ {
        lemma_stack_push(
            s.stack,
            FrameView::Loop {
                block: b,
                started_ms: job.started_ms,
                left: crate::plan::uint_or(p, "count"@, 0),
            },
        );
    } else if b.block_type == "condition"@ {
        lemma_branch(s, job, false);
        match condition_of(p, s.ctx.variables) {
            Some(c) => {
                lemma_branch(s, job, crate::plan::holds(c, Seq::empty()));
            },
            None => {},
        }
    } else if b.block_type == "for_each"@ {
        let items = match crate::map::lookup(
            s.ctx.variables,
            crate::plan::text_of_field(p, "source"@),
        ) {
            Some(JsonView::Array(a)) => a,
            _ => Seq::empty(),
        };
        lemma_stack_push(
            s.stack,
            FrameView::Each { block: b, started_ms: job.started_ms, items, next: 0 },
        );
    } else {
        lemma_leaf(s, job, p, draw, m);
    }
}

proof fn lemma_load(
    s: RunView,
    job: JobView,
    draws: Seq<u64>,
    readings: Option<Seq<(Seq<char>, Whole)>>,
    m: Moment,
)
    requires
        s.ctx.steps_run <= s.ctx.caps.max_steps,
        s.ctx.loop_iterations <= s.ctx.caps.max_loop_iterations,
    ensures
        settles(
            s,
            s.load(job, draws, readings, m),
            job_weight(
                job,
                if readings is None {
                    8
                } else {
                    7
                },
            ) as int,
        ),
{
    reveal(RunView::load);
    lemma_follows_self(s.ctx);
    let r = match readings {
        Some(r) => r,
        None => Seq::empty(),
    };
    let (p, tr) = s.ctx.prepared(job.block.params, r, draws);
    lemma_filled_value_warnings(
        job.block.params,
        s.ctx.scope(r),
        fresh_trace(s.ctx.warnings, draws),
    );
    let t = s.with_ctx(ContextView { warnings: tr.warnings, ..s.ctx });
    lemma_enter(t, job, p, tr.next(), m);
    lemma_follows_trans(s.ctx, t.ctx, t.enter(job, p, tr.next(), m).0.ctx);
    if tr.unknown.len() > 0 {
        let error = "Unknown filter: "@ + tr.unknown[0];
        lemma_fail(t, job, error, m);
        lemma_follows_trans(s.ctx, t.ctx, t.fail(job, error, m).0.ctx);
    }
}

proof fn lemma_begin(s: RunView, b: BlockView, m: Moment, draws: Seq<u64>)
    requires
        s.ctx.steps_run <= s.ctx.caps.max_steps,
        s.ctx.loop_iterations <= s.ctx.caps.max_loop_iterations,
        !b.disabled ==> s.ctx.steps_run < u32::MAX,
    ensures
        ({
            let o = s.begin(b, m, draws);
            &&& same_run(s, o.0)
            &&& within(o.0)
            &&& (o.1 is Finished <==> o.0.phase is Done)
            &&& o.0.phase is Done || budget(o.0) < budget(s) || (b.disabled && budget(o.0)
                == budget(s) && weight(o.0) == stack_weight(s.stack))
        }),
{
    reveal(RunView::begin);
    lemma_follows_self(s.ctx);
    if !b.disabled {
        let t = s.with_ctx(s.ctx.count_step());
        assert(follows(s.ctx, t.ctx));
        if t.ctx.steps_run > t.ctx.caps.max_steps {
            lemma_capped(t, "max_steps"@);
            lemma_follows_trans(s.ctx, t.ctx, t.capped("max_steps"@).0.ctx);
        } else if m.elapsed_secs > t.ctx.caps.max_total_secs {
            lemma_capped(t, "max_total_secs"@);
            lemma_follows_trans(s.ctx, t.ctx, t.capped("max_total_secs"@).0.ctx);
        } else {
            let job = JobView { block: b, started_ms: m.now_ms, attempt: 0 };
            lemma_load(t, job, draws, None, m);
            lemma_follows_trans(s.ctx, t.ctx, t.load(job, draws, None, m).0.ctx);
        }
    }
}

proof fn lemma_capped(s: RunView, cap: Seq<char>)
    ensures
        same_run(s, s.capped(cap).0),
        s.capped(cap).0.phase is Done,
        s.capped(cap).1 is Finished,
{
    lemma_follows_warn(s.ctx, "Run hit cap: "@ + cap);
}

proof fn lemma_leave(s: RunView, b: BlockView, started_ms: u64, flow: Flow, m: Moment)
    requires
        s.stack.len() > 0,
        s.ctx.steps_run <= s.ctx.caps.max_steps,
        s.ctx.loop_iterations <= s.ctx.caps.max_loop_iterations,
    ensures
        settles(s, s.leave(b, started_ms, flow, m), -1),
{
    lemma_follows_log(s.ctx, b, started_ms, m.now_ms, "ok"@, None);
}

proof fn lemma_next(s: RunView, m: Moment, draws: Seq<u64>)
    requires
        s.phase is Next,
        s.ctx.steps_run <= s.ctx.caps.max_steps,
        s.ctx.loop_iterations <= s.ctx.caps.max_loop_iterations,
        s.has_room(m, EventView::Ready),
    ensures
        moves(s, s.next(m, draws)),
{
    reveal(RunView::next);
    lemma_follows_self(s.ctx);
    if s.stack.len() > 0 {
        let rest = s.stack.drop_last();
        match s.stack.last() {
            FrameView::List { blocks, next } => {
                if next < blocks.len() && !m.cancelled {
                    let f = FrameView::List { blocks, next: next + 1 };
                    lemma_stack_push(rest, f);
                    lemma_begin(s.popped().pushed(f), blocks[next], m, draws);
                }
            },
            FrameView::Loop { block, started_ms, left } => {
                if left == 0 {
                    lemma_leave(s, block, started_ms, Flow::Continue, m);
                } else {
                    let t = s.with_ctx(s.ctx.count_round());
                    assert(follows(s.ctx, t.ctx));
                    lemma_capped(t, "max_loop_iterations"@);
                    lemma_follows_trans(s.ctx, t.ctx, t.capped("max_loop_iterations"@).0.ctx);
                    if t.ctx.loop_iterations <= t.ctx.caps.max_loop_iterations {
                        lemma_leave(t, block, started_ms, Flow::Stop, m);
                        lemma_follows_trans(
                            s.ctx,
                            t.ctx,
                            t.leave(block, started_ms, Flow::Stop, m).0.ctx,
                        );
                    }
                }
            },
            FrameView::Each { block, started_ms, items, next } => {
                if next >= items.len() {
                    lemma_leave(s, block, started_ms, Flow::Continue, m);
                } else {
                    let t = s.with_ctx(s.ctx.count_round());
                    assert(follows(s.ctx, t.ctx));
                    lemma_capped(t, "max_loop_iterations"@);
                    lemma_follows_trans(s.ctx, t.ctx, t.capped("max_loop_iterations"@).0.ctx);
                    if t.ctx.loop_iterations <= t.ctx.caps.max_loop_iterations {
                        lemma_leave(t, block, started_ms, Flow::Stop, m);
                        lemma_follows_trans(
                            s.ctx,
                            t.ctx,
                            t.leave(block, started_ms, Flow::Stop, m).0.ctx,
                        );
                    }
                }
            },
            FrameView::Branch { block, started_ms } => {
                lemma_leave(s, block, started_ms, Flow::Continue, m);
            },
        }
    }
}

proof fn lemma_deliver(s: RunView, flow: Flow, m: Moment)
    requires
        s.phase == PhaseView::Return(flow),
        s.ctx.steps_run <= s.ctx.caps.max_steps,
        s.ctx.loop_iterations <= s.ctx.caps.max_loop_iterations,
    ensures
        moves(s, s.deliver(flow, m)),
{
    reveal(RunView::deliver);
    lemma_follows_self(s.ctx);
    if s.stack.len() > 0 {
        match s.stack.last() {
            FrameView::List { .. } => {},
            FrameView::Loop { block, started_ms, .. } => {
                lemma_leave(s, block, started_ms, Flow::Continue, m);
                lemma_leave(s, block, started_ms, Flow::Stop, m);
            },
            FrameView::Each { block, started_ms, .. } => {
                lemma_leave(s, block, started_ms, Flow::Continue, m);
                lemma_leave(s, block, started_ms, Flow::Stop, m);
            },
            FrameView::Branch { block, started_ms } => {
                lemma_leave(s, block, started_ms, flow, m);
            },
        }
    }
}

/// The event is what the block waits for.
pub open spec fn awaited(task: TaskView, ev: EventView) -> bool {
    match (task, ev) {
        (TaskView::Rest, EventView::Ready) => true,
        (TaskView::Answer, EventView::Answered(_)) => true,
        (TaskView::Tool { .. }, EventView::Reply(_)) => true,
        (TaskView::PageText { .. }, EventView::Reply(_)) => true,
        (TaskView::Elements { .. }, EventView::Reply(_)) => true,
        (TaskView::Summary, EventView::Reply(_)) => true,
        _ => false,
    }
}

/// The event answers what the run asked for.
pub open spec fn answers(s: RunView, ev: EventView) -> bool {
    match s.phase {
        PhaseView::Load { .. } => ev is Numbers,
        PhaseView::Compare { .. } => ev is Compared,
        PhaseView::Work { task, .. } => awaited(task, ev),
        _ => true,
    }
}

proof fn lemma_resume(s: RunView, job: JobView, p: JsonView, task: TaskView, ev: EventView, m: Moment)
    requires
        s.phase == (PhaseView::Work { job, params: p, task }),
        awaited(task, ev),
        s.ctx.steps_run <= s.ctx.caps.max_steps,
        s.ctx.loop_iterations <= s.ctx.caps.max_loop_iterations,
    ensures
        moves(s, s.resume(job, p, task, ev, m)),
{
    reveal(RunView::resume);
    lemma_follows_self(s.ctx);
    match (task, ev) {
        (TaskView::Rest, EventView::Ready) => {
            lemma_succeed(s, job, m);
        },
        (TaskView::Answer, EventView::Answered(Ok(a))) => {
            let c = s.ctx.answered(job.block, p, a);
            let total = (s.ctx.ai_tokens_used + a.input_tokens + a.output_tokens) as u64;
            lemma_push_prefix(
                s.ctx.warnings,
                crate::machine::answer_note(
                    job.block.block_type,
                    a,
                    total,
                    s.ctx.caps.max_ai_tokens,
                ),
            );
            assert(follows(s.ctx, c));
            lemma_succeed(s.with_ctx(c), job, m);
            lemma_follows_trans(s.ctx, c, s.with_ctx(c).succeed(job, m).0.ctx);
        },
        (TaskView::Answer, EventView::Answered(Err(e))) => {
            let w = "[ai] "@ + job.block.block_type + " error → fallback: "@ + e;
            let t = s.with_ctx(s.ctx.warn(w));
            lemma_follows_warn(s.ctx, w);
            lemma_fall_back(t, job, p, m);
            lemma_follows_trans(s.ctx, t.ctx, t.fall_back(job, p, m).0.ctx);
        },
        (TaskView::Tool { store }, EventView::Reply(Ok(v))) => {
            let c = if store {
                s.ctx.stored(p, v)
            } else {
                s.ctx
            };
            lemma_succeed(s.with_ctx(c), job, m);
        },
        (TaskView::Summary, EventView::Reply(Ok(v))) => {
            let x = JsonView::Str(
                crate::text::clipped(
                    crate::plan::reply_text(v),
                    crate::plan::uint_or(p, "max_length"@, 500) as int,
                ),
            );
            let c = s.ctx.fallen_back(job.block, p, x);
            lemma_follows_fallen(s.ctx, job.block, p, x);
            lemma_succeed(s.with_ctx(c), job, m);
            lemma_follows_trans(s.ctx, c, s.with_ctx(c).succeed(job, m).0.ctx);
        },
        (_, EventView::Reply(Err(e))) => {
            lemma_fail(s, job, e, m);
        },
        _ => {},
    }
}

/// Every step that gets what the run waits for leaves the run within its
/// limits with less to do: of the blocks that may begin and the rounds that
/// may start, or of the work that is under way. So no run goes on for ever.
pub proof fn lemma_step_moves(s: RunView, m: Moment, ev: EventView, draws: Seq<u64>)
    requires
        within(s),
        !(s.phase is Done),
        answers(s, ev),
        s.has_room(m, ev),
    ensures
        moves(s, s.step(m, ev, draws)),
{
    let n = s.go(PhaseView::Next);
    lemma_follows_self(s.ctx);
    match s.phase {
        PhaseView::Next => {
            lemma_next(s, m, draws);
        },
        PhaseView::Return(flow) => {
            lemma_deliver(s, flow, m);
        },
        PhaseView::Load { job, draws: kept } => {
            if let EventView::Numbers(r) = ev {
                lemma_load(n, job, kept, Some(r), m);
            }
        },
        PhaseView::Compare { job, condition } => {
            if let EventView::Compared(o) = ev {
                lemma_branch(n, job, crate::plan::holds(condition, o));
            }
        },
        PhaseView::Work { job, params, task } => {
            lemma_resume(s, job, params, task, ev, m);
        },
        PhaseView::Pause { job } => {
            lemma_load(n, job, draws, None, m);
        },
        PhaseView::Done => {},
    }
}

/// Once it is over, a run stays as it is.
pub proof fn lemma_done_stays(s: RunView, m: Moment, ev: EventView, draws: Seq<u64>)
    requires
        s.phase is Done,
    ensures
        s.step(m, ev, draws) == (s, ActionView::Finished),
{
}

/// A cancelled run begins no block and starts no round: between blocks it
/// only winds down.
pub proof fn lemma_cancelled_winds_down(s: RunView, m: Moment, ev: EventView, draws: Seq<u64>)
    requires
        m.cancelled,
        s.phase is Next || s.phase is Return || s.phase is Pause,
    ensures
        s.step(m, ev, draws).1 is Proceed || s.step(m, ev, draws).1 is Finished,
        s.step(m, ev, draws).0.ctx.steps_run == s.ctx.steps_run,
{
    reveal(RunView::next);
    reveal(RunView::deliver);
}

/// A block at work on a question to a language model is one of a run that has
/// a model and whose scenario does not go without.
pub open spec fn asks_rightly(s: RunView) -> bool {
    match s.phase {
        PhaseView::Work { task, .. } => task is PageText || task is Elements || task is Answer
            ==> may_ask(s),
        _ => true,
    }
}

pub open spec fn may_ask(s: RunView) -> bool {
    s.has_ai && s.ctx.ai_mode != AiMode::NoAi
}

/// A run without a language model, or of a scenario that goes without, never
/// asks one: every AI block falls back.
pub proof fn lemma_asks_only_a_model(s: RunView, m: Moment, ev: EventView, draws: Seq<u64>)
    requires
        asks_rightly(s),
    ensures
        asks_rightly(s.step(m, ev, draws).0),
        may_ask(s.step(m, ev, draws).0) == may_ask(s),
        s.step(m, ev, draws).1 is Ask ==> may_ask(s),
{
    let n = s.go(PhaseView::Next);
    reveal(RunView::next);
    reveal(RunView::deliver);
    reveal(RunView::resume);
    reveal(RunView::begin);
    match s.phase {
        PhaseView::Next => {
            if s.stack.len() > 0 {
                if let FrameView::List { blocks, next } = s.stack.last() {
                    if next < blocks.len() {
                        let f = FrameView::List { blocks, next: next + 1 };
                        let t = s.popped().pushed(f);
                        lemma_load_asks(
                            t.with_ctx(t.ctx.count_step()),
                            JobView { block: blocks[next], started_ms: m.now_ms, attempt: 0 },
                            draws,
                            None,
                            m,
                        );
                    }
                }
            }
        },
        PhaseView::Load { job, draws: kept } => {
            if let EventView::Numbers(r) = ev {
                lemma_load_asks(n, job, kept, Some(r), m);
            }
        },
        PhaseView::Compare { job, condition } => {
            reveal(RunView::branch);
        },
        PhaseView::Pause { job } => {
            lemma_load_asks(n, job, draws, None, m);
        },
        _ => {},
    }
}

proof fn lemma_load_asks(
    s: RunView,
    job: JobView,
    draws: Seq<u64>,
    readings: Option<Seq<(Seq<char>, Whole)>>,
    m: Moment,
)
    ensures
        ({
            let o = s.load(job, draws, readings, m);
            &&& asks_rightly(o.0)
            &&& may_ask(o.0) == may_ask(s)
            &&& o.1 is Ask ==> may_ask(s)
        }),
{
    reveal(RunView::load);
    reveal(RunView::enter);
    reveal(RunView::branch);
    reveal(RunView::leaf);
}

/// An AI block of a run that has used up its tokens does not begin a question.
pub proof fn lemma_no_tokens_no_question(s: RunView, job: JobView, p: JsonView, m: Moment)
    requires
        s.ctx.ai_tokens_used >= s.ctx.caps.max_ai_tokens,
    ensures
        !(s.ai(job, p, m).1 is Ask),
        match s.ai(job, p, m).0.phase {
            PhaseView::Work { task, .. } => task is Summary,
            _ => true,
        },
{
}

/// With one random number for each opening pair of braces in the settings of a
/// block, and one for its row, every choice of the block has a number of its
/// own: more would change nothing.
pub proof fn lemma_draws_suffice(
    c: ContextView,
    params: JsonView,
    readings: Seq<(Seq<char>, Whole)>,
    draws: Seq<u64>,
    more: Seq<u64>,
)
    requires
        draws.len() >= openings_in(params) + 1,
    ensures
        ({
            let (p, tr) = c.prepared(params, readings, draws);
            let (q, backed) = c.prepared(params, readings, more + draws);
            &&& q == p
            &&& backed.warnings == tr.warnings
            &&& backed.asked == tr.asked
            &&& backed.unknown == tr.unknown
            &&& tr.draws.len() > 0
            &&& backed.next() == tr.next()
        }),
{
    let tr = fresh_trace(c.warnings, draws);
    lemma_value_draws(params, c.scope(readings), tr, more);
    assert(tr.backed(more) == fresh_trace(c.warnings, more + draws));
}

/// A leaf block on a dry run calls no tool, unless it is an AI block.
pub proof fn lemma_dry_run_calls_nothing(
    s: RunView,
    job: JobView,
    p: JsonView,
    draw: u64,
    m: Moment,
)
    requires
        job.block.dry_run,
        !(plan_of(job.block.block_type, p) is Ai),
    ensures
        !(s.leaf(job, p, draw, m).1 is Call),
{
    reveal(RunView::leaf);
}

/// A block that fails is tried at most three times in all, and what becomes of
/// it then is what the block, or else the scenario, says.
pub proof fn lemma_failure(s: RunView, job: JobView, error: Seq<char>, m: Moment)
    ensures
        s.fail(job, error, m).0.phase is Pause ==> s.on_error(job.block) == OnError::Retry
            && job.attempt < 2,
        s.on_error(job.block) == OnError::Skip ==> s.fail(job, error, m).0.phase is Next,
        s.on_error(job.block) == OnError::Stop ==> s.fail(job, error, m).0.phase is Done,
        s.on_error(job.block) == OnError::Retry && job.attempt >= 2 ==> s.fail(
            job,
            error,
            m,
        ).0.phase is Done,
{
}

/// A block whose settings ask for a filter that is not known fails, whatever
/// kind of block it is.
pub proof fn lemma_unknown_filter_fails(
    s: RunView,
    job: JobView,
    draws: Seq<u64>,
    readings: Option<Seq<(Seq<char>, Whole)>>,
    m: Moment,
)
    requires
        ({
            let r = match readings {
                Some(r) => r,
                None => Seq::empty(),
            };
            s.ctx.prepared(job.block.params, r, draws).1.unknown.len() > 0
        }),
    ensures
        ({
            let o = s.load(job, draws, readings, m);
            match s.on_error(job.block) {
                OnError::Skip => o.0.phase is Next && o.0.ctx.step_logs.last().status
                    == "skipped"@,
                OnError::Stop => o.0.phase is Done && o.0.ctx.step_logs.last().status == "failed"@,
                OnError::Retry => if job.attempt < 2 {
                    o.0.phase is Pause
                } else {
                    o.0.phase is Done && o.0.ctx.step_logs.last().status == "failed"@
                },
            }
        }),
{
    reveal(RunView::load);
}

} // verus!
