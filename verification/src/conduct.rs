//! What a run does with its blocks: the order it takes them in, how control
//! leaves a loop, what each kind of block sets off, and where what comes back
//! goes.
use vstd::prelude::*;

use crate::ai::AiResultView;
use crate::context::ContextView;
use crate::json::{lemma_with_field, lemma_with_object, plain};
use crate::machine::{
    ActionView, EventView, Flow, FrameView, JobView, Moment, PhaseView, RunView, TaskView,
};
use crate::map::{lemma_lookup_put, lookup};
use crate::model::{AiMode, BlockView, OnError};
use crate::plan::{
    compared, condition_of, holds, listed, plan_of, reply_text, row_index, ConditionView, NumOrder,
    PlanView,
};
use crate::text::{contains, dec, dec_int, lemma_split_halves, lemma_split_single, starts, trim};
use crate::value::{JsonView, NumberView};

verus! {

// ---------------------------------------------------------------------------
// Loops, and how control leaves them
// ---------------------------------------------------------------------------

/// The run `n` steps later, where nothing comes back from outside and chance
/// decides nothing.
pub open spec fn after(s: RunView, m: Moment, n: nat) -> RunView
    decreases n,
{
    if n == 0 {
        s
    } else {
        after(s.step(m, EventView::Ready, Seq::empty()).0, m, (n - 1) as nat)
    }
}

proof fn lemma_after_add(s: RunView, m: Moment, a: nat, b: nat)
    ensures
        after(s, m, a + b) == after(after(s, m, a), m, b),
    decreases a,
{
    if a > 0 {
        lemma_after_add(s.step(m, EventView::Ready, Seq::empty()).0, m, (a - 1) as nat, b);
    }
}

/// A loop, by count or over items.
pub open spec fn is_loop(f: FrameView) -> bool {
    f is Loop || f is Each
}

/// The innermost loop under way stands at place `i` of the stack.
pub open spec fn innermost_loop(stack: Seq<FrameView>, i: int) -> bool {
    &&& 0 <= i < stack.len()
    &&& is_loop(stack[i])
    &&& forall|j: int| i < j < stack.len() ==> !is_loop(#[trigger] stack[j])
}

/// The next block to begin is one of that kind, and nothing keeps it from
/// beginning.
pub open spec fn comes_next(s: RunView, m: Moment, kind: Seq<char>) -> bool {
    &&& s.phase is Next
    &&& s.stack.len() > 0
    &&& s.stack.last() matches FrameView::List { blocks, next } && 0 <= next < blocks.len()
        && blocks[next].block_type == kind && !blocks[next].disabled
    &&& !m.cancelled
    &&& s.ctx.steps_run < s.ctx.caps.max_steps
    &&& m.elapsed_secs <= s.ctx.caps.max_total_secs
}

/// What every step of an unwinding leaves as it is.
pub open spec fn same_values(a: ContextView, b: ContextView) -> bool {
    &&& a.variables == b.variables
    &&& a.warnings == b.warnings
    &&& a.loop_iterations == b.loop_iterations
    &&& a.steps_run == b.steps_run
    &&& a.caps == b.caps
    &&& a.datasets == b.datasets
    &&& a.profile_id == b.profile_id
}

proof fn lemma_unwind(s: RunView, m: Moment, flow: Flow, i: int)
    requires
        s.phase == PhaseView::Return(flow),
        flow != Flow::Continue,
        0 <= i <= s.stack.len(),
        forall|j: int|
            i <= j < s.stack.len() ==> !is_loop(#[trigger] s.stack[j]) || flow == Flow::Stop,
    ensures
        ({
            let t = after(s, m, (s.stack.len() - i) as nat);
            &&& t.stack == s.stack.take(i)
            &&& t.phase == PhaseView::Return(flow)
            &&& same_values(s.ctx, t.ctx)
        }),
    decreases s.stack.len() - i,
{
    reveal(RunView::deliver);
    if i == s.stack.len() {
        assert(s.stack.take(i) =~= s.stack);
    } else {
        let n = s.stack.len();
        let t = s.step(m, EventView::Ready, Seq::empty()).0;
        assert(s.stack.last() == s.stack[n - 1]);
        assert(t.stack =~= s.stack.drop_last());
        assert forall|j: int| i <= j < t.stack.len() implies !is_loop(#[trigger] t.stack[j]) || flow
            == Flow::Stop by {
            assert(t.stack[j] == s.stack[j]);
        }
        lemma_unwind(t, m, flow, i);
        assert(t.stack.take(i) =~= s.stack.take(i));
    }
}

proof fn lemma_begins(s: RunView, m: Moment, kind: Seq<char>)
    requires
        comes_next(s, m, kind),
        kind == "break"@ || kind == "continue"@ || kind == "stop"@,
        s.ctx.steps_run < u32::MAX,
    ensures
        ({
            let t = after(s, m, 1);
            &&& t.stack.len() == s.stack.len()
            &&& t.stack.last() is List
            &&& forall|j: int| 0 <= j < s.stack.len() - 1 ==> #[trigger] t.stack[j] == s.stack[j]
            &&& t.phase == PhaseView::Return(
                if kind == "break"@ {
                    Flow::Break
                } else if kind == "continue"@ {
                    Flow::ContinueLoop
                } else {
                    Flow::Stop
                },
            )
            &&& t.ctx == (ContextView { steps_run: (s.ctx.steps_run + 1) as u32, ..s.ctx })
        }),
{
    reveal(RunView::next);
    reveal(RunView::begin);
    lemma_kinds();
    let one = s.step(m, EventView::Ready, Seq::empty()).0;
    reveal_with_fuel(after, 2);
    assert(after(s, m, 1) == one);
}

/// A block `continue` ends the round and not the loop: whatever conditions it
/// stands in, the innermost loop is under way as before, with the rounds or the
/// items that it had left, and goes on with the next. No variable changes.
pub proof fn lemma_continue(s: RunView, m: Moment, i: int)
    requires
        comes_next(s, m, "continue"@),
        innermost_loop(s.stack, i),
        s.ctx.steps_run < u32::MAX,
    ensures
        ({
            let t = after(s, m, (s.stack.len() - i + 1) as nat);
            &&& t.phase is Next
            &&& t.stack == s.stack.take(i + 1)
            &&& t.stack.last() == s.stack[i]
            &&& t.ctx.variables == s.ctx.variables
            &&& t.ctx.loop_iterations == s.ctx.loop_iterations
        }),
{
    lemma_kinds();
    lemma_begins(s, m, "continue"@);
    let t1 = after(s, m, 1);
    let n = (s.stack.len() - i - 1) as nat;
    assert forall|j: int| i + 1 <= j < t1.stack.len() implies !is_loop(#[trigger] t1.stack[j]) by {
        if j < s.stack.len() - 1 {
            assert(t1.stack[j] == s.stack[j]);
        }
    }
    lemma_unwind(t1, m, Flow::ContinueLoop, i + 1);
    let t2 = after(t1, m, n);
    assert(t1.stack.take(i + 1) =~= s.stack.take(i + 1));
    assert(t2.stack.last() == s.stack[i]);
    reveal(RunView::deliver);
    reveal_with_fuel(after, 2);
    lemma_after_add(s, m, 1, n);
    lemma_after_add(s, m, 1 + n, 1);
    assert(after(t2, m, 1) == t2.step(m, EventView::Ready, Seq::empty()).0);
}

/// A block `break` ends the innermost loop, whatever rounds or items it had left:
/// the loop is off the stack and logged, and the run goes on behind it.
pub proof fn lemma_break(s: RunView, m: Moment, i: int)
    requires
        comes_next(s, m, "break"@),
        innermost_loop(s.stack, i),
        s.ctx.steps_run < u32::MAX,
    ensures
        ({
            let t = after(s, m, (s.stack.len() - i + 1) as nat);
            &&& t.phase == PhaseView::Return(Flow::Continue)
            &&& t.stack == s.stack.take(i)
            &&& t.ctx.variables == s.ctx.variables
            &&& t.ctx.loop_iterations == s.ctx.loop_iterations
        }),
{
    lemma_kinds();
    lemma_begins(s, m, "break"@);
    let t1 = after(s, m, 1);
    let n = (s.stack.len() - i - 1) as nat;
    assert forall|j: int| i + 1 <= j < t1.stack.len() implies !is_loop(#[trigger] t1.stack[j]) by {
        if j < s.stack.len() - 1 {
            assert(t1.stack[j] == s.stack[j]);
        }
    }
    lemma_unwind(t1, m, Flow::Break, i + 1);
    let t2 = after(t1, m, n);
    assert(t1.stack.take(i + 1) =~= s.stack.take(i + 1));
    assert(t2.stack.last() == s.stack[i]);
    assert(t2.stack.drop_last() =~= s.stack.take(i));
    reveal(RunView::deliver);
    reveal_with_fuel(after, 2);
    lemma_after_add(s, m, 1, n);
    lemma_after_add(s, m, 1 + n, 1);
    assert(after(t2, m, 1) == t2.step(m, EventView::Ready, Seq::empty()).0);
}

/// A block `stop` ends the run, however deep it stands: no other block begins and
/// no round starts, and the run is over without a word.
pub proof fn lemma_stop(s: RunView, m: Moment)
    requires
        comes_next(s, m, "stop"@),
        s.ctx.steps_run < u32::MAX,
    ensures
        ({
            let t = after(s, m, (s.stack.len() + 2) as nat);
            &&& t.phase is Done
            &&& t.stack.len() == 0
            &&& t.ctx.variables == s.ctx.variables
            &&& t.ctx.warnings == s.ctx.warnings
            &&& t.ctx.loop_iterations == s.ctx.loop_iterations
            &&& t.ctx.steps_run == s.ctx.steps_run + 1
        }),
{
    lemma_kinds();
    lemma_begins(s, m, "stop"@);
    let t1 = after(s, m, 1);
    let n = s.stack.len();
    lemma_unwind(t1, m, Flow::Stop, 0);
    let t2 = after(t1, m, n);
    assert(t2.stack.len() == 0);
    reveal(RunView::deliver);
    reveal_with_fuel(after, 2);
    lemma_after_add(s, m, 1, n);
    lemma_after_add(s, m, 1 + n, 1);
    assert(after(t2, m, 1) == t2.step(m, EventView::Ready, Seq::empty()).0);
}

/// A round may start: the run is not cancelled, and the limit is not reached.
pub open spec fn rounds_left(s: RunView, m: Moment, n: nat) -> bool {
    &&& !m.cancelled
    &&& s.ctx.loop_iterations + n <= s.ctx.caps.max_loop_iterations
}

/// A round of a loop by count takes one from the rounds that are left, and begins
/// with the first of the blocks in the loop.
pub proof fn lemma_round_starts(
    s: RunView,
    m: Moment,
    ev: EventView,
    draws: Seq<u64>,
    block: BlockView,
    started_ms: u64,
    left: u64,
)
    requires
        s.phase is Next,
        s.stack.len() > 0,
        s.stack.last() == (FrameView::Loop { block, started_ms, left }),
        left > 0,
        rounds_left(s, m, 1),
    ensures
        ({
            let t = s.step(m, ev, draws).0;
            let n = s.stack.len();
            &&& t.phase is Next
            &&& t.stack.len() == n + 1
            &&& t.stack.take(n - 1) == s.stack.take(n - 1)
            &&& t.stack[n - 1] == (FrameView::Loop { block, started_ms, left: (left - 1) as u64 })
            &&& t.stack[n as int] == (FrameView::List { blocks: block.children, next: 0 })
            &&& t.ctx.loop_iterations == s.ctx.loop_iterations + 1
            &&& t.ctx.variables == s.ctx.variables
        }),
{
    reveal(RunView::next);
    let t = s.step(m, ev, draws).0;
    assert(t.stack.take(s.stack.len() - 1) =~= s.stack.take(s.stack.len() - 1));
}

/// A round of a loop over items puts the next item, and its place, into the
/// variables, and begins with the first of the blocks in the loop.
pub proof fn lemma_item_taken(
    s: RunView,
    m: Moment,
    ev: EventView,
    draws: Seq<u64>,
    block: BlockView,
    started_ms: u64,
    items: Seq<JsonView>,
    next: int,
    other: Seq<char>,
)
    requires
        s.phase is Next,
        s.stack.len() > 0,
        s.stack.last() == (FrameView::Each { block, started_ms, items, next }),
        0 <= next < items.len(),
        next <= u64::MAX,
        rounds_left(s, m, 1),
        other != "item"@ && other != "loop_index"@,
    ensures
        ({
            let t = s.step(m, ev, draws).0;
            let n = s.stack.len();
            &&& t.phase is Next
            &&& t.stack.len() == n + 1
            &&& t.stack.take(n - 1) == s.stack.take(n - 1)
            &&& t.stack[n - 1] == (FrameView::Each { block, started_ms, items, next: next + 1 })
            &&& t.stack[n as int] == (FrameView::List { blocks: block.children, next: 0 })
            &&& t.ctx.loop_iterations == s.ctx.loop_iterations + 1
            &&& lookup(t.ctx.variables, "item"@) == Some(items[next])
            &&& lookup(t.ctx.variables, "loop_index"@) == Some(
                JsonView::Number(NumberView::PosInt(next as u64)),
            )
            &&& lookup(t.ctx.variables, other) == lookup(s.ctx.variables, other)
        }),
{
    reveal(RunView::next);
    reveal_strlit("item");
    reveal_strlit("loop_index");
    assert("item"@.len() == 4 && "loop_index"@.len() == 10);
    let t = s.step(m, ev, draws).0;
    assert(t.stack.take(s.stack.len() - 1) =~= s.stack.take(s.stack.len() - 1));
    let vars = s.ctx.variables;
    let one = crate::map::put(vars, "item"@, items[next]);
    let index = JsonView::from_uint(next as u64);
    lemma_lookup_put(vars, "item"@, items[next], other);
    lemma_lookup_put(one, "loop_index"@, index, "item"@);
    lemma_lookup_put(one, "loop_index"@, index, other);
}

/// A loop by count whose blocks come to nothing makes as many rounds as were left,
/// no more and no fewer, and is left then.
pub proof fn lemma_rounds(
    s: RunView,
    m: Moment,
    block: BlockView,
    started_ms: u64,
    left: u64,
)
    requires
        s.phase is Next,
        s.stack.len() > 0,
        s.stack.last() == (FrameView::Loop { block, started_ms, left }),
        block.children.len() == 0,
        rounds_left(s, m, left as nat),
    ensures
        ({
            let t = after(s, m, (3 * left + 1) as nat);
            &&& t.ctx.loop_iterations == s.ctx.loop_iterations + left
            &&& t.stack == s.stack.drop_last()
            &&& t.phase == PhaseView::Return(Flow::Continue)
        }),
    decreases left,
{
    reveal(RunView::next);
    reveal(RunView::deliver);
    reveal_with_fuel(after, 4);
    if left > 0 {
        let t1 = s.step(m, EventView::Ready, Seq::empty()).0;
        lemma_round_starts(s, m, EventView::Ready, Seq::empty(), block, started_ms, left);
        let t2 = t1.step(m, EventView::Ready, Seq::empty()).0;
        let t3 = t2.step(m, EventView::Ready, Seq::empty()).0;
        let f = FrameView::Loop { block, started_ms, left: (left - 1) as u64 };
        assert(t2.stack =~= s.stack.drop_last().push(f));
        assert(t2.stack.last() == f);
        assert(t3.stack =~= t2.stack);
        lemma_rounds(t3, m, block, started_ms, (left - 1) as u64);
        assert(t3.stack.drop_last() =~= s.stack.drop_last());
        lemma_after_add(s, m, 3, (3 * (left - 1) + 1) as nat);
    }
}

/// A loop over items whose blocks come to nothing makes one round for each item
/// that was left, ends with the last of them in the variable, and is left then.
pub proof fn lemma_items(
    s: RunView,
    m: Moment,
    block: BlockView,
    started_ms: u64,
    items: Seq<JsonView>,
    next: int,
)
    requires
        s.phase is Next,
        s.stack.len() > 0,
        s.stack.last() == (FrameView::Each { block, started_ms, items, next }),
        0 <= next <= items.len() <= u64::MAX,
        block.children.len() == 0,
        rounds_left(s, m, (items.len() - next) as nat),
    ensures
        ({
            let t = after(s, m, (3 * (items.len() - next) + 1) as nat);
            &&& t.ctx.loop_iterations == s.ctx.loop_iterations + (items.len() - next)
            &&& t.stack == s.stack.drop_last()
            &&& t.phase == PhaseView::Return(Flow::Continue)
            &&& next < items.len() ==> lookup(t.ctx.variables, "item"@) == Some(items.last())
        }),
    decreases items.len() - next,
{
    reveal(RunView::next);
    reveal(RunView::deliver);
    reveal_with_fuel(after, 4);
    reveal_strlit("item");
    reveal_strlit("loop_index");
    assert("item"@.len() == 4 && "loop_index"@.len() == 10);
    if next < items.len() {
        let t1 = s.step(m, EventView::Ready, Seq::empty()).0;
        lemma_item_taken(
            s,
            m,
            EventView::Ready,
            Seq::empty(),
            block,
            started_ms,
            items,
            next,
            Seq::empty(),
        );
        let t2 = t1.step(m, EventView::Ready, Seq::empty()).0;
        let t3 = t2.step(m, EventView::Ready, Seq::empty()).0;
        let f = FrameView::Each { block, started_ms, items, next: next + 1 };
        assert(t2.stack =~= s.stack.drop_last().push(f));
        assert(t2.stack.last() == f);
        assert(t3.stack =~= t2.stack);
        lemma_items(t3, m, block, started_ms, items, next + 1);
        assert(t3.stack.drop_last() =~= s.stack.drop_last());
        let n = (3 * (items.len() - next - 1) + 1) as nat;
        lemma_after_add(s, m, 3, n);
        if next + 1 == items.len() {
            assert(after(t3, m, 1) == t3.step(m, EventView::Ready, Seq::empty()).0);
        }
    }
}

/// A list takes its blocks one after the other: the one at the next place, which
/// then moves on by one. A block that is switched off is passed over and counts
/// for nothing; behind the last the list is left.
pub proof fn lemma_list(
    s: RunView,
    m: Moment,
    ev: EventView,
    draws: Seq<u64>,
    blocks: Seq<BlockView>,
    next: int,
)
    requires
        s.phase is Next,
        s.stack.len() > 0,
        s.stack.last() == (FrameView::List { blocks, next }),
        0 <= next,
        !m.cancelled,
    ensures
        ({
            let t = s.step(m, ev, draws).0;
            &&& next < blocks.len() && blocks[next].disabled ==> t == (RunView {
                stack: s.stack.drop_last().push(FrameView::List { blocks, next: next + 1 }),
                ..s
            })
            &&& next >= blocks.len() ==> t == (RunView {
                stack: s.stack.drop_last(),
                phase: PhaseView::Return(Flow::Continue),
                ..s
            })
            &&& next < blocks.len() && !blocks[next].disabled ==> s.step(m, ev, draws)
                == s.popped().pushed(FrameView::List { blocks, next: next + 1 }).begin(
                blocks[next],
                m,
                draws,
            )
        }),
{
    reveal(RunView::next);
    reveal(RunView::begin);
}

/// A block that would be one too many, or begins too late, ends the run and says
/// which limit it hit; so does a round that would be one too many.
pub proof fn lemma_limits(s: RunView, b: BlockView, m: Moment, ev: EventView, draws: Seq<u64>)
    requires
        s.ctx.steps_run < u32::MAX,
        s.ctx.loop_iterations < u32::MAX,
    ensures
        !b.disabled && s.ctx.steps_run >= s.ctx.caps.max_steps ==> s.begin(b, m, draws).1
            is Finished && s.begin(b, m, draws).0.phase is Done && s.begin(
            b,
            m,
            draws,
        ).0.ctx.warnings == s.ctx.warnings.push("Run hit cap: max_steps"@),
        !b.disabled && s.ctx.steps_run < s.ctx.caps.max_steps && m.elapsed_secs
            > s.ctx.caps.max_total_secs ==> s.begin(b, m, draws).1 is Finished && s.begin(
            b,
            m,
            draws,
        ).0.phase is Done && s.begin(b, m, draws).0.ctx.warnings == s.ctx.warnings.push(
            "Run hit cap: max_total_secs"@,
        ),
        s.phase is Next && s.stack.len() > 0 && s.ctx.loop_iterations
            >= s.ctx.caps.max_loop_iterations && (s.stack.last() matches FrameView::Loop {
            left,
            ..
        } && left > 0) ==> s.step(m, ev, draws).0.phase is Done && s.step(
            m,
            ev,
            draws,
        ).0.ctx.warnings == s.ctx.warnings.push("Run hit cap: max_loop_iterations"@),
{
    reveal(RunView::begin);
    reveal(RunView::next);
    reveal_strlit("Run hit cap: ");
    reveal_strlit("max_steps");
    reveal_strlit("max_total_secs");
    reveal_strlit("max_loop_iterations");
    reveal_strlit("Run hit cap: max_steps");
    reveal_strlit("Run hit cap: max_total_secs");
    reveal_strlit("Run hit cap: max_loop_iterations");
    assert("Run hit cap: "@ + "max_steps"@ =~= "Run hit cap: max_steps"@);
    assert("Run hit cap: "@ + "max_total_secs"@ =~= "Run hit cap: max_total_secs"@);
    assert("Run hit cap: "@ + "max_loop_iterations"@ =~= "Run hit cap: max_loop_iterations"@);
}

/// A run that has been cancelled begins no further block and no further round: it
/// leaves what it stands in, and what is around that, until nothing is left.
pub proof fn lemma_cancelled_stops(s: RunView, m: Moment, ev: EventView, draws: Seq<u64>)
    requires
        m.cancelled,
        s.phase is Next,
        s.stack.len() > 0,
        s.stack.last() matches FrameView::List { blocks, next } ==> next < blocks.len(),
        s.stack.last() matches FrameView::Loop { left, .. } ==> left > 0,
        s.stack.last() matches FrameView::Each { items, next, .. } ==> next < items.len(),
        !(s.stack.last() is Branch),
        s.ctx.loop_iterations < s.ctx.caps.max_loop_iterations,
    ensures
        s.step(m, ev, draws).0.phase == PhaseView::Return(Flow::Stop),
        s.step(m, ev, draws).0.stack == s.stack.drop_last(),
        s.step(m, ev, draws).0.ctx.variables == s.ctx.variables,
        s.step(m, ev, draws).0.ctx.steps_run == s.ctx.steps_run,
        after(
            RunView { phase: PhaseView::Return(Flow::Stop), ..s },
            m,
            (s.stack.len() + 1) as nat,
        ).phase is Done,
{
    reveal(RunView::next);
    let t = RunView { phase: PhaseView::Return(Flow::Stop), ..s };
    lemma_unwind(t, m, Flow::Stop, 0);
    let u = after(t, m, s.stack.len());
    assert(u.stack.len() == 0);
    lemma_after_add(t, m, s.stack.len(), 1);
    reveal(RunView::deliver);
    reveal_with_fuel(after, 2);
    assert(after(u, m, 1) == u.step(m, EventView::Ready, Seq::empty()).0);
}

// ---------------------------------------------------------------------------
// Blocks that hold blocks
// ---------------------------------------------------------------------------

/// A loop by count starts with as many rounds as its setting says, none where it
/// says nothing; a loop over items starts with the items of the list that is the
/// variable named, none where it is no list. Either begins with the first round.
pub proof fn lemma_loops_enter(
    s: RunView,
    job: JobView,
    p: JsonView,
    draw: u64,
    m: Moment,
    source: Seq<char>,
    list: Seq<JsonView>,
)
    requires
        p.field_str("source"@) == Some(source),
    ensures
        ({
            let t = s.enter(job, p, draw, m).0;
            let n = s.stack.len() as int;
            &&& job.block.block_type == "loop"@ ==> t.phase is Next && t.stack.len() == n + 1
                && t.stack.take(n) == s.stack && t.stack[n] == (FrameView::Loop {
                block: job.block,
                started_ms: job.started_ms,
                left: match p.field_uint("count"@) {
                    Some(c) => c,
                    None => 0,
                },
            })
            &&& job.block.block_type == "for_each"@ ==> t.phase is Next && t.stack.len() == n + 1
                && t.stack.take(n) == s.stack && (t.stack[n] matches FrameView::Each {
                block,
                started_ms,
                items,
                next,
            } && block == job.block && next == 0 && (lookup(s.ctx.variables, source) == Some(
                JsonView::Array(list),
            ) ==> items == list) && (lookup(s.ctx.variables, source) is None ==> items.len() == 0))
        }),
{
    reveal(RunView::enter);
    lemma_kinds();
    let t = s.enter(job, p, draw, m).0;
    if job.block.block_type == "loop"@ || job.block.block_type == "for_each"@ {
        assert(t.stack.take(s.stack.len() as int) =~= s.stack);
    }
}

/// The settings of a block are filled in with the variables of the run before it is
/// set to work, and what that has to say goes behind the warnings. Numbers that have
/// to be read are asked for first.
pub proof fn lemma_settings_filled(
    s: RunView,
    job: JobView,
    draws: Seq<u64>,
    readings: Seq<(Seq<char>, crate::interpolate::Whole)>,
    m: Moment,
)
    ensures
        ({
            let none = Seq::<(Seq<char>, crate::interpolate::Whole)>::empty();
            let sys = s.ctx.system;
            let vars = s.ctx.variables;
            let fresh = crate::interpolate::fresh_trace(s.ctx.warnings, draws);
            let (p, tr) = crate::interpolate::filled_value(
                job.block.params,
                crate::interpolate::ScopeView { vars, sys, readings },
                fresh,
            );
            let (q, tq) = crate::interpolate::filled_value(
                job.block.params,
                crate::interpolate::ScopeView { vars, sys, readings: none },
                fresh,
            );
            let told = RunView { ctx: ContextView { warnings: tr.warnings, ..s.ctx }, ..s };
            let told_q = RunView { ctx: ContextView { warnings: tq.warnings, ..s.ctx }, ..s };
            &&& tr.unknown.len() == 0 ==> s.load(job, draws, Some(readings), m) == told.enter(
                job,
                p,
                tr.next(),
                m,
            )
            &&& tq.unknown.len() == 0 && tq.asked.len() == 0 ==> s.load(job, draws, None, m)
                == told_q.enter(job, q, tq.next(), m)
            &&& tq.unknown.len() == 0 && tq.asked.len() > 0 ==> s.load(job, draws, None, m) == (
                RunView { phase: PhaseView::Load { job, draws }, ..s },
                ActionView::ReadNumbers { notations: tq.asked },
            )
        }),
{
    reveal(RunView::load);
}

/// A block that is no word of control begins with its settings, as of now and for the
/// first time; it counts as one block.
pub proof fn lemma_block_begins(s: RunView, b: BlockView, m: Moment, draws: Seq<u64>)
    requires
        !b.disabled,
        s.ctx.steps_run < s.ctx.caps.max_steps,
        s.ctx.steps_run < u32::MAX,
        m.elapsed_secs <= s.ctx.caps.max_total_secs,
        b.block_type != "break"@ && b.block_type != "continue"@ && b.block_type != "stop"@,
    ensures
        s.begin(b, m, draws) == (RunView {
            ctx: ContextView { steps_run: (s.ctx.steps_run + 1) as u32, ..s.ctx },
            ..s
        }).load(JobView { block: b, started_ms: m.now_ms, attempt: 0 }, draws, None, m),
{
    reveal(RunView::begin);
}

/// A run begins with the first block of its scenario, with nothing of it done.
pub proof fn lemma_run_begins(
    ctx: ContextView,
    mode: AiMode,
    policy: OnError,
    list: Seq<BlockView>,
    has_ai: bool,
    m: Moment,
    ev: EventView,
    draws: Seq<u64>,
)
    requires
        list.len() > 0,
        !m.cancelled,
    ensures
        ({
            let s = crate::machine::initial(ctx, mode, policy, list, has_ai);
            &&& s.stack.len() == 1 && s.phase is Next
            &&& s.ctx.variables == ctx.variables && s.ctx.ai_mode == mode && s.default_err == policy
                && s.has_ai == has_ai && s.ctx.caps == ctx.caps
            &&& s.step(m, ev, draws) == (RunView {
                stack: seq![FrameView::List { blocks: list, next: 1 }],
                ..s
            }).begin(list[0], m, draws)
        }),
{
    reveal(RunView::next);
    let s = crate::machine::initial(ctx, mode, policy, list, has_ai);
    assert(s.stack.drop_last().push(FrameView::List { blocks: list, next: 1 }) =~= seq![
        FrameView::List { blocks: list, next: 1 },
    ]);
}

/// A condition that holds runs the blocks in it, and one that does not runs the
/// other ones, where there are any; in either case the run then goes on behind it.
pub proof fn lemma_branches(s: RunView, job: JobView, yes: bool)
    ensures
        ({
            let t = s.branch(job, yes).0;
            let n = s.stack.len() as int;
            let f = FrameView::Branch { block: job.block, started_ms: job.started_ms };
            &&& yes ==> t.phase is Next && t.stack == s.stack.push(f).push(
                FrameView::List { blocks: job.block.children, next: 0 },
            )
            &&& !yes && job.block.branch_else is Some ==> t.phase is Next && t.stack
                == s.stack.push(f).push(
                FrameView::List { blocks: job.block.branch_else->0, next: 0 },
            )
            &&& !yes && job.block.branch_else is None ==> t.phase == PhaseView::Return(
                Flow::Continue,
            ) && t.stack == s.stack.push(f)
            &&& t.ctx == s.ctx
        }),
{
    reveal(RunView::branch);
}

/// A condition asks how the numbers in it compare, and what comes back decides
/// which of its blocks run; one without numbers is decided at once, and one that
/// states nothing does not hold.
pub proof fn lemma_condition_decides(
    s: RunView,
    job: JobView,
    p: JsonView,
    draw: u64,
    m: Moment,
    o: Seq<Option<NumOrder>>,
    draws: Seq<u64>,
)
    requires
        job.block.block_type == "condition"@,
    ensures
        ({
            let (t, a) = s.enter(job, p, draw, m);
            match condition_of(p, s.ctx.variables) {
                None => (t, a) == s.branch(job, false),
                Some(c) => if a is Compare {
                    a == (ActionView::Compare { pairs: compared(c) }) && t.step(
                        m,
                        EventView::Compared(o),
                        draws,
                    ).0.stack == s.branch(job, holds(c, o)).0.stack
                } else {
                    compared(c).len() == 0 && (t, a) == s.branch(job, holds(c, Seq::empty()))
                },
            }
        }),
{
    reveal(RunView::enter);
    reveal(RunView::branch);
    lemma_kinds();
}

/// What a condition states: an operator with its operand, or one of the three
/// keys that stand for one. The other operand is the variable that it names.
pub proof fn lemma_condition_read(p: JsonView, vars: Seq<(Seq<char>, JsonView)>, name: Seq<char>)
    requires
        p.field_str("variable"@) == Some(name),
    ensures
        match condition_of(p, vars) {
            Some(c) => {
                &&& lookup(vars, name) is Some ==> c.actual == lookup(vars, name)->0
                &&& lookup(vars, name) is None ==> c.actual == JsonView::Null
                &&& p.field_str("op"@) is Some ==> c.op == p.field_str("op"@)->0 && (p.field(
                    "value"@,
                ) is Some ==> c.rhs == p.field("value"@)->0)
                &&& p.field_str("op"@) is None && p.field("equals"@) is Some ==> c.op == "equals"@
                    && c.rhs == p.field("equals"@)->0
                &&& p.field_str("op"@) is None && p.field("equals"@) is None && p.field(
                    "less_than"@,
                ) is Some ==> c.op == "less_than"@ && c.rhs == p.field("less_than"@)->0
                &&& p.field_str("op"@) is None && p.field("equals"@) is None && p.field(
                    "less_than"@,
                ) is None ==> c.op == "greater_than"@ && p.field("greater_than"@) == Some(c.rhs)
            },
            None => p.field_str("op"@) is None && p.field("equals"@) is None && p.field(
                "less_than"@,
            ) is None && p.field("greater_than"@) is None,
        },
{
}

/// When a condition holds. Values that compare as numbers are equal where the
/// numbers are; others where their texts are. Less and greater are for numbers
/// alone. A list contains what one of its items equals, a text what stands in it.
/// Of each pair that decides, the variable comes first and the operand second.
pub proof fn lemma_condition_holds(
    actual: JsonView,
    rhs: JsonView,
    items: Seq<JsonView>,
    x: JsonView,
    order: NumOrder,
)
    ensures
        holds(ConditionView { op: "equals"@, actual, rhs }, seq![Some(order)]) <==> order
            == NumOrder::Equal,
        holds(ConditionView { op: "equals"@, actual, rhs }, seq![None]) <==> plain(actual)
            == plain(rhs),
        holds(ConditionView { op: "not_equals"@, actual, rhs }, seq![Some(order)]) <==> order
            != NumOrder::Equal,
        holds(ConditionView { op: "not_equals"@, actual, rhs }, seq![None]) <==> plain(actual)
            != plain(rhs),
        holds(ConditionView { op: "less_than"@, actual, rhs }, seq![Some(order)]) <==> order
            == NumOrder::Less,
        holds(ConditionView { op: "greater_than"@, actual, rhs }, seq![Some(order)]) <==> order
            == NumOrder::Greater,
        !holds(ConditionView { op: "less_than"@, actual, rhs }, seq![None]),
        !holds(ConditionView { op: "greater_than"@, actual, rhs }, seq![None]),
        !(actual is Array) ==> (holds(
            ConditionView { op: "contains"@, actual, rhs },
            Seq::empty(),
        ) <==> contains(plain(actual), plain(rhs))),
        items.contains(x) && plain(x) == plain(rhs) ==> holds(
            ConditionView { op: "contains"@, actual: JsonView::Array(items), rhs },
            Seq::empty(),
        ),
        (forall|i: int| 0 <= i < items.len() ==> plain(#[trigger] items[i]) != plain(rhs))
            ==> !holds(
            ConditionView { op: "contains"@, actual: JsonView::Array(items), rhs },
            Seq::empty(),
        ),
        compared(ConditionView { op: "less_than"@, actual, rhs }) == compared(
            ConditionView { op: "equals"@, actual, rhs },
        ),
        compared(ConditionView { op: "greater_than"@, actual, rhs }) == compared(
            ConditionView { op: "equals"@, actual, rhs },
        ),
        compared(ConditionView { op: "not_equals"@, actual, rhs }) == compared(
            ConditionView { op: "equals"@, actual, rhs },
        ),
        compared(ConditionView { op: "equals"@, actual, rhs }).len() == 1,
{
    lemma_operators();
    if items.contains(x) && plain(x) == plain(rhs) {
        let i = choose|i: int| 0 <= i < items.len() && items[i] == x;
        let c = ConditionView { op: "contains"@, actual: JsonView::Array(items), rhs };
        let all = c.actual->Array_0;
        assert(crate::plan::equal_values(
            all[i],
            c.rhs,
            crate::plan::outcome(Seq::<Option<NumOrder>>::empty(), i),
        ));
        assert(holds(c, Seq::empty()));
    }
}

/// Of the pair of numbers that decides a condition, the first is the variable and
/// the second the operand, each by its notation: a number by its own, a text
/// without the white space about it, and yes and no by one and zero.
pub proof fn lemma_compared(op: Seq<char>, n: u64, s: Seq<char>, b: bool, rhs: JsonView)
    requires
        op == "equals"@ || op == "not_equals"@ || op == "less_than"@ || op == "greater_than"@,
    ensures
        ({
            let number = compared(ConditionView { op, actual: JsonView::from_uint(n), rhs })[0];
            let text = compared(ConditionView { op, actual: JsonView::Str(s), rhs })[0];
            let flag = compared(ConditionView { op, actual: JsonView::Bool(b), rhs })[0];
            let other = compared(
                ConditionView { op, actual: rhs, rhs: JsonView::from_uint(n) },
            )[0];
            &&& number.0 == dec(n as nat)
            &&& text.0 == trim(s)
            &&& flag.0 == if b {
                "1"@
            } else {
                "0"@
            }
            &&& other.1 == dec(n as nat)
            &&& number.1 == text.1
            &&& other.0 == number.1
        }),
{
}

proof fn lemma_operators()
    ensures
        "equals"@.len() == 6,
        "not_equals"@.len() == 10,
        "less_than"@.len() == 9,
        "greater_than"@.len() == 12,
        "contains"@.len() == 8,
{
    reveal_strlit("equals");
    reveal_strlit("not_equals");
    reveal_strlit("less_than");
    reveal_strlit("greater_than");
    reveal_strlit("contains");
}

// ---------------------------------------------------------------------------
// What a block sets off
// ---------------------------------------------------------------------------

proof fn lemma_settings()
    ensures
        "url"@.len() == 3,
        "selector"@.len() == 8,
        "text"@.len() == 4 && "text"@[0] == 't',
        "key"@.len() == 3,
        "modifiers"@.len() == 9,
        "files"@.len() == 5,
        "expression"@.len() == 10,
        "wait_for_load"@.len() == 13 && "wait_for_load"@[0] == 'w',
        "await_promise"@.len() == 13 && "await_promise"@[0] == 'a',
{
    reveal_strlit("url");
    reveal_strlit("selector");
    reveal_strlit("text");
    reveal_strlit("key");
    reveal_strlit("modifiers");
    reveal_strlit("files");
    reveal_strlit("expression");
    reveal_strlit("wait_for_load");
    reveal_strlit("await_promise");
}

/// Blocks that act on a page by a text setting of theirs hand it on to the tool
/// as it is, or nothing where there is none.
pub proof fn lemma_text_blocks(p: JsonView, t: Seq<char>, u: Seq<char>)
    ensures
        p.field_str("url"@) == Some(t) ==> (plan_of("open_url"@, p) matches PlanView::Call {
            tool,
            args,
            store,
        } && tool == "navigate"@ && args.field_str("url"@) == Some(t) && !store),
        p.field_str("url"@) == Some(t) ==> (plan_of("new_tab"@, p) matches PlanView::Call {
            tool,
            args,
            store,
        } && tool == "new_tab"@ && args.field_str("url"@) == Some(t) && !store),
        p.field_str("selector"@) == Some(t) ==> (plan_of("click"@, p) matches PlanView::Call {
            tool,
            args,
            store,
        } && tool == "click_element"@ && args.field_str("selector"@) == Some(t) && !store),
        p.field_str("selector"@) == Some(t) && p.field_str("text"@) == Some(u) ==> (plan_of(
            "type_text"@,
            p,
        ) matches PlanView::Call { tool, args, store } && tool == "type_text"@ && args.field_str(
            "selector"@,
        ) == Some(t) && args.field_str("text"@) == Some(u) && !store),
        plan_of("post"@, p) == plan_of("type_text"@, p),
        plan_of("reply"@, p) == plan_of("type_text"@, p),
        plan_of("submit"@, p) == plan_of("type_text"@, p),
        p.field_str("tag"@) == Some(t) && t.len() > 0 ==> (plan_of("set_profile_tag"@, p)
            matches PlanView::Call { tool, args, store } && tool == "add_profile_tag"@
            && args.field_str("tag"@) == Some(t) && !store),
        p.field_str("message"@) == Some(t) ==> plan_of("log"@, p) == (PlanView::Note {
            message: "[log] "@ + t,
        }),
        p.field_str("name"@) == Some(t) && p.field("value"@) is Some ==> plan_of("set_variable"@, p)
            == (PlanView::Assign { name: t, value: p.field("value"@)->0 }),
{
    broadcast use {lemma_with_field, lemma_with_object};

    lemma_kinds();
    lemma_settings();
}

/// Blocks that act on a listed element or a tab name its number; blocks that read
/// the page keep what they read, and those that act on it do not.
pub proof fn lemma_plain_blocks(p: JsonView, n: i64)
    ensures
        p.field_int("index"@) == Some(n) ==> (plan_of("click_by_index"@, p)
            matches PlanView::Call { tool, args, store } && tool == "click_by_index"@ && args.field(
            "index"@,
        ) == Some(JsonView::from_int(n)) && !store),
        p.field_int("index"@) == Some(n) ==> (plan_of("switch_tab"@, p) matches PlanView::Call {
            tool,
            args,
            store,
        } && tool == "switch_tab"@ && args.field("index"@) == Some(JsonView::from_int(n))
            && !store),
        p.field_int("index"@) == Some(n) ==> (plan_of("close_tab"@, p) matches PlanView::Call {
            tool,
            args,
            store,
        } && tool == "close_tab"@ && args.field("index"@) == Some(JsonView::from_int(n)) && !store),
        plan_of("get_page_text"@, p) matches PlanView::Call { tool, args, store } && tool
            == "get_page_content"@ && args.field_str("format"@) == Some("text"@) && store,
        plan_of("get_page_html"@, p) matches PlanView::Call { tool, args, store } && tool
            == "get_page_content"@ && args.field_str("format"@) == Some("html"@) && store,
        plan_of("get_url"@, p) matches PlanView::Call { tool, args, store } && tool
            == "get_page_info"@ && store,
        plan_of("find_elements"@, p) matches PlanView::Call { tool, args, store } && tool
            == "get_interactive_elements"@ && store,
        plan_of("list_tabs"@, p) matches PlanView::Call { tool, args, store } && tool
            == "list_tabs"@ && store,
        plan_of("screenshot"@, p) matches PlanView::Call { tool, args, store } && tool
            == "screenshot"@ && !store,
        plan_of("pick_row"@, p) is PickRow,
        plan_of("load_dataset"@, p) is LoadDataset,
        plan_of("ai_check"@, p) is Ai && plan_of("ai_write"@, p) is Ai && plan_of("ai_decide"@, p)
            is Ai && plan_of("ai_extract"@, p) is Ai && plan_of("ai_summarize"@, p) is Ai
            && plan_of("ai_find_element"@, p) is Ai,
{
    broadcast use {lemma_with_field, lemma_with_object};

    lemma_kinds();
}

/// Rests are as long as the settings say, each bound from its own setting.
pub proof fn lemma_rest_blocks(p: JsonView, a: NumberView, b: NumberView)
    ensures
        p.field("seconds"@) == Some(JsonView::Number(a)) ==> plan_of("wait"@, p) == (
        PlanView::Wait { seconds: Some(a) }),
        p.field("min_s"@) == Some(JsonView::Number(a)) && p.field("max_s"@) == Some(
            JsonView::Number(b),
        ) ==> plan_of("wait_random"@, p) == (PlanView::WaitRandom { min: Some(a), max: Some(b) }),
{
    lemma_kinds();
}

/// Going back and going forward by the same number of pages are opposite ways
/// through the history, and both wait for the page, as a reload does.
pub proof fn lemma_history_blocks(p: JsonView, n: i64)
    requires
        p.field_int("steps"@) == Some(n),
        n > 0,
    ensures
        plan_of("go_back"@, p) matches PlanView::Call { tool, args, store } && tool
            == "evaluate_javascript"@ && args.field_str("expression"@) == Some(
            "history.go("@ + dec_int(-n) + ")"@,
        ) && args.field_bool("wait_for_load"@) == Some(true) && !store,
        plan_of("go_forward"@, p) matches PlanView::Call { tool, args, store } && tool
            == "evaluate_javascript"@ && args.field_str("expression"@) == Some(
            "history.go("@ + dec_int(n as int) + ")"@,
        ) && args.field_bool("wait_for_load"@) == Some(true) && !store,
        plan_of("refresh"@, p) matches PlanView::Call { tool, args, store } && tool
            == "evaluate_javascript"@ && args.field_str("expression"@) == Some(
            "location.reload()"@,
        ) && args.field_bool("wait_for_load"@) == Some(true) && !store,
{
    broadcast use {lemma_with_field, lemma_with_object};

    lemma_kinds();
    lemma_settings();
}

/// A scroll goes as far, and takes as long, as its settings say.
pub proof fn lemma_scroll_block(p: JsonView, d: u64, n: i64)
    requires
        p.field_uint("duration_ms"@) == Some(d),
        p.field_int("distance_px"@) == Some(n),
    ensures
        plan_of("scroll"@, p) matches PlanView::Call { tool, args, store } && tool
            == "evaluate_javascript"@ && args.field_str("expression"@) is Some && starts(
            args.field_str("expression"@)->0,
            "(async()=>{const D="@ + dec(d as nat) + ",dist="@ + dec_int(n as int) + ",s="@,
        ) && args.field_bool("await_promise"@) == Some(true) && !store,
{
    broadcast use {lemma_with_field, lemma_with_object};

    lemma_kinds();
    lemma_settings();
    reveal_strlit(",s=");
    let head = "(async()=>{const D="@ + dec(d as nat) + ",dist="@ + dec_int(n as int) + ",s="@;
    let all = crate::plan::scroll_script(d, n);
    let tail =
        ",s=window.scrollY,t=performance.now();while(true){const e=performance.now()-t,p=Math.min(e/D,1),k=p<0.5?4*p*p*p:1-Math.pow(-2*p+2,3)/2;window.scrollTo(0,s+dist*k);if(p>=1)break;await new Promise(r=>setTimeout(r,16));}return scrollY;})()"@;
    reveal_strlit(
        ",s=window.scrollY,t=performance.now();while(true){const e=performance.now()-t,p=Math.min(e/D,1),k=p<0.5?4*p*p*p:1-Math.pow(-2*p+2,3)/2;window.scrollTo(0,s+dist*k);if(p>=1)break;await new Promise(r=>setTimeout(r,16));}return scrollY;})()",
    );
    assert(tail.take(3) =~= ",s="@);
    assert(all.subrange(0, head.len() as int) =~= head) by {
        let front = "(async()=>{const D="@ + dec(d as nat) + ",dist="@ + dec_int(n as int);
        assert(all =~= front + tail);
        assert(head =~= front + tail.take(3));
    }
}

/// A script with a `return` in it runs as the body of a function, and any other as
/// an expression; either way the code stands in it as it was given, and its value
/// is kept.
pub proof fn lemma_script_block(p: JsonView, code: Seq<char>)
    requires
        p.field_str("expression"@) == Some(code),
        trim(code).len() > 0,
    ensures
        plan_of("run_js"@, p) matches PlanView::Call { tool, args, store } && tool
            == "evaluate_javascript"@ && store && args.field_str("expression"@) == Some(
            if contains(code, "return"@) {
                "(() => { "@ + code + " })()"@
            } else {
                "(() => ("@ + code + "))()"@
            },
        ),
{
    broadcast use {lemma_with_field, lemma_with_object};

    lemma_kinds();
}

/// A key is pressed under its name, `Enter` where none is given, with the keys held
/// down that are listed; files are handed on as they are listed.
pub proof fn lemma_list_blocks(p: JsonView, key: Seq<char>, a: Seq<JsonView>)
    ensures
        plan_of("press_key"@, p) matches PlanView::Call { tool, args, store } && tool
            == "press_key"@ && !store && (p.field_str("key"@) == Some(key) ==> args.field_str(
            "key"@,
        ) == Some(key)) && (p.field("key"@) is None ==> args.field_str("key"@) == Some("Enter"@))
            && (p.field("modifiers"@) == Some(JsonView::Array(a)) ==> args.field_array(
            "modifiers"@,
        ) == Some(a)),
        plan_of("upload_file"@, p) matches PlanView::Call { tool, args, store } && tool
            == "upload_file"@ && !store && (p.field_str("selector"@) == Some(key)
            ==> args.field_str("selector"@) == Some(key)) && (p.field("files"@) == Some(
            JsonView::Array(a),
        ) ==> args.field_array("files"@) == Some(a)),
{
    broadcast use {lemma_with_field, lemma_with_object};

    lemma_kinds();
    lemma_settings();
}

/// A list that is written as a text has its items between the separators, each
/// without the white space about it; an empty one counts for nothing.
pub proof fn lemma_listed(a: Seq<char>, sep: char, b: Seq<char>)
    requires
        !b.contains(sep),
    ensures
        listed(a + seq![sep] + b, seq![sep]) == if trim(b).len() > 0 {
            listed(a, seq![sep]).push(trim(b))
        } else {
            listed(a, seq![sep])
        },
{
    lemma_split_halves(a, sep, b);
    lemma_split_single(b, sep);
    let f = |x: Seq<char>| trim(x);
    let keep = |x: Seq<char>| x.len() > 0;
    let p = crate::text::split(a, seq![sep]);
    assert((p + seq![b]).map_values(f) =~= p.map_values(f).push(trim(b)));
    crate::text::lemma_filter_push(p.map_values(f), trim(b), keep);
}

/// A block of a kind that there is not fails, and says which kind that is.
pub proof fn lemma_unknown_kind(p: JsonView, kind: Seq<char>)
    requires
        kind.len() > 15,
    ensures
        plan_of(kind, p) == (PlanView::Fail { message: "Unknown block type: "@ + kind }),
{
    lemma_kinds();
}

// ---------------------------------------------------------------------------
// What becomes of it
// ---------------------------------------------------------------------------

/// The entry that a block leaves in the log.
pub open spec fn logged(t: ContextView, s: ContextView, job: JobView, m: Moment, status: Seq<char>) -> bool {
    &&& t.step_logs.len() == s.step_logs.len() + 1
    &&& t.step_logs.drop_last() == s.step_logs
    &&& t.step_logs.last().block_id == job.block.id
    &&& t.step_logs.last().block_type == job.block.block_type
    &&& t.step_logs.last().status == status
    &&& m.now_ms >= job.started_ms ==> t.step_logs.last().duration_ms == m.now_ms - job.started_ms
}

/// A block that is to call a tool does so once, unless it is on trial; what the
/// tool replies goes to the output variable of a block that reads, and to nowhere
/// of one that acts. The block is then logged as done, or as done again.
pub proof fn lemma_tool_is_called(
    s: RunView,
    job: JobView,
    p: JsonView,
    draw: u64,
    m: Moment,
    tool: Seq<char>,
    args: JsonView,
    store: bool,
    reply: JsonView,
    out: Seq<char>,
)
    requires
        plan_of(job.block.block_type, p) == (PlanView::Call { tool, args, store }),
        !job.block.dry_run,
        p.field_str("output_variable"@) == Some(out),
    ensures
        ({
            let (t, a) = s.leaf(job, p, draw, m);
            let (u, b) = t.step(m, EventView::Reply(Ok(reply)), Seq::empty());
            &&& a == (ActionView::Call { tool, args })
            &&& t.ctx == s.ctx && t.stack == s.stack
            &&& b is Proceed && u.phase is Next && u.stack == s.stack
            &&& store ==> lookup(u.ctx.variables, out) == Some(JsonView::Str(reply_text(reply)))
            &&& !store ==> u.ctx.variables == s.ctx.variables
            &&& logged(
                u.ctx,
                s.ctx,
                job,
                m,
                if job.attempt > 0 {
                    "retried"@
                } else {
                    "ok"@
                },
            )
            &&& u.ctx.step_logs.last().error is None
        }),
{
    reveal(RunView::leaf);
    reveal(RunView::resume);
    lemma_lookup_put(s.ctx.variables, out, JsonView::Str(reply_text(reply)), out);
    let (t, a) = s.leaf(job, p, draw, m);
    let (u, b) = t.step(m, EventView::Reply(Ok(reply)), Seq::empty());
    assert(u.ctx.step_logs.drop_last() =~= s.ctx.step_logs);
}

/// A tool that fails makes its block fail: tried again after two seconds where the
/// block or else the scenario says so and it has been tried less than three times,
/// passed over where they say that, and else the end of the run.
pub proof fn lemma_tool_fails(
    s: RunView,
    job: JobView,
    p: JsonView,
    store: bool,
    m: Moment,
    e: Seq<char>,
    draws: Seq<u64>,
)
    requires
        s.phase == (PhaseView::Work { job, params: p, task: TaskView::Tool { store } }),
        job.attempt < u32::MAX,
    ensures
        ({
            let (t, a) = s.step(m, EventView::Reply(Err(e)), draws);
            let policy = match job.block.on_error {
                Some(x) => x,
                None => s.default_err,
            };
            &&& t.ctx.variables == s.ctx.variables
            &&& policy == OnError::Retry && job.attempt < 2 ==> a == (ActionView::Sleep { ms: 2000 })
                && t.phase == (PhaseView::Pause {
                job: JobView { attempt: (job.attempt + 1) as u32, ..job },
            }) && t.ctx == s.ctx && t.stack == s.stack
            &&& policy == OnError::Skip ==> t.phase is Next && t.stack == s.stack && logged(
                t.ctx,
                s.ctx,
                job,
                m,
                "skipped"@,
            ) && t.ctx.step_logs.last().error == Some(e)
            &&& policy == OnError::Stop || (policy == OnError::Retry && job.attempt >= 2) ==> a
                is Finished && t.phase is Done && logged(t.ctx, s.ctx, job, m, "failed"@)
                && t.ctx.step_logs.last().error == Some(e) && t.ctx.warnings
                == s.ctx.warnings.push("Run stopped on error"@)
        }),
{
    reveal(RunView::resume);
    let t = s.step(m, EventView::Reply(Err(e)), draws).0;
    assert(t.ctx.step_logs.len() > s.ctx.step_logs.len() ==> t.ctx.step_logs.drop_last()
        =~= s.ctx.step_logs);
}

/// A block that is tried again begins anew, with its settings filled in again,
/// unless the run has been cancelled meanwhile.
pub proof fn lemma_tried_again(s: RunView, job: JobView, m: Moment, ev: EventView, draws: Seq<u64>)
    requires
        s.phase == (PhaseView::Pause { job }),
    ensures
        m.cancelled ==> s.step(m, ev, draws).0 == (RunView {
            phase: PhaseView::Return(Flow::Stop),
            ..s
        }),
        !m.cancelled ==> s.step(m, ev, draws) == (RunView { phase: PhaseView::Next, ..s }).load(
            job,
            draws,
            None,
            m,
        ),
{
}

/// A block that sets a variable sets that one and no other; a block that logs puts
/// its message behind the warnings; both are done at once.
pub proof fn lemma_values_set(
    s: RunView,
    job: JobView,
    p: JsonView,
    draw: u64,
    m: Moment,
    name: Seq<char>,
    value: JsonView,
    message: Seq<char>,
    other: Seq<char>,
)
    requires
        other != name,
    ensures
        plan_of(job.block.block_type, p) == (PlanView::Assign { name, value }) ==> ({
            let (t, a) = s.leaf(job, p, draw, m);
            &&& a is Proceed && t.phase is Next && t.stack == s.stack
            &&& lookup(t.ctx.variables, name) == Some(value)
            &&& lookup(t.ctx.variables, other) == lookup(s.ctx.variables, other)
            &&& t.ctx.warnings == s.ctx.warnings
            &&& t.ctx.step_logs.len() == s.ctx.step_logs.len() + 1
        }),
        plan_of(job.block.block_type, p) == (PlanView::Note { message }) ==> ({
            let (t, a) = s.leaf(job, p, draw, m);
            &&& a is Proceed && t.phase is Next && t.stack == s.stack
            &&& t.ctx.variables == s.ctx.variables
            &&& t.ctx.warnings == s.ctx.warnings.push(message)
            &&& t.ctx.step_logs.len() == s.ctx.step_logs.len() + 1
        }),
{
    reveal(RunView::leaf);
    lemma_lookup_put(s.ctx.variables, name, value, other);
}

/// A rest is as long as the block says, and the block is done when it is over.
pub proof fn lemma_rests(
    s: RunView,
    job: JobView,
    p: JsonView,
    draw: u64,
    m: Moment,
    seconds: Option<NumberView>,
    min: Option<NumberView>,
    max: Option<NumberView>,
)
    ensures
        plan_of(job.block.block_type, p) == (PlanView::Wait { seconds }) ==> s.leaf(
            job,
            p,
            draw,
            m,
        ).1 == (ActionView::Wait { seconds }) && s.leaf(job, p, draw, m).0.step(
            m,
            EventView::Ready,
            Seq::empty(),
        ).0.phase is Next,
        plan_of(job.block.block_type, p) == (PlanView::WaitRandom { min, max }) ==> s.leaf(
            job,
            p,
            draw,
            m,
        ).1 == (ActionView::WaitRandom { min, max }) && s.leaf(job, p, draw, m).0.step(
            m,
            EventView::Ready,
            Seq::empty(),
        ).0.phase is Next,
{
    reveal(RunView::leaf);
    reveal(RunView::resume);
}

/// A row that a block picks: counted from the front, and from behind where the
/// number is negative; around the ends where there are not so many. By chance, any
/// row; else the first.
pub proof fn lemma_row_picked(p: JsonView, len: int, draw: u64, i: i64)
    requires
        len > 0,
    ensures
        p.field_int("index"@) == Some(i) && 0 <= i < len ==> row_index(p, len, draw) == i,
        p.field_int("index"@) == Some(i) && -len <= i < 0 ==> row_index(p, len, draw) == len + i,
        p.field("index"@) is None && p.field_str("mode"@) == Some("random"@) && draw < len
            ==> row_index(p, len, draw) == draw,
        p.field("index"@) is None && p.field_str("mode"@) != Some("random"@) ==> row_index(
            p,
            len,
            draw,
        ) == 0,
        0 <= row_index(p, len, draw) < len,
{
    vstd::arithmetic::div_mod::lemma_mod_bound(draw as int, len);
    if 0 <= i < len {
        vstd::arithmetic::div_mod::lemma_small_mod(i as nat, len as nat);
    }
    if draw < len {
        vstd::arithmetic::div_mod::lemma_small_mod(draw as nat, len as nat);
    }
    if -len <= i < 0 {
        vstd::arithmetic::div_mod::lemma_small_mod((len + i) as nat, len as nat);
        vstd::arithmetic::div_mod::lemma_mod_add_multiples_vanish(i as int, len);
    }
    vstd::arithmetic::div_mod::lemma_mod_bound(
        match p.field_int("index"@) {
            Some(i) => i as int,
            None => match p.field_str("index"@) {
                Some(t) => match crate::plan::i64_value(trim(t)) {
                    Some(i) => i,
                    None => 0,
                },
                None => 0,
            },
        },
        len,
    );
}

/// A row that is picked gives its cells to the variables of their names, or all of
/// them to the one variable that the prefix names; a dataset that is loaded goes
/// to one variable, as the list of its rows. Where there is no such dataset, a
/// warning says so and no variable changes.
pub proof fn lemma_data_blocks(
    c: ContextView,
    p: JsonView,
    draw: u64,
    id: Seq<char>,
    name: Seq<char>,
    rows: Seq<crate::dataset::Row>,
)
    requires
        p.field_str("dataset_id"@) == Some(id),
    ensures
        lookup(c.datasets, id) == Some(rows) && rows.len() > 0 && p.field_str("prefix"@) == Some(
            name,
        ) && name.len() > 0 ==> lookup(c.row_picked(p, draw).variables, name) == Some(
            JsonView::Object(rows[row_index(p, rows.len() as int, draw)]),
        ) && c.row_picked(p, draw).warnings == c.warnings,
        lookup(c.datasets, id) == Some(rows) && rows.len() > 0 && p.field_str("prefix"@) is None
            && rows[row_index(p, rows.len() as int, draw)].len() == 1 ==> ({
            let row = rows[row_index(p, rows.len() as int, draw)];
            lookup(c.row_picked(p, draw).variables, row[0].0) == Some(row[0].1)
        }),
        lookup(c.datasets, id) is None || (lookup(c.datasets, id)->0).len() == 0 ==> c.row_picked(
            p,
            draw,
        ).variables == c.variables && c.row_picked(p, draw).warnings.len() == c.warnings.len() + 1,
        lookup(c.datasets, id) == Some(rows) && p.field_str("output_variable"@) == Some(name)
            ==> lookup(c.dataset_loaded(p).variables, name) == Some(
            JsonView::Array(rows.map_values(|r: crate::dataset::Row| JsonView::Object(r))),
        ),
        lookup(c.datasets, id) is None ==> c.dataset_loaded(p).variables == c.variables
            && c.dataset_loaded(p).warnings.len() == c.warnings.len() + 1,
{
    reveal_with_fuel(crate::context::put_all, 2);
    let row = rows[row_index(p, rows.len() as int, draw)];
    lemma_lookup_put(c.variables, name, JsonView::Object(row), name);
    if row.len() == 1 {
        lemma_lookup_put(c.variables, row[0].0, row[0].1, row[0].0);
    }
    lemma_lookup_put(
        c.variables,
        name,
        JsonView::Array(rows.map_values(|r: crate::dataset::Row| JsonView::Object(r))),
        name,
    );
}

// ---------------------------------------------------------------------------
// Questions to a language model
// ---------------------------------------------------------------------------

/// The run may ask a language model for this block: it has one, tokens are left,
/// and the scenario wants it, or leaves it to the block and the block does.
pub open spec fn asks(s: RunView, b: BlockView) -> bool {
    &&& s.has_ai
    &&& s.ctx.ai_tokens_used < s.ctx.caps.max_ai_tokens
    &&& s.ctx.ai_mode == AiMode::Ai || (s.ctx.ai_mode == AiMode::Auto && b.ai_enabled)
}

proof fn lemma_inputs()
    ensures
        "page_text"@.len() == 9,
        "interactive_list"@.len() == 16,
        "prompt"@.len() == 6,
        "question"@.len() == 8,
{
    reveal_strlit("page_text");
    reveal_strlit("interactive_list");
    reveal_strlit("prompt");
    reveal_strlit("question");
}

/// A block that may ask and wants nothing of the page asks at once, and its prompt
/// is the question. What comes back answers it.
pub proof fn lemma_asks_at_once(s: RunView, job: JobView, p: JsonView, m: Moment, q: Seq<char>)
    requires
        asks(s, job.block),
        p.field_str("prompt"@) == Some(q) || (p.field("prompt"@) is None && p.field_str(
            "question"@,
        ) == Some(q)),
        p.field("input"@) is None,
    ensures
        ({
            let (t, a) = s.ai(job, p, m);
            &&& a matches ActionView::Ask { request } && request.prompt == q
                && request.system.len() > 0
            &&& t.phase == (PhaseView::Work { job, params: p, task: TaskView::Answer })
            &&& t.ctx == s.ctx && t.stack == s.stack
        }),
{
    lemma_inputs();
    reveal_strlit(
        "You are a browser-automation assistant. Follow the requested output format exactly.",
    );
}

/// A block that may ask and wants the text of the page reads that first, and then
/// asks its question with the text behind it.
pub proof fn lemma_asks_of_page(
    s: RunView,
    job: JobView,
    p: JsonView,
    m: Moment,
    q: Seq<char>,
    reply: JsonView,
    draws: Seq<u64>,
)
    requires
        asks(s, job.block),
        p.field_str("prompt"@) == Some(q),
        p.field_array("input"@) == Some(seq![JsonView::Str("page_text"@)]),
    ensures
        ({
            let (t, a) = s.ai(job, p, m);
            let (u, b) = t.step(m, EventView::Reply(Ok(reply)), draws);
            &&& a matches ActionView::Call { tool, args } && tool == "get_page_content"@
                && args.field_str("format"@) == Some("text"@)
            &&& b matches ActionView::Ask { request } && starts(request.prompt, q)
                && crate::text::ends(request.prompt, reply_text(reply))
            &&& u.ctx == s.ctx && u.stack == s.stack
        }),
{
    broadcast use {lemma_with_field, lemma_with_object};

    lemma_inputs();
    reveal(RunView::resume);
    let input = p.field_array("input"@)->0;
    assert(input[0].text() == Some("page_text"@));
    let text = reply_text(reply);
    let prompt = q + "\n\n[PAGE TEXT]\n"@ + text;
    assert(prompt.subrange(0, q.len() as int) =~= q);
    assert(prompt.subrange(prompt.len() - text.len(), prompt.len() as int) =~= text);
}

/// A block that may ask and wants the list of elements reads that first, and then
/// asks its question with the list behind it.
pub proof fn lemma_asks_of_elements(
    s: RunView,
    job: JobView,
    p: JsonView,
    m: Moment,
    q: Seq<char>,
    reply: JsonView,
    draws: Seq<u64>,
)
    requires
        asks(s, job.block),
        p.field_str("prompt"@) == Some(q),
        p.field_array("input"@) == Some(seq![JsonView::Str("interactive_list"@)]),
    ensures
        ({
            let (t, a) = s.ai(job, p, m);
            let (u, b) = t.step(m, EventView::Reply(Ok(reply)), draws);
            &&& a matches ActionView::Call { tool, args } && tool == "get_interactive_elements"@
            &&& b matches ActionView::Ask { request } && starts(request.prompt, q)
                && crate::text::ends(request.prompt, reply_text(reply))
            &&& u.ctx == s.ctx && u.stack == s.stack
        }),
{
    lemma_inputs();
    reveal(RunView::resume);
    let input = p.field_array("input"@)->0;
    assert(input[0].text() == Some("interactive_list"@));
    let text = reply_text(reply);
    let prompt = q + "\n\n[INTERACTIVE]\n"@ + text;
    assert(prompt.subrange(0, q.len() as int) =~= q);
    assert(prompt.subrange(prompt.len() - text.len(), prompt.len() as int) =~= text);
}

/// An answer goes to the output variable as what its block is for: yes or no, the
/// number of an element, a list, or a text. Its tokens, in and out, are added to
/// those that were used, and the block is done.
pub proof fn lemma_answer_is_kept(
    s: RunView,
    job: JobView,
    p: JsonView,
    m: Moment,
    a: AiResultView,
    out: Seq<char>,
    yes: bool,
    v: JsonView,
    t: Seq<char>,
    draws: Seq<u64>,
)
    requires
        s.phase == (PhaseView::Work { job, params: p, task: TaskView::Answer }),
        p.field_str("output_variable"@) == Some(out),
        s.ctx.ai_tokens_used + a.input_tokens + a.output_tokens <= u64::MAX,
    ensures
        ({
            let (u, b) = s.step(m, EventView::Answered(Ok(a)), draws);
            let kind = job.block.block_type;
            let got = lookup(u.ctx.variables, out);
            &&& b is Proceed && u.phase is Next && u.stack == s.stack
            &&& u.ctx.ai_tokens_used == s.ctx.ai_tokens_used + a.input_tokens + a.output_tokens
            &&& kind == "ai_check"@ && a.json is Some && (a.json->0).field_bool("result"@) == Some(
                yes,
            ) ==> got == Some(JsonView::Bool(yes))
            &&& kind == "ai_check"@ && a.json is None ==> got == Some(JsonView::Bool(false))
            &&& kind == "ai_find_element"@ && a.json is Some && (a.json->0).field("index"@) == Some(
                v,
            ) ==> got == Some(v)
            &&& (kind == "ai_decide"@ || kind == "ai_extract"@) && a.json is Some && (
            a.json->0).field("items"@) == Some(v) ==> got == Some(v)
            &&& (kind == "ai_write"@ || kind == "ai_summarize"@) && a.text == Some(t) ==> got
                == Some(JsonView::Str(t))
            &&& u.ctx.step_logs.len() == s.ctx.step_logs.len() + 1
        }),
{
    reveal(RunView::resume);
    lemma_kinds();
    let x = crate::machine::answer_value(job.block.block_type, a);
    lemma_lookup_put(s.ctx.variables, out, x, out);
}

/// Where no model may be asked, or it fails, a block goes on without: no, the first
/// element, an empty list, the text that the block gives for that case, or the
/// beginning of the text of the page.
pub proof fn lemma_goes_without(
    s: RunView,
    job: JobView,
    p: JsonView,
    m: Moment,
    out: Seq<char>,
    t: Seq<char>,
    reply: JsonView,
    n: u64,
    draws: Seq<u64>,
)
    requires
        !asks(s, job.block),
        p.field_str("output_variable"@) == Some(out),
        p.field_str("fallback_text"@) == Some(t),
        p.field_uint("max_length"@) == Some(n),
    ensures
        ({
            let (u, b) = s.ai(job, p, m);
            let kind = job.block.block_type;
            let got = lookup(u.ctx.variables, out);
            &&& !(b is Ask)
            &&& kind == "ai_check"@ ==> got == Some(JsonView::Bool(false))
            &&& kind == "ai_write"@ ==> got == Some(JsonView::Str(t))
            &&& kind == "ai_find_element"@ ==> got == Some(JsonView::Number(NumberView::PosInt(0)))
            &&& kind == "ai_decide"@ || kind == "ai_extract"@ ==> got == Some(
                JsonView::Array(Seq::empty()),
            )
            &&& kind == "ai_summarize"@ ==> (b matches ActionView::Call { tool, args } && tool
                == "get_page_content"@) && ({
                let w = u.step(m, EventView::Reply(Ok(reply)), draws).0;
                let text = reply_text(reply);
                lookup(w.ctx.variables, out) == Some(
                    JsonView::Str(
                        if text.len() > n {
                            text.take(n as int)
                        } else {
                            text
                        },
                    ),
                )
            })
            &&& kind != "ai_summarize"@ ==> b is Proceed && u.phase is Next
            &&& u.ctx.ai_tokens_used == s.ctx.ai_tokens_used
        }),
{
    reveal(RunView::resume);
    lemma_kinds();
    let kind = job.block.block_type;
    lemma_lookup_put(s.ctx.variables, out, crate::machine::fallback_value(kind, p), out);
    let text = reply_text(reply);
    lemma_lookup_put(
        s.ctx.variables,
        out,
        JsonView::Str(crate::text::clipped(text, n as int)),
        out,
    );
}

/// The answer is to be an object with the one field that its kind is read from: a
/// truth value for a check, a whole number for an element, a list for a decision
/// or an extract; a text is asked for without a shape.
pub proof fn lemma_answer_shape(kind: Seq<char>)
    ensures
        ({
            let shape = crate::machine::answer_schema(kind);
            &&& kind == "ai_write"@ || kind == "ai_summarize"@ ==> shape is None
            &&& kind == "ai_check"@ ==> shape is Some && asks_for(shape->0, "result"@, "boolean"@)
            &&& kind == "ai_find_element"@ ==> shape is Some && asks_for(
                shape->0,
                "index"@,
                "integer"@,
            )
            &&& kind == "ai_decide"@ || kind == "ai_extract"@ ==> shape is Some && asks_for(
                shape->0,
                "items"@,
                "array"@,
            )
        }),
{
    broadcast use {lemma_with_field, lemma_with_object};

    lemma_kinds();
    reveal_strlit("type");
    reveal_strlit("properties");
    reveal_strlit("required");
    assert("type"@.len() == 4 && "properties"@.len() == 10 && "required"@.len() == 8);
}

/// The shape is an object with that field, which is required and of that type.
pub open spec fn asks_for(shape: JsonView, name: Seq<char>, kind: Seq<char>) -> bool {
    &&& shape.field_str("type"@) == Some("object"@)
    &&& shape.field("properties"@) is Some
    &&& (shape.field("properties"@)->0).field(name) is Some
    &&& ((shape.field("properties"@)->0).field(name)->0).field_str("type"@) == Some(kind)
    &&& shape.field_array("required"@) == Some(seq![JsonView::Str(name)])
}

/// The text of a reply is that of the first piece of its content.
pub proof fn lemma_reply_text(v: JsonView, pieces: Seq<JsonView>, t: Seq<char>)
    ensures
        v.field_array("content"@) == Some(pieces) && pieces.len() > 0 && pieces[0].field_str(
            "text"@,
        ) == Some(t) ==> reply_text(v) == t,
        v.field("content"@) is None ==> reply_text(v).len() == 0,
{
}

/// The names of the kinds of blocks, as far as it takes to tell them apart.
proof fn lemma_kinds()
    ensures
        "open_url"@.len() == 8 && "open_url"@[3] == 'n',
        "get_page_text"@.len() == 13 && "get_page_text"@[9] == 't',
        "get_url"@.len() == 7 && "get_url"@[2] == 't',
        "screenshot"@.len() == 10 && "screenshot"@[1] == 'c',
        "click_by_index"@.len() == 14,
        "click"@.len() == 5 && "click"@[0] == 'c',
        "type_text"@.len() == 9 && "type_text"@[2] == 'p',
        "post"@.len() == 4 && "post"@[0] == 'p',
        "reply"@.len() == 5 && "reply"@[0] == 'r',
        "submit"@.len() == 6 && "submit"@[2] == 'b',
        "press_key"@.len() == 9 && "press_key"@[2] == 'e',
        "upload_file"@.len() == 11 && "upload_file"@[0] == 'u',
        "new_tab"@.len() == 7 && "new_tab"@[2] == 'w',
        "switch_tab"@.len() == 10 && "switch_tab"@[1] == 'w',
        "close_tab"@.len() == 9 && "close_tab"@[2] == 'o',
        "list_tabs"@.len() == 9 && "list_tabs"@[2] == 's',
        "wait"@.len() == 4 && "wait"@[0] == 'w',
        "set_variable"@.len() == 12 && "set_variable"@[0] == 's',
        "log"@.len() == 3,
        "go_back"@.len() == 7 && "go_back"@[2] == '_',
        "go_forward"@.len() == 10 && "go_forward"@[1] == 'o',
        "refresh"@.len() == 7 && "refresh"@[2] == 'f',
        "scroll"@.len() == 6 && "scroll"@[2] == 'r',
        "find_elements"@.len() == 13 && "find_elements"@[9] == 'e',
        "get_page_html"@.len() == 13 && "get_page_html"@[9] == 'h',
        "run_js"@.len() == 6 && "run_js"@[2] == 'n',
        "wait_random"@.len() == 11 && "wait_random"@[0] == 'w',
        "pick_row"@.len() == 8 && "pick_row"@[3] == 'k',
        "load_dataset"@.len() == 12 && "load_dataset"@[0] == 'l',
        "ai_check"@.len() == 8 && "ai_check"@[3] == 'c',
        "ai_write"@.len() == 8 && "ai_write"@[3] == 'w',
        "ai_decide"@.len() == 9 && "ai_decide"@[2] == '_',
        "ai_extract"@.len() == 10 && "ai_extract"@[1] == 'i',
        "ai_summarize"@.len() == 12 && "ai_summarize"@[0] == 'a',
        "ai_find_element"@.len() == 15 && "ai_find_element"@[0] == 'a',
        "set_profile_tag"@.len() == 15 && "set_profile_tag"@[0] == 's',
        "loop"@.len() == 4 && "loop"@[0] == 'l',
        "condition"@.len() == 9 && "condition"@[2] == 'n',
        "for_each"@.len() == 8 && "for_each"@[3] == '_',
        "break"@.len() == 5 && "break"@[0] == 'b',
        "continue"@.len() == 8 && "continue"@[3] == 't',
        "stop"@.len() == 4 && "stop"@[0] == 's',
{
    reveal_strlit("open_url");
    reveal_strlit("get_page_text");
    reveal_strlit("get_url");
    reveal_strlit("screenshot");
    reveal_strlit("click_by_index");
    reveal_strlit("click");
    reveal_strlit("type_text");
    reveal_strlit("post");
    reveal_strlit("reply");
    reveal_strlit("submit");
    reveal_strlit("press_key");
    reveal_strlit("upload_file");
    reveal_strlit("new_tab");
    reveal_strlit("switch_tab");
    reveal_strlit("close_tab");
    reveal_strlit("list_tabs");
    reveal_strlit("wait");
    reveal_strlit("set_variable");
    reveal_strlit("log");
    reveal_strlit("go_back");
    reveal_strlit("go_forward");
    reveal_strlit("refresh");
    reveal_strlit("scroll");
    reveal_strlit("find_elements");
    reveal_strlit("get_page_html");
    reveal_strlit("run_js");
    reveal_strlit("wait_random");
    reveal_strlit("pick_row");
    reveal_strlit("load_dataset");
    reveal_strlit("ai_check");
    reveal_strlit("ai_write");
    reveal_strlit("ai_decide");
    reveal_strlit("ai_extract");
    reveal_strlit("ai_summarize");
    reveal_strlit("ai_find_element");
    reveal_strlit("set_profile_tag");
    reveal_strlit("loop");
    reveal_strlit("condition");
    reveal_strlit("for_each");
    reveal_strlit("break");
    reveal_strlit("continue");
    reveal_strlit("stop");
}

} // verus!
