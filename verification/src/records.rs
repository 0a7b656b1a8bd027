//! What is kept of runs and told of them, and what a run is given to begin with.
use vstd::prelude::*;

use crate::context::{put_all, ContextView};
use crate::dataset::{seed, Row};
use crate::json::{lemma_with_field, lemma_with_object};
use crate::manager::{
    add_name, dataset_named, datasets_in, datasets_loaded, named_rows, next_count, record_view,
    run_status, run_summary, seed_taken, step_json, Finished, ScenarioManager, StateView,
};
use crate::map::{lemma_lookup_put, lookup, values_by};
use crate::model::{BindingView, BlockView, DataMode, StepView};
use crate::scheduler::lemma_picked;
use crate::store::{
    all_interrupted, begun, count_failed, count_ok, detail, interrupted, limited, summary,
    RunRowView, StepRowView, SummaryView,
};
use crate::text::{contains, occurs};
use crate::tick::{idle, run_now, scenarios_for, state_or_fresh, Scene};
use crate::usage::is_recent;
use crate::value::JsonView;

verus! {

// ---------------------------------------------------------------------------
// What became of a run
// ---------------------------------------------------------------------------

proof fn lemma_statuses()
    ensures
        "failed"@.len() == 6,
        "stopped"@.len() == 7 && "stopped"@[1] == 't',
        "success"@.len() == 7 && "success"@[1] == 'u',
        "running"@.len() == 7 && "running"@[0] == 'r',
        "interrupted"@.len() == 11,
        "ok"@.len() == 2,
        "retried"@.len() == 7 && "retried"@[0] == 'r' && "retried"@[1] == 'e',
        "dry_run"@.len() == 7 && "dry_run"@[0] == 'd',
        "skipped"@.len() == 7 && "skipped"@[1] == 'k',
{
    reveal_strlit("failed");
    reveal_strlit("stopped");
    reveal_strlit("success");
    reveal_strlit("running");
    reveal_strlit("interrupted");
    reveal_strlit("ok");
    reveal_strlit("retried");
    reveal_strlit("dry_run");
    reveal_strlit("skipped");
}

/// A run has failed exactly where one of its steps has. Where none has, it was
/// stopped where a warning speaks of a stop or a limit, and else it is a success.
pub proof fn lemma_run_status(s: Seq<StepView>, warnings: Seq<Seq<char>>, i: int)
    ensures
        run_status(s, warnings) == "failed"@ <==> exists|k: int|
            0 <= k < s.len() && (#[trigger] s[k]).status == "failed"@,
        0 <= i < s.len() && s[i].status == "failed"@ ==> run_status(s, warnings) == "failed"@,
        run_status(s, warnings) == "success"@ ==> forall|k: int|
            0 <= k < warnings.len() ==> !contains(#[trigger] warnings[k], "stopped"@) && !contains(
                warnings[k],
                "cap"@,
            ),
        s.len() == 0 && warnings.len() == 0 ==> run_status(s, warnings) == "success"@,
        0 <= i < warnings.len() && contains(warnings[i], "stopped"@) ==> run_status(s, warnings)
            != "success"@,
{
    lemma_statuses();
}

proof fn lemma_summary_keys()
    ensures
        "run_id"@.len() == 6 && "run_id"@[0] == 'r',
        "scenario_id"@.len() == 11,
        "status"@.len() == 6 && "status"@[0] == 's',
        "steps"@.len() == 5 && "steps"@[0] == 's',
        "variables"@.len() == 9,
        "warnings"@.len() == 8 && "warnings"@[0] == 'w',
        "block_id"@.len() == 8 && "block_id"@[0] == 'b',
        "block_type"@.len() == 10,
        "duration_ms"@.len() == 11 && "duration_ms"@[0] == 'd',
        "error"@.len() == 5 && "error"@[0] == 'e',
{
    reveal_strlit("run_id");
    reveal_strlit("scenario_id");
    reveal_strlit("status");
    reveal_strlit("steps");
    reveal_strlit("variables");
    reveal_strlit("warnings");
    reveal_strlit("block_id");
    reveal_strlit("block_type");
    reveal_strlit("duration_ms");
    reveal_strlit("error");
}

/// The summary of a run tells which run it was, of which scenario, what became of it,
/// its variables, its warnings and its steps, each step with its error where it has
/// one.
pub proof fn lemma_run_summary(
    run_id: Seq<char>,
    scenario_id: Seq<char>,
    status: Seq<char>,
    s: Seq<StepView>,
    variables: Row,
    warnings: Seq<Seq<char>>,
    i: int,
)
    requires
        0 <= i < s.len(),
        forall|k: int| 0 <= k < s.len() ==> (#[trigger] s[k]).duration_ms <= u64::MAX,
    ensures
        ({
            let v = run_summary(run_id, scenario_id, status, s, variables, warnings);
            let told = v.field_array("steps"@)->0;
            &&& v.field_str("run_id"@) == Some(run_id)
            &&& v.field_str("scenario_id"@) == Some(scenario_id)
            &&& v.field_str("status"@) == Some(status)
            &&& v.field("variables"@) == Some(JsonView::Object(variables))
            &&& v.field_array("warnings"@) matches Some(w) && w.len() == warnings.len() && forall|
                k: int,
            |
                0 <= k < w.len() ==> #[trigger] w[k] == JsonView::Str(warnings[k])
            &&& v.field_array("steps"@) is Some && told.len() == s.len()
            &&& told[i].field_str("block_id"@) == Some(s[i].block_id)
            &&& told[i].field_str("block_type"@) == Some(s[i].block_type)
            &&& told[i].field_str("status"@) == Some(s[i].status)
            &&& told[i].field_uint("duration_ms"@) == Some(s[i].duration_ms as u64)
            &&& told[i].field_str("error"@) == s[i].error
        }),
{
    broadcast use {lemma_with_field, lemma_with_object};

    lemma_summary_keys();
    let all = s.map_values(|x: StepView| step_json(x));
    assert(all[i] == step_json(s[i]));
}

/// What is kept of a run that is over is what it was entered with, what became of it,
/// how long it took, and what it left behind.
pub proof fn lemma_record(f: Finished, c: ContextView)
    requires
        f.elapsed_ms >= 0,
    ensures
        ({
            let r = record_view(f, c);
            &&& r.scenario_id == f.scenario_id@
            &&& r.profile_id == f.profile_id@
            &&& r.triggered_by == f.triggered_by@
            &&& r.started_at == f.started_at@
            &&& r.finished_at == f.finished_at@
            &&& r.duration_ms == f.elapsed_ms
            &&& r.warnings == c.warnings
            &&& r.variables == c.variables
            &&& (r.status == "failed"@ <==> exists|k: int|
                0 <= k < c.step_logs.len() && (#[trigger] c.step_logs[k]).status == "failed"@)
        }),
{
    lemma_run_status(c.step_logs, c.warnings, 0);
}

// ---------------------------------------------------------------------------
// The list of runs
// ---------------------------------------------------------------------------

/// With one more step, a run has one more that is done where the step is one of its
/// own and was done, tried again with success or only tried out, and one more that
/// failed where it failed.
pub proof fn lemma_steps_counted(s: Seq<StepRowView>, r: StepRowView, id: Seq<char>)
    ensures
        ({
            let n = s.len() as int;
            let done = r.run_id == id && (r.status == "ok"@ || r.status == "retried"@ || r.status
                == "dry_run"@);
            let failed = r.run_id == id && r.status == "failed"@;
            &&& count_ok(s.push(r), id, n + 1) == count_ok(s, id, n) + if done {
                1int
            } else {
                0
            }
            &&& count_failed(s.push(r), id, n + 1) == count_failed(s, id, n) + if failed {
                1int
            } else {
                0
            }
            &&& count_ok(s, id, 0) == 0 && count_failed(s, id, 0) == 0
        }),
{
    lemma_counts_front(s, r, id, s.len() as int);
    assert(s.push(r)[s.len() as int] == r);
}

proof fn lemma_counts_front(s: Seq<StepRowView>, r: StepRowView, id: Seq<char>, n: int)
    requires
        n <= s.len(),
    ensures
        count_ok(s.push(r), id, n) == count_ok(s, id, n),
        count_failed(s.push(r), id, n) == count_failed(s, id, n),
    decreases n,
{
    if n > 0 {
        lemma_counts_front(s, r, id, n - 1);
        assert(s.push(r)[n - 1] == s[n - 1]);
    }
}

/// A run in the list is told of by what is kept of it.
pub proof fn lemma_summary(id: Seq<char>, r: RunRowView, s: Seq<StepRowView>)
    ensures
        summary(id, r, s).id == id,
        summary(id, r, s).scenario_id == r.scenario_id,
        summary(id, r, s).profile_id == r.profile_id,
        summary(id, r, s).status == r.status,
        summary(id, r, s).started_at == r.started_at,
        summary(id, r, s).duration_ms == r.duration_ms,
        detail(id, r, s).id == id,
        detail(id, r, s).scenario_id == r.scenario_id,
        detail(id, r, s).profile_id == r.profile_id,
        detail(id, r, s).triggered_by == r.triggered_by,
        detail(id, r, s).status == r.status,
        detail(id, r, s).started_at == r.started_at,
        detail(id, r, s).finished_at == r.finished_at,
        detail(id, r, s).duration_ms == r.duration_ms,
        detail(id, r, s).error == r.error,
        detail(id, r, s).warnings == r.warnings,
{
}

/// A list with a limit is the beginning of the whole list, as long as the limit
/// allows; a negative limit is none.
pub proof fn lemma_limited(v: Seq<SummaryView>, limit: i64)
    ensures
        limited(v, limit).is_prefix_of(v),
        limit < 0 ==> limited(v, limit) == v,
        limit >= 0 && v.len() > limit ==> limited(v, limit).len() == limit,
        limit >= 0 && v.len() <= limit ==> limited(v, limit) == v,
{
    assert(v =~= v.take(v.len() as int));
}

/// A run that begins is kept as one that is running; after a recovery every run that
/// was left so is interrupted, and no other run has changed.
pub proof fn lemma_interrupted(
    m: Seq<(Seq<char>, RunRowView)>,
    i: int,
    a: Seq<char>,
    b: Seq<char>,
    c: Seq<char>,
    d: Seq<char>,
)
    requires
        0 <= i < m.len(),
    ensures
        all_interrupted(m).len() == m.len(),
        all_interrupted(m)[i].0 == m[i].0,
        m[i].1.status == "running"@ ==> all_interrupted(m)[i].1.status == "interrupted"@
            && all_interrupted(m)[i].1.profile_id == m[i].1.profile_id,
        m[i].1.status != "running"@ ==> all_interrupted(m)[i] == m[i],
        begun(a, b, c, d).status == "running"@,
        begun(a, b, c, d).scenario_id == a && begun(a, b, c, d).profile_id == b && begun(
            a,
            b,
            c,
            d,
        ).triggered_by == c && begun(a, b, c, d).started_at == d,
{
}

/// A run counts as recent from when it started until 24 hours have passed.
pub proof fn lemma_recent(t: i64, epoch: u64)
    requires
        0 <= t,
    ensures
        is_recent(Some(t), epoch) <==> t <= epoch && epoch - t <= 24 * 60 * 60,
        !is_recent(None, epoch),
{
}

// ---------------------------------------------------------------------------
// What a run is given
// ---------------------------------------------------------------------------

/// Every dataset that a block refers to is among those of its scenario, and so is
/// every dataset that a block inside it refers to.
pub proof fn lemma_datasets_named(bs: Seq<BlockView>, n: nat, out: Seq<Seq<char>>, i: int, k: int)
    requires
        n <= bs.len(),
        0 <= i < n,
    ensures
        dataset_named(bs[i]).len() > 0 ==> datasets_in(bs, n, out).contains(dataset_named(bs[i])),
        0 <= k < bs[i].children.len() && dataset_named(bs[i].children[k]).len() > 0 ==> datasets_in(
            bs,
            n,
            out,
        ).contains(dataset_named(bs[i].children[k])),
        bs[i].branch_else is Some && 0 <= k < (bs[i].branch_else->0).len() && dataset_named(
            (bs[i].branch_else->0)[k],
        ).len() > 0 ==> datasets_in(bs, n, out).contains(dataset_named((bs[i].branch_else->0)[k])),
    decreases n,
{
    lemma_own_named(bs, n, out, i);
    let before = datasets_in(bs, (n - 1) as nat, out);
    let b = bs[n - 1];
    let own = add_name(before, dataset_named(b));
    let inner = datasets_in(b.children, b.children.len(), own);
    if i < n - 1 {
        lemma_datasets_named(bs, (n - 1) as nat, out, i, k);
        if 0 <= k < bs[i].children.len() && dataset_named(bs[i].children[k]).len() > 0 {
            lemma_stays(bs, n, out, dataset_named(bs[i].children[k]));
        }
        if bs[i].branch_else is Some && 0 <= k < (bs[i].branch_else->0).len() && dataset_named(
            (bs[i].branch_else->0)[k],
        ).len() > 0 {
            lemma_stays(bs, n, out, dataset_named((bs[i].branch_else->0)[k]));
        }
    } else {
        if 0 <= k < b.children.len() && dataset_named(b.children[k]).len() > 0 {
            lemma_own_named(b.children, b.children.len(), own, k);
            if let Some(e) = b.branch_else {
                lemma_datasets_kept(e, e.len(), inner, dataset_named(b.children[k]));
            }
        }
        if let Some(e) = b.branch_else {
            if 0 <= k < e.len() && dataset_named(e[k]).len() > 0 {
                lemma_own_named(e, e.len(), inner, k);
            }
        }
    }
}

/// What the first blocks refer to stays when one more is looked at.
proof fn lemma_stays(bs: Seq<BlockView>, n: nat, out: Seq<Seq<char>>, x: Seq<char>)
    requires
        0 < n <= bs.len(),
        datasets_in(bs, (n - 1) as nat, out).contains(x),
    ensures
        datasets_in(bs, n, out).contains(x),
{
    let before = datasets_in(bs, (n - 1) as nat, out);
    let b = bs[n - 1];
    let own = add_name(before, dataset_named(b));
    let inner = datasets_in(b.children, b.children.len(), own);
    lemma_name_added(before, dataset_named(b), x);
    lemma_datasets_kept(b.children, b.children.len(), own, x);
    if let Some(e) = b.branch_else {
        lemma_datasets_kept(e, e.len(), inner, x);
    }
}

proof fn lemma_own_named(bs: Seq<BlockView>, n: nat, out: Seq<Seq<char>>, i: int)
    requires
        n <= bs.len(),
        0 <= i < n,
    ensures
        dataset_named(bs[i]).len() > 0 ==> datasets_in(bs, n, out).contains(dataset_named(bs[i])),
    decreases n,
{
    let before = datasets_in(bs, (n - 1) as nat, out);
    let b = bs[n - 1];
    let x = dataset_named(bs[i]);
    let own = add_name(before, dataset_named(b));
    let inner = datasets_in(b.children, b.children.len(), own);
    if x.len() > 0 {
        if i < n - 1 {
            lemma_own_named(bs, (n - 1) as nat, out, i);
            lemma_stays(bs, n, out, x);
        } else {
            lemma_name_added(before, x, x);
            lemma_datasets_kept(b.children, b.children.len(), own, x);
            if let Some(e) = b.branch_else {
                lemma_datasets_kept(e, e.len(), inner, x);
            }
        }
    }
}

proof fn lemma_name_added(out: Seq<Seq<char>>, id: Seq<char>, x: Seq<char>)
    ensures
        out.contains(x) ==> add_name(out, id).contains(x),
        id.len() > 0 ==> add_name(out, id).contains(id),
{
    let r = add_name(out, id);
    if out.contains(x) {
        let i = choose|i: int| 0 <= i < out.len() && out[i] == x;
        assert(r[i] == x);
    }
    if id.len() > 0 && !out.contains(id) {
        assert(r[out.len() as int] == id);
    }
}

proof fn lemma_datasets_kept(bs: Seq<BlockView>, n: nat, out: Seq<Seq<char>>, x: Seq<char>)
    requires
        out.contains(x),
    ensures
        datasets_in(bs, n, out).contains(x),
    decreases bs, n,
{
    if n > 0 && n <= bs.len() {
        let before = datasets_in(bs, (n - 1) as nat, out);
        let b = bs[n - 1];
        let own = add_name(before, dataset_named(b));
        let inner = datasets_in(b.children, b.children.len(), own);
        lemma_datasets_kept(bs, (n - 1) as nat, out, x);
        lemma_name_added(before, dataset_named(b), x);
        lemma_datasets_kept(b.children, b.children.len(), own, x);
        if let Some(e) = b.branch_else {
            lemma_datasets_kept(e, e.len(), inner, x);
        }
    }
}

/// A block that picks a row or loads a dataset refers to the dataset of its setting;
/// no other block refers to one.
pub proof fn lemma_dataset_named(b: BlockView, id: Seq<char>)
    ensures
        (b.block_type == "pick_row"@ || b.block_type == "load_dataset"@) && b.params.field_str(
            "dataset_id"@,
        ) == Some(id) ==> dataset_named(b) == id,
        b.block_type != "pick_row"@ && b.block_type != "load_dataset"@ ==> dataset_named(b).len()
            == 0,
{
}

/// The datasets that are loaded for a run are those that are there, under their ids.
pub proof fn lemma_datasets_loaded(
    m: Seq<(Seq<char>, Seq<Row>)>,
    from: Seq<(Seq<char>, Seq<Row>)>,
    ids: Seq<Seq<char>>,
    n: int,
    id: Seq<char>,
)
    requires
        0 <= n <= ids.len(),
    ensures
        ids.take(n).contains(id) && lookup(from, id) is Some ==> lookup(
            datasets_loaded(m, from, ids, n),
            id,
        ) == lookup(from, id),
        !ids.take(n).contains(id) ==> lookup(datasets_loaded(m, from, ids, n), id) == lookup(m, id),
    decreases n,
{
    if n > 0 {
        lemma_datasets_loaded(m, from, ids, n - 1, id);
        let less = ids.take(n - 1);
        let more = ids.take(n);
        assert(more[n - 1] == ids[n - 1]);
        if more.contains(id) && id != ids[n - 1] {
            let i = choose|i: int| 0 <= i < more.len() && more[i] == id;
            assert(less[i] == id);
        }
        if less.contains(id) {
            let i = choose|i: int| 0 <= i < less.len() && less[i] == id;
            assert(more[i] == id);
        }
        if let Some(rows) = lookup(from, ids[n - 1]) {
            lemma_lookup_put(datasets_loaded(m, from, ids, n - 1), ids[n - 1], rows, id);
        }
    }
}

/// What the dataset of a scenario gives to a run: taken in turn, the row after the one
/// that was taken last, and the next run gets the one after that; by chance, any row,
/// and the turn stays where it was. A dataset that is not there, or has no rows, gives
/// nothing, and a warning names it.
pub proof fn lemma_row_bound(
    m: ScenarioManager,
    scenario_id: Seq<char>,
    b: BindingView,
    draw: u64,
    name: Seq<char>,
    rows: Seq<Row>,
)
    ensures
        ({
            let (r, cursors) = seed_taken(m, scenario_id, b, draw);
            let k = scenario_id + ":"@ + b.dataset_id;
            let turn = match lookup(m.ds_cursors@, k) {
                Some(n) => n,
                None => 0,
            };
            let d = lookup(values_by(m.datasets@, named_rows()), b.dataset_id);
            &&& d is None ==> r is Err && cursors == m.ds_cursors@ && crate::text::ends(
                r->Err_0,
                b.dataset_id,
            )
            &&& d == Some((name, rows)) && rows.len() == 0 ==> r is Err && cursors == m.ds_cursors@
                && contains(r->Err_0, name)
            &&& d == Some((name, rows)) && rows.len() > 0 && b.mode == DataMode::Sequential ==> r
                == Ok::<Row, Seq<char>>(seed(b.prefix, rows[turn as int % rows.len() as int]))
                && lookup(cursors, k) == Some(
                if turn == u64::MAX {
                    0u64
                } else {
                    (turn + 1) as u64
                },
            )
            &&& d == Some((name, rows)) && rows.len() > 0 && b.mode == DataMode::Random ==> r
                == Ok::<Row, Seq<char>>(seed(b.prefix, rows[draw as int % rows.len() as int]))
                && cursors == m.ds_cursors@
        }),
{
    let k = scenario_id + ":"@ + b.dataset_id;
    let turn = match lookup(m.ds_cursors@, k) {
        Some(n) => n,
        None => 0,
    };
    lemma_lookup_put(m.ds_cursors@, k, next_count(turn), k);
    let gone = "[data] dataset not found: "@ + b.dataset_id;
    assert(gone.subrange(gone.len() - b.dataset_id.len(), gone.len() as int) =~= b.dataset_id);
    let head = "[data] dataset '"@;
    let bare = head + name + "' is empty"@;
    assert(bare.subrange(head.len() as int, head.len() + name.len() as int) =~= name);
    assert(occurs(bare, name, head.len() as int));
}

/// Variables that are put in have the values that they were given, the later ones in
/// the place of earlier ones of the same name, and the others keep theirs.
pub proof fn lemma_variables_put(m: Row, more: Row, k: Seq<char>, v: JsonView, other: Seq<char>)
    requires
        other != k,
    ensures
        ({
            let n = more.len() as int;
            &&& lookup(put_all(m, more.push((k, v)), n + 1), k) == Some(v)
            &&& lookup(put_all(m, more.push((k, v)), n + 1), other) == lookup(
                put_all(m, more, n),
                other,
            )
            &&& put_all(m, more, 0) == m
        }),
{
    lemma_put_front(m, more, (k, v), more.len() as int);
    assert(more.push((k, v))[more.len() as int] == (k, v));
    lemma_lookup_put(put_all(m, more, more.len() as int), k, v, other);
}

proof fn lemma_put_front(m: Row, more: Row, e: (Seq<char>, JsonView), n: int)
    requires
        n <= more.len(),
    ensures
        put_all(m, more.push(e), n) == put_all(m, more, n),
    decreases n,
{
    if n > 0 {
        lemma_put_front(m, more, e, n - 1);
        assert(more.push(e)[n - 1] == more[n - 1]);
    }
}

// ---------------------------------------------------------------------------
// Running a schedule at once
// ---------------------------------------------------------------------------

/// A schedule that is run at once starts where it is there, has profiles, one of them
/// is not busy, and one of its scenarios is there, whatever the time is and whether
/// the profile cools down or not; else it says why not. What it starts is its
/// scenarios, on profiles that are assigned to it and not busy.
pub proof fn lemma_run_now(
    id: Seq<char>,
    s: Option<crate::scheduler::ScheduleView>,
    sc: Scene,
    states: Seq<(Seq<char>, StateView)>,
    draw: u64,
    p: Seq<char>,
)
    ensures
        ({
            let r = run_now(id, s, sc, states, draw).0;
            let a = lookup(sc.assignments, (s->0).id);
            let assigned = crate::profiles::expanded(
                (a->0).profile_ids,
                (a->0).group_ids,
                sc.profiles,
            );
            &&& s is None ==> r is Err && r->Err_0 == "Schedule not found: "@ + id
            &&& s is Some && a is None ==> r is Err
            &&& r is Ok ==> s is Some && a is Some && r->Ok_0.schedule_id == (s->0).id
                && r->Ok_0.profiles.len() > 0 && r->Ok_0.scenarios == scenarios_for(
                sc.scenarios,
                s->0,
            ) && r->Ok_0.headless == (a->0).run_headless
            &&& r is Ok && r->Ok_0.profiles.contains(p) ==> assigned.contains(p)
                && !crate::manager::is_busy(sc.running, p)
            &&& s is Some && a is Some && scenarios_for(sc.scenarios, s->0).len() > 0
                && assigned.contains(p) && !crate::manager::is_busy(sc.running, p) ==> r is Ok
        }),
{
    if s is Some && lookup(sc.assignments, (s->0).id) is Some {
        let a = lookup(sc.assignments, (s->0).id)->0;
        let st = state_or_fresh(states, (s->0).id);
        let all = crate::profiles::expanded(a.profile_ids, a.group_ids, sc.profiles);
        let none = Seq::<Seq<char>>::empty();
        let available = all.filter(idle(sc.running, none));
        lemma_picked(
            available,
            a.rotation_mode,
            a.max_parallel,
            st.last_used_profile_id,
            sc.counts,
            draw,
        );
        if available.contains(p) {
            crate::text::lemma_filter_elem(all, idle(sc.running, none), p);
        }
        if all.contains(p) && !crate::manager::is_busy(sc.running, p) {
            let i = choose|i: int| 0 <= i < all.len() && all[i] == p;
            assert(!none.contains(p));
            assert(idle(sc.running, none)(all[i]));
            assert(available.contains(all[i]));
        }
    }
}

} // verus!
