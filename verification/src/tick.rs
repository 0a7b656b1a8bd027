//! The beat of the scheduler: which schedules are due, and what they start.
use vstd::prelude::*;

use crate::chance::{draw, random_u64};
use crate::clock::{day_after, last_second, utc_now, valid_time, UtcTime};
use crate::manager::{
    is_busy, rest_same, state_in_order, ActiveRun, ScenarioManager, ScheduleState, StateView,
};
use crate::map::{
    every, lemma_every, lemma_lookup_entries, lemma_values_by, lemma_values_without, lookup, put,
    sorted, values_by, without, TextMap,
};
use crate::model::{copy_opt, Scenario, ScenarioView};
use crate::profiles::{
    expand_profiles, expanded, find_profile, profile_is_running, profile_named, profile_views, runs,
    ProfileEntry, ProfileView,
};
use crate::scheduler::{
    cron_holds, cron_matches, effective_scenario_ids, filter_available, free, in_window,
    is_in_time_window, least_used, opt_slice, pick_profiles_with, picked, scenario_list, used,
    AssignmentView, ProfileAssignment, RotationMode, Schedule, ScheduleView, TriggerType,
};
use crate::store::RunRowView;
use crate::text::{
    join2, lemma_filter_elem, lemma_filter_push, lemma_texts_push, same, texts, trim, trimmed,
};
use crate::usage::{lemma_usage_counts, one_more, recent_runs, run_starts, usage_in, StartView};

verus! {

// ---------------------------------------------------------------------------
// Calendar
// ---------------------------------------------------------------------------

/// A point in time as a calendar shows it. Sunday is weekday 0.
#[derive(Debug, Clone, Copy, PartialEq, Eq, Structural)]
pub struct Calendar {
    pub minute: u32,
    pub hour: u32,
    pub day: u32,
    pub month: u32,
    pub weekday: u32,
}

/// What the calendar shows in UTC at a time, given in seconds. The first day was
/// a Thursday.
pub open spec fn utc_calendar(secs: u64) -> Calendar {
    let days = secs as nat / 86400;
    Calendar {
        minute: (secs / 60 % 60) as u32,
        hour: (secs / 3600 % 24) as u32,
        day: day_after(days).day as u32,
        month: day_after(days).month as u32,
        weekday: ((days + 4) % 7) as u32,
    }
}

/// `chrono`'s `Timelike` and `Datelike` on a time in UTC say what the Gregorian
/// calendar shows then.
#[verifier::external_body]
fn read_utc(secs: u64) -> (r: Calendar)
    requires
        secs <= last_second(),
    ensures
        r == utc_calendar(secs),
{
    let d = chrono::DateTime::from_timestamp(secs as i64, 0).unwrap_or_default();
    Calendar {
        minute: chrono::Timelike::minute(&d),
        hour: chrono::Timelike::hour(&d),
        day: chrono::Datelike::day(&d),
        month: chrono::Datelike::month(&d),
        weekday: chrono::Datelike::weekday(&d).num_days_from_sunday(),
    }
}

/// Whether there is a time zone of that name.
pub uninterp spec fn is_zone(name: Seq<char>) -> bool;

/// `chrono_tz::Tz` is read from the name of a time zone. Which names it knows
/// depends on nothing else.
#[verifier::external_body]
fn has_zone(name: &str) -> (r: bool)
    ensures
        r == is_zone(name@),
{
    name.parse::<chrono_tz::Tz>().is_ok()
}

/// What the calendar of a time zone shows at a time, given in seconds.
pub uninterp spec fn zone_calendar(secs: u64, name: Seq<char>) -> Calendar;

/// `chrono::DateTime::with_timezone` takes a time to a zone of `chrono_tz`, where
/// the calendar is read. What it shows depends on the time and the zone alone.
#[verifier::external_body]
fn read_zone(secs: u64, name: &str) -> (r: Calendar)
    requires
        secs <= last_second(),
        is_zone(name@),
    ensures
        r == zone_calendar(secs, name@),
{
    let zone = name.parse::<chrono_tz::Tz>().unwrap_or_default();
    let d = chrono::DateTime::from_timestamp(secs as i64, 0).unwrap_or_default();
    let d = d.with_timezone(&zone);
    Calendar {
        minute: chrono::Timelike::minute(&d),
        hour: chrono::Timelike::hour(&d),
        day: chrono::Datelike::day(&d),
        month: chrono::Datelike::month(&d),
        weekday: chrono::Datelike::weekday(&d).num_days_from_sunday(),
    }
}

/// What the calendar of a schedule shows: that of its zone, or of UTC where it
/// names none that there is.
pub open spec fn calendar_of(secs: u64, zone: Option<Seq<char>>) -> Calendar {
    match zone {
        Some(z) => if is_zone(trim(z)) {
            zone_calendar(secs, trim(z))
        } else {
            utc_calendar(secs)
        },
        None => utc_calendar(secs),
    }
}

/// Whether an expression holds what a calendar shows.
pub open spec fn holds_at(expr: Seq<char>, c: Calendar) -> bool {
    cron_holds(
        expr,
        c.minute as int,
        c.hour as int,
        c.day as int,
        c.month as int,
        c.weekday as int,
    )
}

/// Whether an expression is due at a time; never past the end of the calendar.
pub open spec fn cron_due(expr: Seq<char>, zone: Option<Seq<char>>, secs: u64) -> bool {
    secs <= last_second() && holds_at(expr, calendar_of(secs, zone))
}

/// Whether an expression holds what a calendar shows.
pub fn cron_matches_at(expr: &str, c: Calendar) -> (r: bool)
    ensures
        r == holds_at(expr@, c),
{
    cron_matches(expr, c.minute, c.hour, c.day, c.month, c.weekday)
}

/// Whether an expression is due at a time, given in seconds.
pub fn cron_due_at(expr: &str, zone: Option<&str>, secs: u64) -> (r: bool)
    ensures
        r == cron_due(expr@, opt_slice(zone), secs),
{
    if secs > 8210266876799 {
        return false;
    }
    let c: Calendar = match zone {
        Some(z) => {
            let name = trimmed(z);
            if has_zone(name.as_str()) {
                read_zone(secs, name.as_str())
            } else {
                read_utc(secs)
            }
        },
        None => read_utc(secs),
    };
    cron_matches_at(expr, c)
}

/// Whether an expression is due now.
pub fn cron_due_now(expr: &str, zone: Option<&str>) -> (r: bool)
    ensures
        exists|t: UtcTime|
            #[trigger] valid_time(t) && r == cron_due(expr@, opt_slice(zone), t.secs as u64),
{
    let t = utc_now();
    cron_due_at(expr, zone, t.secs as u64)
}

// ---------------------------------------------------------------------------
// Documents
// ---------------------------------------------------------------------------

pub open spec fn schedule_view() -> spec_fn(Schedule) -> ScheduleView {
    |s: Schedule| s@
}

pub open spec fn assignment_view() -> spec_fn(ProfileAssignment) -> AssignmentView {
    |a: ProfileAssignment| a@
}

pub open spec fn state_view() -> spec_fn(ScheduleState) -> StateView {
    |s: ScheduleState| s@
}

impl ScenarioManager {
    /// All the schedules, in the order of their ids.
    pub fn list_schedules(&self) -> (r: Vec<Schedule>)
        ensures
            r@.len() == self.schedules@.len(),
            forall|i: int| 0 <= i < r@.len() ==> (#[trigger] r@[i])@ == self.schedules@[i].1@,
    {
        let mut out: Vec<Schedule> = Vec::new();
        let mut i: usize = 0;
        while i < self.schedules.len()
            invariant
                i <= self.schedules@.len(),
                out@.len() == i,
                forall|j: int| 0 <= j < i ==> (#[trigger] out@[j])@ == self.schedules@[j].1@,
            decreases self.schedules@.len() - i,
        {
            out.push(self.schedules.value_at(i).copy());
            i = i + 1;
        }
        out
    }

    /// The schedule under an id.
    pub fn get_schedule(&self, id: &str) -> (r: Option<Schedule>)
        ensures
            match r {
                Some(s) => lookup(values_by(self.schedules@, schedule_view()), id@) == Some(s@),
                None => lookup(values_by(self.schedules@, schedule_view()), id@) is None,
            },
    {
        proof {
            lemma_values_by(self.schedules@, schedule_view(), id@, arbitrary());
        }
        match self.schedules.get(id) {
            Some(s) => Some(s.copy()),
            None => None,
        }
    }

    /// Keeps a schedule under its id.
    pub fn save_schedule(&mut self, s: &Schedule)
        ensures
            values_by(final(self).schedules@, schedule_view()) == put(
                values_by(old(self).schedules@, schedule_view()),
                s@.id,
                s@,
            ),
            final(self).store == old(self).store,
            final(self).running == old(self).running,
            final(self).sched_state == old(self).sched_state,
            final(self).ds_cursors == old(self).ds_cursors,
            final(self).assignments == old(self).assignments,
            final(self).datasets == old(self).datasets,
            final(self).ai_config == old(self).ai_config,
            final(self).ai_key == old(self).ai_key,
            old(self).well_formed() ==> final(self).well_formed(),
    {
        let c = s.copy();
        proof {
            lemma_values_by(self.schedules@, schedule_view(), s.id@, c);
        }
        self.schedules.insert(s.id.clone(), c);
    }

    /// Drops a schedule, its assignment and what the scheduler remembers of
    /// it.
    pub fn delete_schedule(&mut self, id: &str)
        ensures
            final(self).schedules@ == without(old(self).schedules@, id@),
            final(self).assignments@ == without(old(self).assignments@, id@),
            final(self).sched_state@ == without(old(self).sched_state@, id@),
            final(self).store == old(self).store,
            final(self).running == old(self).running,
            final(self).ds_cursors == old(self).ds_cursors,
            final(self).datasets == old(self).datasets,
            final(self).ai_config == old(self).ai_config,
            final(self).ai_key == old(self).ai_key,
            old(self).well_formed() ==> final(self).well_formed(),
    {
        proof {
            if self.well_formed() {
                lemma_every(self.sched_state@, state_in_order(), id@, arbitrary());
            }
        }
        let _ = self.schedules.remove(id);
        let _ = self.assignments.remove(id);
        let _ = self.sched_state.remove(id);
    }

    /// The assignment of a schedule.
    pub fn get_assignment(&self, schedule_id: &str) -> (r: Option<ProfileAssignment>)
        ensures
            match r {
                Some(a) => lookup(
                    values_by(self.assignments@, assignment_view()),
                    schedule_id@,
                ) == Some(a@),
                None => lookup(
                    values_by(self.assignments@, assignment_view()),
                    schedule_id@,
                ) is None,
            },
    {
        proof {
            lemma_values_by(self.assignments@, assignment_view(), schedule_id@, arbitrary());
        }
        match self.assignments.get(schedule_id) {
            Some(a) => Some(a.copy()),
            None => None,
        }
    }

    /// Keeps an assignment under its schedule.
    pub fn save_assignment(&mut self, a: &ProfileAssignment)
        ensures
            values_by(final(self).assignments@, assignment_view()) == put(
                values_by(old(self).assignments@, assignment_view()),
                a@.schedule_id,
                a@,
            ),
            final(self).store == old(self).store,
            final(self).running == old(self).running,
            final(self).sched_state == old(self).sched_state,
            final(self).ds_cursors == old(self).ds_cursors,
            final(self).schedules == old(self).schedules,
            final(self).datasets == old(self).datasets,
            final(self).ai_config == old(self).ai_config,
            final(self).ai_key == old(self).ai_key,
            old(self).well_formed() ==> final(self).well_formed(),
    {
        let c = a.copy();
        proof {
            lemma_values_by(self.assignments@, assignment_view(), a.schedule_id@, c);
        }
        self.assignments.insert(a.schedule_id.clone(), c);
    }
}

/// A schedule that has been deleted is gone, with its assignment and what was
/// remembered of it; the other schedules are as they were.
pub proof fn lemma_schedule_is_gone(m: ScenarioManager, id: Seq<char>, other: Seq<char>)
    requires
        m.well_formed(),
        other != id,
    ensures
        ({
            let schedules = values_by(without(m.schedules@, id), schedule_view());
            let assignments = values_by(without(m.assignments@, id), assignment_view());
            let states = values_by(without(m.sched_state@, id), state_view());
            &&& lookup(schedules, id) is None
            &&& lookup(assignments, id) is None
            &&& state_or_fresh(states, id) == StateView::fresh()
            &&& lookup(schedules, other) == lookup(
                values_by(m.schedules@, schedule_view()),
                other,
            )
            &&& lookup(assignments, other) == lookup(
                values_by(m.assignments@, assignment_view()),
                other,
            )
            &&& state_or_fresh(states, other) == state_or_fresh(
                values_by(m.sched_state@, state_view()),
                other,
            )
        }),
{
    lemma_values_without(m.schedules@, schedule_view(), id, other);
    lemma_values_without(m.assignments@, assignment_view(), id, other);
    lemma_values_without(m.sched_state@, state_view(), id, other);
}

// ---------------------------------------------------------------------------
// One schedule
// ---------------------------------------------------------------------------

/// What the clock shows where the scheduler runs, and the time in seconds.
pub struct Clock {
    pub minute_of_day: u32,
    pub today: String,
    pub epoch: u64,
}

/// Whether the scheduler may start a schedule at all.
pub open spec fn may_start(s: ScheduleView) -> bool {
    s.enabled && match s.trigger_type {
        TriggerType::Interval => s.interval_minutes is Some && s.interval_minutes->0 > 0,
        TriggerType::Cron => s.cron_expr is Some && trim(s.cron_expr->0).len() > 0,
        _ => false,
    }
}

/// The state with the count of the day started anew on a new day.
pub open spec fn on_day(st: StateView, today: Seq<char>) -> StateView {
    if st.day == today {
        st
    } else {
        StateView { day: today, runs_today: 0, ..st }
    }
}

/// Whether the time of a schedule has come: for an expression, where it holds
/// and the schedule has not run within this minute; for an interval, where it
/// has passed since the last run.
pub open spec fn time_come(s: ScheduleView, st: StateView, epoch: u64) -> bool {
    if s.trigger_type == TriggerType::Cron {
        &&& s.cron_expr is Some
        &&& cron_due(s.cron_expr->0, s.timezone, epoch)
        &&& st.last_run_epoch / 60 != epoch / 60
    } else {
        st.last_run_epoch == 0 || epoch >= st.last_run_epoch + s.interval_minutes->0 * 60
    }
}

pub open spec fn quota_left(s: ScheduleView, st: StateView) -> bool {
    match s.max_runs_per_day {
        Some(max) => st.runs_today < max,
        None => true,
    }
}

pub open spec fn cools(minutes: u64, epoch: u64) -> spec_fn((Seq<char>, u64)) -> bool {
    |e: (Seq<char>, u64)| minutes > 0 && epoch < e.1 + minutes * 60
}

/// The profiles that are cooling down.
pub open spec fn cooling(m: Seq<(Seq<char>, u64)>, minutes: u64, epoch: u64) -> Seq<Seq<char>> {
    m.filter(cools(minutes, epoch)).map_values(|e: (Seq<char>, u64)| e.0)
}

/// Neither busy nor among those.
pub open spec fn idle(running: Seq<(Seq<char>, ActiveRun)>, out: Seq<Seq<char>>) -> spec_fn(
    Seq<char>,
) -> bool {
    |p: Seq<char>| !is_busy(running, p) && !out.contains(p)
}

/// The state once the first `n` of the profiles have been used.
pub open spec fn used_by(st: StateView, ps: Seq<Seq<char>>, epoch: u64, n: int) -> StateView
    decreases n,
{
    if n <= 0 {
        st
    } else {
        let before = used_by(st, ps, epoch, n - 1);
        StateView {
            profile_last_used: put(before.profile_last_used, ps[n - 1], epoch),
            last_used_profile_id: Some(ps[n - 1]),
            ..before
        }
    }
}

/// What the beat does to the state of a schedule whose window is open, and
/// the profiles that it takes, given how often each was used.
pub open spec fn beat(
    s: ScheduleView,
    a: AssignmentView,
    st: StateView,
    today: Seq<char>,
    epoch: u64,
    running: Seq<(Seq<char>, ActiveRun)>,
    profiles: Seq<ProfileView>,
    counts: Seq<(Seq<char>, u32)>,
    draw: u64,
) -> (StateView, Seq<Seq<char>>) {
    let st1 = on_day(st, today);
    if !time_come(s, st1, epoch) || !quota_left(s, st1) {
        (st1, Seq::empty())
    } else {
        let out = cooling(st1.profile_last_used, a.cooldown_minutes, epoch);
        let available = expanded(a.profile_ids, a.group_ids, profiles).filter(idle(running, out));
        let taken = picked(
            available,
            a.rotation_mode,
            a.max_parallel,
            st1.last_used_profile_id,
            counts,
            draw,
        );
        if taken.len() == 0 {
            (st1, taken)
        } else {
            (
                used_by(
                    StateView {
                        last_run_epoch: epoch,
                        runs_today: one_more(st1.runs_today),
                        ..st1
                    },
                    taken,
                    epoch,
                    taken.len() as int,
                ),
                taken,
            )
        }
    }
}

fn cooling_profiles(m: &TextMap<u64>, minutes: u64, epoch: u64) -> (r: Vec<String>)
    ensures
        texts(r@) == cooling(m@, minutes, epoch),
{
    let ghost keep = cools(minutes, epoch);
    let mut out: Vec<String> = Vec::new();
    let mut i: usize = 0;
    proof {
        reveal(Seq::filter);
        assert(m@.take(0).filter(keep) =~= Seq::<(Seq<char>, u64)>::empty());
        assert(texts(out@) =~= m@.take(0).filter(keep).map_values(|e: (Seq<char>, u64)| e.0));
    }
    while i < m.len()
        invariant
            i <= m@.len(),
            keep == cools(minutes, epoch),
            texts(out@) =~= m@.take(i as int).filter(keep).map_values(
                |e: (Seq<char>, u64)| e.0,
            ),
        decreases m@.len() - i,
    {
        let k = m.key_at(i);
        let t: u64 = *m.value_at(i);
        proof {
            lemma_filter_push(m@.take(i as int), m@[i as int], keep);
            assert(m@.take(i as int + 1) =~= m@.take(i as int).push(m@[i as int]));
        }
        let until: u128 = t as u128 + minutes as u128 * 60;
        if minutes > 0 && (epoch as u128) < until {
            proof {
                lemma_texts_push(out@, *k);
            }
            out.push(k.clone());
        }
        i = i + 1;
    }
    assert(m@.take(m@.len() as int) =~= m@);
    out
}

fn time_has_come(s: &Schedule, st: &ScheduleState, epoch: u64) -> (r: bool)
    requires
        may_start(s@),
    ensures
        r == time_come(s@, st@, epoch),
{
    match s.trigger_type {
        TriggerType::Cron => {
            match &s.cron_expr {
                Some(e) => {
                    let zone: Option<&str> = match &s.timezone {
                        Some(z) => Some(z.as_str()),
                        None => None,
                    };
                    cron_due_at(e.as_str(), zone, epoch) && st.last_run_epoch / 60 != epoch / 60
                },
                None => false,
            }
        },
        _ => {
            if st.last_run_epoch == 0 {
                return true;
            }
            match s.interval_minutes {
                Some(m) => {
                    let due: u128 = st.last_run_epoch as u128 + m as u128 * 60;
                    epoch as u128 >= due
                },
                None => false,
            }
        },
    }
}

impl ScheduleState {
    fn use_profiles(&mut self, ps: &Vec<String>, epoch: u64)
        ensures
            final(self)@ == used_by(
                old(self)@,
                texts(ps@),
                epoch,
                texts(ps@).len() as int,
            ),
            sorted(old(self).profile_last_used@) ==> sorted(final(self).profile_last_used@),
    {
        let ghost all = texts(ps@);
        let mut i: usize = 0;
        while i < ps.len()
            invariant
                i <= ps@.len(),
                all == texts(ps@),
                self@ == used_by(old(self)@, all, epoch, i as int),
                sorted(old(self).profile_last_used@) ==> sorted(self.profile_last_used@),
            decreases ps@.len() - i,
        {
            assert(all[i as int] == ps@[i as int]@);
            self.profile_last_used.insert(ps[i].clone(), epoch);
            self.last_used_profile_id = Some(ps[i].clone());
            i = i + 1;
        }
    }
}

impl ScenarioManager {
    fn free_profiles(&self, a: &ProfileAssignment, out: &Vec<String>, profiles: &Vec<ProfileEntry>) -> (r:
        Vec<String>)
        ensures
            texts(r@) == expanded(
                a@.profile_ids,
                a@.group_ids,
                profile_views(profiles@),
            ).filter(idle(self.running@, texts(out@))),
    {
        let busy = self.busy_profiles();
        let candidates = expand_profiles(&a.profile_ids, &a.group_ids, profiles);
        assert(free(texts(busy@), texts(out@)) =~= idle(self.running@, texts(out@)));
        filter_available(&candidates, &busy, out)
    }

    /// What the beat does to the state of a schedule whose window is open.
    fn beat_state(
        &self,
        s: &Schedule,
        a: &ProfileAssignment,
        state: ScheduleState,
        clock: &Clock,
        profiles: &Vec<ProfileEntry>,
        counts: &TextMap<u32>,
        draw: u64,
    ) -> (r: (ScheduleState, Vec<String>))
        requires
            may_start(s@),
        ensures
            (r.0@, texts(r.1@)) == beat(
                s@,
                a@,
                state@,
                clock.today@,
                clock.epoch,
                self.running@,
                profile_views(profiles@),
                counts@,
                draw,
            ),
            sorted(state.profile_last_used@) ==> sorted(r.0.profile_last_used@),
    {
        let mut st = state;
        let none: Vec<String> = Vec::new();
        assert(texts(none@) =~= Seq::<Seq<char>>::empty());
        if !same(st.day.as_str(), clock.today.as_str()) {
            st.day = clock.today.clone();
            st.runs_today = 0;
        }
        if !time_has_come(s, &st, clock.epoch) {
            return (st, none);
        }
        match s.max_runs_per_day {
            Some(max) => {
                if st.runs_today >= max {
                    return (st, none);
                }
            },
            None => {},
        }
        let out = cooling_profiles(&st.profile_last_used, a.cooldown_minutes, clock.epoch);
        let available = self.free_profiles(a, &out, profiles);
        let turn = a.with_last_used(&st.last_used_profile_id);
        let taken = pick_profiles_with(&available, &turn, counts, draw);
        assert(texts(taken@).len() == taken@.len());
        if taken.len() == 0 {
            return (st, taken);
        }
        st.last_run_epoch = clock.epoch;
        if st.runs_today < u32::MAX {
            st.runs_today = st.runs_today + 1;
        }
        st.use_profiles(&taken, clock.epoch);
        (st, taken)
    }
}

// ---------------------------------------------------------------------------
// All schedules
// ---------------------------------------------------------------------------

/// What is to be started: the scenarios, on each of the profiles.
#[derive(Debug, PartialEq, Eq)]
pub struct Launch {
    pub schedule_id: String,
    pub profiles: Vec<String>,
    pub scenarios: Vec<Scenario>,
    pub headless: bool,
}

pub struct LaunchView {
    pub schedule_id: Seq<char>,
    pub profiles: Seq<Seq<char>>,
    pub scenarios: Seq<ScenarioView>,
    pub headless: bool,
}

pub open spec fn scenarios_of(v: Seq<Scenario>) -> Seq<ScenarioView> {
    v.map_values(|s: Scenario| s@)
}

impl Launch {
    pub open spec fn view(&self) -> LaunchView {
        LaunchView {
            schedule_id: self.schedule_id@,
            profiles: texts(self.profiles@),
            scenarios: scenarios_of(self.scenarios@),
            headless: self.headless,
        }
    }
}

pub open spec fn launches(v: Seq<Launch>) -> Seq<LaunchView> {
    v.map_values(|l: Launch| l@)
}

/// The scenarios that are there among the first `n` ids.
pub open spec fn found(
    m: Seq<(Seq<char>, ScenarioView)>,
    ids: Seq<Seq<char>>,
    n: int,
) -> Seq<ScenarioView>
    decreases n,
{
    if n <= 0 {
        Seq::empty()
    } else {
        let before = found(m, ids, n - 1);
        match lookup(m, ids[n - 1]) {
            Some(s) => before.push(s),
            None => before,
        }
    }
}

/// The scenarios of a schedule that are there.
pub open spec fn scenarios_for(m: Seq<(Seq<char>, ScenarioView)>, s: ScheduleView) -> Seq<
    ScenarioView,
> {
    let ids = scenario_list(s.scenario_ids, s.scenario_id);
    found(m, ids, ids.len() as int)
}

/// What does not change during a beat. The counts say how often each profile
/// was used of late.
pub struct Scene {
    pub minute_of_day: u32,
    pub today: Seq<char>,
    pub epoch: u64,
    pub running: Seq<(Seq<char>, ActiveRun)>,
    pub profiles: Seq<ProfileView>,
    pub scenarios: Seq<(Seq<char>, ScenarioView)>,
    pub assignments: Seq<(Seq<char>, AssignmentView)>,
    pub counts: Seq<(Seq<char>, u32)>,
}

pub open spec fn state_or_fresh(m: Seq<(Seq<char>, StateView)>, id: Seq<char>) -> StateView {
    match lookup(m, id) {
        Some(s) => s,
        None => StateView::fresh(),
    }
}

/// What one schedule does to the states and the launches.
pub open spec fn turn(
    s: ScheduleView,
    sc: Scene,
    states: Seq<(Seq<char>, StateView)>,
    started: Seq<LaunchView>,
    draw: u64,
) -> (Seq<(Seq<char>, StateView)>, Seq<LaunchView>) {
    let a = lookup(sc.assignments, s.id);
    if !may_start(s) || !in_window(sc.minute_of_day, s.time_window_start, s.time_window_end)
        || a is None {
        (states, started)
    } else {
        let (st, taken) = beat(
            s,
            a->0,
            state_or_fresh(states, s.id),
            sc.today,
            sc.epoch,
            sc.running,
            sc.profiles,
            sc.counts,
            draw,
        );
        let run = scenarios_for(sc.scenarios, s);
        (
            put(states, s.id, st),
            if taken.len() == 0 || run.len() == 0 {
                started
            } else {
                started.push(
                    LaunchView {
                        schedule_id: s.id,
                        profiles: taken,
                        scenarios: run,
                        headless: a->0.run_headless,
                    },
                )
            },
        )
    }
}

pub open spec fn draw_at(draws: Seq<u64>, i: int) -> u64 {
    if 0 <= i < draws.len() {
        draws[i]
    } else {
        0
    }
}

/// What the first `n` schedules do, one after the other.
pub open spec fn turns(
    ss: Seq<(Seq<char>, ScheduleView)>,
    sc: Scene,
    states: Seq<(Seq<char>, StateView)>,
    draws: Seq<u64>,
    n: int,
) -> (Seq<(Seq<char>, StateView)>, Seq<LaunchView>)
    decreases n,
{
    if n <= 0 {
        (states, Seq::empty())
    } else {
        let (st, started) = turns(ss, sc, states, draws, n - 1);
        turn(ss[n - 1].1, sc, st, started, draw_at(draws, n - 1))
    }
}

impl ScenarioManager {
    pub open spec fn scene(
        &self,
        clock: Clock,
        profiles: Seq<ProfileEntry>,
        counts: Seq<(Seq<char>, u32)>,
    ) -> Scene {
        Scene {
            minute_of_day: clock.minute_of_day,
            today: clock.today@,
            epoch: clock.epoch,
            running: self.running@,
            profiles: profile_views(profiles),
            scenarios: self.store@.scenarios,
            assignments: values_by(self.assignments@, assignment_view()),
            counts,
        }
    }

    fn scenarios_there(&self, s: &Schedule) -> (r: Vec<Scenario>)
        ensures
            scenarios_of(r@) == scenarios_for(self.store@.scenarios, s@),
    {
        let ids = effective_scenario_ids(s);
        let ghost all = texts(ids@);
        let mut out: Vec<Scenario> = Vec::new();
        let mut i: usize = 0;
        assert(scenarios_of(out@) =~= Seq::<ScenarioView>::empty());
        while i < ids.len()
            invariant
                i <= ids@.len(),
                all == texts(ids@),
                scenarios_of(out@) == found(self.store@.scenarios, all, i as int),
            decreases ids@.len() - i,
        {
            assert(all[i as int] == ids@[i as int]@);
            match self.store.load_scenario(ids[i].as_str()) {
                Some(x) => {
                    let ghost before = scenarios_of(out@);
                    out.push(x);
                    assert(scenarios_of(out@) =~= before.push(x@));
                },
                None => {},
            }
            i = i + 1;
        }
        out
    }

    fn window_open(s: &Schedule, minute: u32) -> (r: bool)
        ensures
            r == in_window(minute, s@.time_window_start, s@.time_window_end),
    {
        let start: Option<&str> = match &s.time_window_start {
            Some(t) => Some(t.as_str()),
            None => None,
        };
        let end: Option<&str> = match &s.time_window_end {
            Some(t) => Some(t.as_str()),
            None => None,
        };
        is_in_time_window(minute, start, end)
    }

    fn starts_itself(s: &Schedule) -> (r: bool)
        ensures
            r == may_start(s@),
    {
        if !s.enabled {
            return false;
        }
        match s.trigger_type {
            TriggerType::Interval => match s.interval_minutes {
                Some(m) => m > 0,
                None => false,
            },
            TriggerType::Cron => match &s.cron_expr {
                Some(e) => !trimmed(e.as_str()).as_str().is_empty(),
                None => false,
            },
            _ => false,
        }
    }

    fn copy_state(&self, id: &str) -> (r: ScheduleState)
        ensures
            r@ == state_or_fresh(values_by(self.sched_state@, state_view()), id@),
            every(self.sched_state@, state_in_order()) ==> sorted(r.profile_last_used@),
    {
        proof {
            lemma_values_by(self.sched_state@, state_view(), id@, arbitrary());
            if every(self.sched_state@, state_in_order()) {
                lemma_every(self.sched_state@, state_in_order(), id@, arbitrary());
            }
        }
        match self.sched_state.get(id) {
            Some(s) => {
                let mut used: TextMap<u64> = TextMap::new();
                let mut i: usize = 0;
                while i < s.profile_last_used.len()
                    invariant
                        i <= s.profile_last_used@.len(),
                        used@ =~= s.profile_last_used@.take(i as int),
                    decreases s.profile_last_used@.len() - i,
                {
                    let ghost before = used@;
                    let k = s.profile_last_used.key_at(i).clone();
                    let v: u64 = *s.profile_last_used.value_at(i);
                    used.entries.push((k, v));
                    assert(used@ =~= before.push((k@, v)));
                    i = i + 1;
                }
                assert(used@ =~= s.profile_last_used@);
                ScheduleState {
                    last_run_epoch: s.last_run_epoch,
                    day: s.day.clone(),
                    runs_today: s.runs_today,
                    last_used_profile_id: copy_opt(&s.last_used_profile_id),
                    profile_last_used: used,
                }
            },
            None => ScheduleState::default(),
        }
    }

    /// One beat of the scheduler, given how often each profile was used and the
    /// random numbers that decide where chance does: brings what it remembers
    /// up to date, and says what is to be started.
    pub fn scheduler_tick_with(
        &mut self,
        clock: &Clock,
        profiles: &Vec<ProfileEntry>,
        counts: &TextMap<u32>,
        draws: &Vec<u64>,
    ) -> (r: Vec<Launch>)
        ensures
            (values_by(final(self).sched_state@, state_view()), launches(r@)) == turns(
                values_by(old(self).schedules@, schedule_view()),
                old(self).scene(*clock, profiles@, counts@),
                values_by(old(self).sched_state@, state_view()),
                draws@,
                old(self).schedules@.len() as int,
            ),
            final(self).store == old(self).store,
            final(self).running == old(self).running,
            final(self).ds_cursors == old(self).ds_cursors,
            rest_same(*final(self), *old(self)),
            old(self).well_formed() ==> final(self).well_formed(),
    {
        let ghost ss = values_by(self.schedules@, schedule_view());
        let ghost sc = self.scene(*clock, profiles@, counts@);
        let ghost first = values_by(self.sched_state@, state_view());
        let mut out: Vec<Launch> = Vec::new();
        let mut i: usize = 0;
        assert(launches(out@) =~= Seq::<LaunchView>::empty());
        while i < self.schedules.len()
            invariant
                i <= self.schedules@.len(),
                self.schedules == old(self).schedules,
                self.store == old(self).store,
                self.running == old(self).running,
                self.ds_cursors == old(self).ds_cursors,
                rest_same(*self, *old(self)),
                old(self).well_formed() ==> self.well_formed(),
                ss == values_by(self.schedules@, schedule_view()),
                sc == self.scene(*clock, profiles@, counts@),
                turns(ss, sc, first, draws@, i as int) == (
                    values_by(self.sched_state@, state_view()),
                    launches(out@),
                ),
            decreases self.schedules@.len() - i,
        {
            let s = self.schedules.value_at(i).copy();
            assert(ss[i as int].1 == s@);
            let d: u64 = if i < draws.len() {
                draws[i]
            } else {
                0
            };
            let a = self.get_assignment(s.id.as_str());
            if ScenarioManager::starts_itself(&s) && ScenarioManager::window_open(
                &s,
                clock.minute_of_day,
            ) {
                match a {
                    Some(asg) => {
                        let state = self.copy_state(s.id.as_str());
                        let (st, taken) = self.beat_state(&s, &asg, state, clock, profiles, counts, d);
                        proof {
                            lemma_values_by(self.sched_state@, state_view(), s.id@, st);
                            if self.well_formed() {
                                lemma_every(self.sched_state@, state_in_order(), s.id@, st);
                            }
                        }
                        self.sched_state.insert(s.id.clone(), st);
                        let run = self.scenarios_there(&s);
                        assert(scenarios_of(run@).len() == run@.len());
                        assert(texts(taken@).len() == taken@.len());
                        if taken.len() > 0 && run.len() > 0 {
                            let l = Launch {
                                schedule_id: s.id.clone(),
                                profiles: taken,
                                scenarios: run,
                                headless: asg.run_headless,
                            };
                            let ghost before = launches(out@);
                            out.push(l);
                            assert(launches(out@) =~= before.push(l@));
                        }
                    },
                    None => {},
                }
            }
            i = i + 1;
        }
        out
    }

    /// One beat of the scheduler. How often a profile was used is the number of
    /// its runs within the last 24 hours.
    pub fn scheduler_tick(&mut self, clock: &Clock, profiles: &Vec<ProfileEntry>) -> (r: Vec<Launch>)
        ensures
            exists|draws: Seq<u64>|
                (values_by(final(self).sched_state@, state_view()), launches(r@)) == #[trigger]
                turns(
                    values_by(old(self).schedules@, schedule_view()),
                    old(self).scene(
                        *clock,
                        profiles@,
                        usage_in(old(self).store@.runs, clock.epoch),
                    ),
                    values_by(old(self).sched_state@, state_view()),
                    draws,
                    old(self).schedules@.len() as int,
                ),
            final(self).store == old(self).store,
            final(self).running == old(self).running,
            final(self).ds_cursors == old(self).ds_cursors,
            rest_same(*final(self), *old(self)),
            old(self).well_formed() ==> final(self).well_formed(),
    {
        let draws = draw(self.schedules.len());
        let counts = self.store.recent_usage(clock.epoch);
        self.scheduler_tick_with(clock, profiles, &counts, &draws)
    }
}

// ---------------------------------------------------------------------------
// Running a schedule at once
// ---------------------------------------------------------------------------

/// What running a schedule at once comes to: what is to be started, or why
/// nothing is, and the states then. Only busy profiles are left out.
pub open spec fn run_now(
    id: Seq<char>,
    s: Option<ScheduleView>,
    sc: Scene,
    states: Seq<(Seq<char>, StateView)>,
    draw: u64,
) -> (Result<LaunchView, Seq<char>>, Seq<(Seq<char>, StateView)>) {
    match s {
        None => (Err("Schedule not found: "@ + id), states),
        Some(s) => match lookup(sc.assignments, s.id) {
            None => (Err("No profiles assigned to this schedule"@), states),
            Some(a) => {
                let st = state_or_fresh(states, s.id);
                let available = expanded(a.profile_ids, a.group_ids, sc.profiles).filter(
                    idle(sc.running, Seq::empty()),
                );
                let taken = picked(
                    available,
                    a.rotation_mode,
                    a.max_parallel,
                    st.last_used_profile_id,
                    sc.counts,
                    draw,
                );
                let after = put(states, s.id, used_by(st, taken, sc.epoch, taken.len() as int));
                let run = scenarios_for(sc.scenarios, s);
                if taken.len() == 0 {
                    (Err("No available profile (all assigned profiles are busy)"@), after)
                } else if run.len() == 0 {
                    (Err("Schedule has no valid scenarios"@), after)
                } else {
                    (
                        Ok(
                            LaunchView {
                                schedule_id: s.id,
                                profiles: taken,
                                scenarios: run,
                                headless: a.run_headless,
                            },
                        ),
                        after,
                    )
                }
            },
        },
    }
}

pub open spec fn launch_result(r: Result<Launch, String>) -> Result<LaunchView, Seq<char>> {
    match r {
        Ok(l) => Ok(l@),
        Err(e) => Err(e@),
    }
}

impl ScenarioManager {
    /// Starts a schedule at once, given how often each profile was used and the
    /// random number that decides where chance does.
    pub fn run_schedule_now_with(
        &mut self,
        schedule_id: &str,
        clock: &Clock,
        profiles: &Vec<ProfileEntry>,
        counts: &TextMap<u32>,
        draw: u64,
    ) -> (r: Result<Launch, String>)
        ensures
            (launch_result(r), values_by(final(self).sched_state@, state_view())) == run_now(
                schedule_id@,
                lookup(values_by(old(self).schedules@, schedule_view()), schedule_id@),
                old(self).scene(*clock, profiles@, counts@),
                values_by(old(self).sched_state@, state_view()),
                draw,
            ),
            final(self).store == old(self).store,
            final(self).running == old(self).running,
            final(self).ds_cursors == old(self).ds_cursors,
            rest_same(*final(self), *old(self)),
            old(self).well_formed() ==> final(self).well_formed(),
    {
        let s = match self.get_schedule(schedule_id) {
            Some(s) => s,
            None => {
                return Err(join2("Schedule not found: ", schedule_id));
            },
        };
        let a = match self.get_assignment(s.id.as_str()) {
            Some(a) => a,
            None => {
                return Err("No profiles assigned to this schedule".to_owned());
            },
        };
        let nobody: Vec<String> = Vec::new();
        assert(texts(nobody@) =~= Seq::<Seq<char>>::empty());
        let available = self.free_profiles(&a, &nobody, profiles);
        let mut st = self.copy_state(s.id.as_str());
        let turn = a.with_last_used(&st.last_used_profile_id);
        let taken = pick_profiles_with(&available, &turn, counts, draw);
        st.use_profiles(&taken, clock.epoch);
        proof {
            lemma_values_by(self.sched_state@, state_view(), s.id@, st);
            if self.well_formed() {
                lemma_every(self.sched_state@, state_in_order(), s.id@, st);
            }
        }
        self.sched_state.insert(s.id.clone(), st);
        assert(texts(taken@).len() == taken@.len());
        if taken.len() == 0 {
            return Err("No available profile (all assigned profiles are busy)".to_owned());
        }
        let run = self.scenarios_there(&s);
        assert(scenarios_of(run@).len() == run@.len());
        if run.len() == 0 {
            return Err("Schedule has no valid scenarios".to_owned());
        }
        Ok(
            Launch {
                schedule_id: s.id,
                profiles: taken,
                scenarios: run,
                headless: a.run_headless,
            },
        )
    }

    /// Starts a schedule at once.
    pub fn run_schedule_now(
        &mut self,
        schedule_id: &str,
        clock: &Clock,
        profiles: &Vec<ProfileEntry>,
    ) -> (r: Result<Launch, String>)
        ensures
            exists|draw: u64|
                (launch_result(r), values_by(final(self).sched_state@, state_view()))
                    == #[trigger] run_now(
                    schedule_id@,
                    lookup(values_by(old(self).schedules@, schedule_view()), schedule_id@),
                    old(self).scene(
                        *clock,
                        profiles@,
                        usage_in(old(self).store@.runs, clock.epoch),
                    ),
                    values_by(old(self).sched_state@, state_view()),
                    draw,
                ),
            final(self).store == old(self).store,
            final(self).running == old(self).running,
            final(self).ds_cursors == old(self).ds_cursors,
            rest_same(*final(self), *old(self)),
            old(self).well_formed() ==> final(self).well_formed(),
    {
        let d: u64 = random_u64();
        let counts = self.store.recent_usage(clock.epoch);
        self.run_schedule_now_with(schedule_id, clock, profiles, &counts, d)
    }
}

/// What to do with a profile that a launch names.
#[derive(Debug, PartialEq, Eq)]
pub enum ProfileStart {
    /// It runs already, and stays open afterwards.
    Running,
    /// It is to be launched, and closed afterwards.
    Launch,
    NotFound,
    /// Its engine cannot be automated.
    Unsupported { browser: String },
}

pub enum ProfileStartView {
    Running,
    Launch,
    NotFound,
    Unsupported { browser: Seq<char> },
}

impl ProfileStart {
    pub open spec fn view(&self) -> ProfileStartView {
        match self {
            ProfileStart::Running => ProfileStartView::Running,
            ProfileStart::Launch => ProfileStartView::Launch,
            ProfileStart::NotFound => ProfileStartView::NotFound,
            ProfileStart::Unsupported { browser } => ProfileStartView::Unsupported {
                browser: browser@,
            },
        }
    }
}

pub open spec fn start_of(v: Seq<ProfileView>, id: Seq<char>) -> ProfileStartView {
    if runs(v, id) {
        ProfileStartView::Running
    } else {
        match profile_named(v, id) {
            None => ProfileStartView::NotFound,
            Some(p) => if p.browser != "wayfern"@ && p.browser != "camoufox"@ && p.browser
                != "cloak"@ {
                ProfileStartView::Unsupported { browser: p.browser }
            } else {
                ProfileStartView::Launch
            },
        }
    }
}

/// What to do with a profile that a launch names.
pub fn plan_profile_start(v: &Vec<ProfileEntry>, id: &str) -> (r: ProfileStart)
    ensures
        r@ == start_of(profile_views(v@), id@),
{
    if profile_is_running(v, id) {
        return ProfileStart::Running;
    }
    match find_profile(v, id) {
        None => ProfileStart::NotFound,
        Some(p) => {
            let b = p.browser.as_str();
            if !same(b, "wayfern") && !same(b, "camoufox") && !same(b, "cloak") {
                ProfileStart::Unsupported { browser: p.browser.clone() }
            } else {
                ProfileStart::Launch
            }
        },
    }
}

// ---------------------------------------------------------------------------
// Laws
// ---------------------------------------------------------------------------

/// A beat never takes a profile that is busy or cooling down, nor one that is
/// not assigned.
pub proof fn lemma_beat_takes_free(
    s: ScheduleView,
    a: AssignmentView,
    st: StateView,
    today: Seq<char>,
    epoch: u64,
    running: Seq<(Seq<char>, ActiveRun)>,
    profiles: Seq<ProfileView>,
    counts: Seq<(Seq<char>, u32)>,
    draw: u64,
    p: Seq<char>,
)
    requires
        beat(s, a, st, today, epoch, running, profiles, counts, draw).1.contains(p),
    ensures
        !is_busy(running, p),
        !cooling(st.profile_last_used, a.cooldown_minutes, epoch).contains(p),
        expanded(a.profile_ids, a.group_ids, profiles).contains(p),
{
    let st1 = on_day(st, today);
    let out = cooling(st1.profile_last_used, a.cooldown_minutes, epoch);
    let all = expanded(a.profile_ids, a.group_ids, profiles);
    let available = all.filter(idle(running, out));
    crate::scheduler::lemma_picked(
        available,
        a.rotation_mode,
        a.max_parallel,
        st1.last_used_profile_id,
        counts,
        draw,
    );
    assert(available.contains(p));
    lemma_filter_elem(all, idle(running, out), p);
}

/// A beat that takes a profile counts one run of the day, within the limit.
pub proof fn lemma_beat_within_quota(
    s: ScheduleView,
    a: AssignmentView,
    st: StateView,
    today: Seq<char>,
    epoch: u64,
    running: Seq<(Seq<char>, ActiveRun)>,
    profiles: Seq<ProfileView>,
    counts: Seq<(Seq<char>, u32)>,
    draw: u64,
)
    requires
        s.max_runs_per_day is Some,
        on_day(st, today).runs_today <= s.max_runs_per_day->0,
    ensures
        ({
            let (after, taken) = beat(s, a, st, today, epoch, running, profiles, counts, draw);
            &&& after.runs_today <= s.max_runs_per_day->0
            &&& taken.len() > 0 ==> after.runs_today == on_day(st, today).runs_today + 1
            &&& taken.len() == 0 ==> after.runs_today == on_day(st, today).runs_today
            &&& after.day == today
        }),
{
    let st1 = on_day(st, today);
    let (after, taken) = beat(s, a, st, today, epoch, running, profiles, counts, draw);
    let st2 = StateView { last_run_epoch: epoch, runs_today: one_more(st1.runs_today), ..st1 };
    lemma_used_by(st2, taken, epoch, taken.len() as int);
}

proof fn lemma_used_by(st: StateView, ps: Seq<Seq<char>>, epoch: u64, n: int)
    ensures
        used_by(st, ps, epoch, n).runs_today == st.runs_today,
        used_by(st, ps, epoch, n).day == st.day,
        used_by(st, ps, epoch, n).last_run_epoch == st.last_run_epoch,
    decreases n,
{
    if n > 0 {
        lemma_used_by(st, ps, epoch, n - 1);
    }
}

/// A schedule by expression that has just run does not run again within the
/// same minute; one by interval, not before the interval has passed.
pub proof fn lemma_beat_not_twice(
    s: ScheduleView,
    a: AssignmentView,
    st: StateView,
    today: Seq<char>,
    epoch: u64,
    later: u64,
    running: Seq<(Seq<char>, ActiveRun)>,
    profiles: Seq<ProfileView>,
    counts: Seq<(Seq<char>, u32)>,
    draw: u64,
    again: u64,
)
    requires
        may_start(s),
        beat(s, a, st, today, epoch, running, profiles, counts, draw).1.len() > 0,
        epoch > 0,
        if s.trigger_type == TriggerType::Cron {
            later / 60 == epoch / 60
        } else {
            later < epoch + s.interval_minutes->0 * 60
        },
    ensures
        beat(
            s,
            a,
            beat(s, a, st, today, epoch, running, profiles, counts, draw).0,
            today,
            later,
            running,
            profiles,
            counts,
            again,
        ).1.len() == 0,
{
    let st1 = on_day(st, today);
    let (after, taken) = beat(s, a, st, today, epoch, running, profiles, counts, draw);
    let st2 = StateView { last_run_epoch: epoch, runs_today: one_more(st1.runs_today), ..st1 };
    lemma_used_by(st2, taken, epoch, taken.len() as int);
    assert(after.last_run_epoch == epoch);
    assert(!time_come(s, on_day(after, today), later));
}

/// Where the rotation goes by use, the profile that a beat takes has no more
/// runs within the last 24 hours than any other that is free.
pub proof fn lemma_beat_takes_least_used(
    s: ScheduleView,
    a: AssignmentView,
    st: StateView,
    today: Seq<char>,
    epoch: u64,
    running: Seq<(Seq<char>, ActiveRun)>,
    profiles: Seq<ProfileView>,
    history: Seq<(Seq<char>, RunRowView)>,
    draw: u64,
    p: Seq<char>,
    q: Seq<char>,
)
    requires
        a.rotation_mode == RotationMode::LeastUsed,
        history.len() <= u32::MAX,
        beat(s, a, st, today, epoch, running, profiles, usage_in(history, epoch), draw).1.contains(
            p,
        ),
        expanded(a.profile_ids, a.group_ids, profiles).contains(q),
        !is_busy(running, q),
        !cooling(st.profile_last_used, a.cooldown_minutes, epoch).contains(q),
    ensures
        recent_runs(run_starts(history), p, epoch, history.len() as int) <= recent_runs(
            run_starts(history),
            q,
            epoch,
            history.len() as int,
        ),
{
    let counts = usage_in(history, epoch);
    let st1 = on_day(st, today);
    let out = cooling(st1.profile_last_used, a.cooldown_minutes, epoch);
    let all = expanded(a.profile_ids, a.group_ids, profiles);
    let available = all.filter(idle(running, out));
    let n = available.len() as int;
    let best = least_used(available, counts, n);
    lemma_filter_elem(all, idle(running, out), q);
    assert(available.contains(q));
    crate::scheduler::lemma_least_used(available, counts, n);
    let j = choose|j: int| 0 <= j < n && available[j] == q;
    assert(p == available[best]);
    assert(used(counts, available[best]) <= used(counts, available[j]));
    let v = run_starts(history);
    lemma_usage_counts(v, p, epoch, history.len() as int);
    lemma_usage_counts(v, q, epoch, history.len() as int);
    lemma_recent_bound(v, p, epoch, history.len() as int);
    lemma_recent_bound(v, q, epoch, history.len() as int);
}

proof fn lemma_recent_bound(v: Seq<StartView>, p: Seq<char>, epoch: u64, n: int)
    requires
        0 <= n,
    ensures
        recent_runs(v, p, epoch, n) <= n,
    decreases n,
{
    if n > 0 {
        lemma_recent_bound(v, p, epoch, n - 1);
    }
}

/// A profile cools down from when it was used until as many minutes have passed
/// as the assignment says.
pub proof fn lemma_cooling(m: Seq<(Seq<char>, u64)>, minutes: u64, epoch: u64, p: Seq<char>)
    requires
        sorted(m),
    ensures
        cooling(m, minutes, epoch).contains(p) <==> lookup(m, p) is Some && minutes > 0 && epoch
            < lookup(m, p)->0 + 60 * minutes,
{
    let keep = cools(minutes, epoch);
    let kept = m.filter(keep);
    let names = cooling(m, minutes, epoch);
    if names.contains(p) {
        let i = choose|i: int| 0 <= i < names.len() && names[i] == p;
        assert(kept.contains(kept[i]));
        lemma_filter_elem(m, keep, kept[i]);
        lemma_lookup_entries(m, p, kept[i].1);
    }
    if lookup(m, p) is Some && keep((p, lookup(m, p)->0)) {
        let e = (p, lookup(m, p)->0);
        lemma_lookup_entries(m, p, e.1);
        let i = choose|i: int| 0 <= i < m.len() && m[i] == e;
        assert(kept.contains(m[i]));
        let k = choose|k: int| 0 <= k < kept.len() && kept[k] == e;
        assert(names[k] == p);
    }
}

/// What a beat finds in a schedule that it may start: a free profile, room under
/// the limit of the day, and the time. By interval, the time has come where the
/// schedule never ran or as many minutes have passed as it says; by expression,
/// where it holds what the calendar shows and the schedule has not run in this
/// minute. Then the beat takes a profile; otherwise none.
pub proof fn lemma_beat_starts(
    s: ScheduleView,
    a: AssignmentView,
    st: StateView,
    today: Seq<char>,
    epoch: u64,
    running: Seq<(Seq<char>, ActiveRun)>,
    profiles: Seq<ProfileView>,
    counts: Seq<(Seq<char>, u32)>,
    draw: u64,
)
    requires
        may_start(s),
    ensures
        ({
            let taken = beat(s, a, st, today, epoch, running, profiles, counts, draw).1;
            let done_today = if st.day == today {
                st.runs_today
            } else {
                0
            };
            let due = if s.trigger_type == TriggerType::Interval {
                st.last_run_epoch == 0 || st.last_run_epoch + 60 * s.interval_minutes->0 <= epoch
            } else {
                epoch <= last_second() && holds_at(
                    s.cron_expr->0,
                    calendar_of(epoch, s.timezone),
                ) && st.last_run_epoch / 60 != epoch / 60
            };
            let some_free = exists|p: Seq<char>| #[trigger]
                expanded(a.profile_ids, a.group_ids, profiles).contains(p) && !is_busy(running, p)
                    && !cooling(st.profile_last_used, a.cooldown_minutes, epoch).contains(p);
            taken.len() > 0 <==> due && (s.max_runs_per_day is Some ==> done_today
                < s.max_runs_per_day->0) && some_free
        }),
{
    let st1 = on_day(st, today);
    let out = cooling(st1.profile_last_used, a.cooldown_minutes, epoch);
    let all = expanded(a.profile_ids, a.group_ids, profiles);
    let available = all.filter(idle(running, out));
    crate::scheduler::lemma_picked(
        available,
        a.rotation_mode,
        a.max_parallel,
        st1.last_used_profile_id,
        counts,
        draw,
    );
    if available.len() > 0 {
        let p = available[0];
        assert(available.contains(p));
        lemma_filter_elem(all, idle(running, out), p);
        assert(all.contains(p) && !is_busy(running, p) && !out.contains(p));
    }
    if exists|p: Seq<char>| #[trigger] all.contains(p) && !is_busy(running, p) && !out.contains(p) {
        let p = choose|p: Seq<char>| #[trigger]
            all.contains(p) && !is_busy(running, p) && !out.contains(p);
        let i = choose|i: int| 0 <= i < all.len() && all[i] == p;
        assert(idle(running, out)(all[i]));
        assert(available.contains(all[i]));
    }
}

/// A beat that takes profiles notes when it did, and of each of them that it was
/// used then; the last of them is the one that was used last. Of other profiles
/// it keeps what was noted.
pub proof fn lemma_beat_notes(
    s: ScheduleView,
    a: AssignmentView,
    st: StateView,
    today: Seq<char>,
    epoch: u64,
    running: Seq<(Seq<char>, ActiveRun)>,
    profiles: Seq<ProfileView>,
    counts: Seq<(Seq<char>, u32)>,
    draw: u64,
    p: Seq<char>,
)
    ensures
        ({
            let (after, taken) = beat(s, a, st, today, epoch, running, profiles, counts, draw);
            &&& taken.contains(p) ==> lookup(after.profile_last_used, p) == Some(epoch)
            &&& !taken.contains(p) ==> lookup(after.profile_last_used, p) == lookup(
                st.profile_last_used,
                p,
            )
            &&& taken.len() > 0 ==> after.last_run_epoch == epoch && after.last_used_profile_id
                == Some(taken.last())
            &&& taken.len() == 0 ==> after.last_run_epoch == st.last_run_epoch
                && after.last_used_profile_id == st.last_used_profile_id
        }),
{
    let st1 = on_day(st, today);
    let (after, taken) = beat(s, a, st, today, epoch, running, profiles, counts, draw);
    let st2 = StateView { last_run_epoch: epoch, runs_today: one_more(st1.runs_today), ..st1 };
    lemma_used_by(st2, taken, epoch, taken.len() as int);
    lemma_used_at(st2, taken, epoch, taken.len() as int, p);
    assert(taken.take(taken.len() as int) =~= taken);
}

proof fn lemma_used_at(st: StateView, ps: Seq<Seq<char>>, epoch: u64, n: int, p: Seq<char>)
    requires
        0 <= n <= ps.len(),
    ensures
        ps.take(n).contains(p) ==> lookup(used_by(st, ps, epoch, n).profile_last_used, p) == Some(
            epoch,
        ),
        !ps.take(n).contains(p) ==> lookup(used_by(st, ps, epoch, n).profile_last_used, p)
            == lookup(st.profile_last_used, p),
        n > 0 ==> used_by(st, ps, epoch, n).last_used_profile_id == Some(ps[n - 1]),
    decreases n,
{
    if n > 0 {
        lemma_used_at(st, ps, epoch, n - 1, p);
        let before = used_by(st, ps, epoch, n - 1);
        crate::map::lemma_lookup_put(before.profile_last_used, ps[n - 1], epoch, p);
        assert(ps.take(n)[n - 1] == ps[n - 1]);
        let less = ps.take(n - 1);
        let more = ps.take(n);
        if less.contains(p) {
            let i = choose|i: int| 0 <= i < less.len() && less[i] == p;
            assert(more[i] == p);
        }
        if more.contains(p) && p != ps[n - 1] {
            let i = choose|i: int| 0 <= i < more.len() && more[i] == p;
            assert(less[i] == p);
        }
    }
}

/// A schedule that is off, is not one that starts by itself, has no assignment or
/// stands outside its window starts nothing and is left as it was. One that takes
/// profiles starts its scenarios, those that are there, in their order, on all of
/// them.
pub proof fn lemma_turn(
    s: ScheduleView,
    sc: Scene,
    states: Seq<(Seq<char>, StateView)>,
    started: Seq<LaunchView>,
    draw: u64,
)
    ensures
        ({
            let (after, launches) = turn(s, sc, states, started, draw);
            &&& !s.enabled || s.trigger_type == TriggerType::Manual || s.trigger_type
                == TriggerType::OnEvent || lookup(sc.assignments, s.id) is None || !in_window(
                sc.minute_of_day,
                s.time_window_start,
                s.time_window_end,
            ) ==> after == states && launches == started
            &&& launches == started || (launches.len() == started.len() + 1
                && launches.drop_last() == started && launches.last().schedule_id == s.id
                && launches.last().headless == (lookup(sc.assignments, s.id)->0).run_headless
                && launches.last().profiles.len() > 0 && launches.last().profiles == beat(
                s,
                lookup(sc.assignments, s.id)->0,
                state_or_fresh(states, s.id),
                sc.today,
                sc.epoch,
                sc.running,
                sc.profiles,
                sc.counts,
                draw,
            ).1 && launches.last().scenarios.len() > 0 && launches.last().scenarios
                == scenarios_for(sc.scenarios, s))
        }),
{
    let (after, launches) = turn(s, sc, states, started, draw);
    if launches != started {
        assert(launches.drop_last() =~= started);
    }
}

/// The scenarios of a schedule are those of its list that are there, in the order
/// of the list; without a list, the one that it names.
pub proof fn lemma_scenarios_for(m: Seq<(Seq<char>, ScenarioView)>, s: ScheduleView, i: int)
    ensures
        s.scenario_ids.len() > 0 && (forall|k: int|
            0 <= k < s.scenario_ids.len() ==> lookup(m, #[trigger] s.scenario_ids[k]) is Some) && 0
            <= i < s.scenario_ids.len() ==> scenarios_for(m, s).len() == s.scenario_ids.len()
            && scenarios_for(m, s)[i] == lookup(m, s.scenario_ids[i])->0,
        s.scenario_ids.len() == 0 && s.scenario_id.len() > 0 && lookup(m, s.scenario_id) is Some
            ==> scenarios_for(m, s) == seq![lookup(m, s.scenario_id)->0],
        s.scenario_ids.len() == 0 && s.scenario_id.len() == 0 ==> scenarios_for(m, s).len() == 0,
{
    let ids = scenario_list(s.scenario_ids, s.scenario_id);
    if s.scenario_ids.len() > 0 && (forall|k: int|
        0 <= k < s.scenario_ids.len() ==> lookup(m, #[trigger] s.scenario_ids[k]) is Some) {
        lemma_found(m, ids, ids.len() as int);
    } else if s.scenario_ids.len() == 0 && s.scenario_id.len() > 0 {
        reveal_with_fuel(found, 2);
        if lookup(m, s.scenario_id) is Some {
            assert(scenarios_for(m, s) =~= seq![lookup(m, s.scenario_id)->0]);
        }
    }
}

proof fn lemma_found(m: Seq<(Seq<char>, ScenarioView)>, ids: Seq<Seq<char>>, n: int)
    requires
        0 <= n <= ids.len(),
        forall|k: int| 0 <= k < ids.len() ==> lookup(m, #[trigger] ids[k]) is Some,
    ensures
        found(m, ids, n).len() == n,
        forall|k: int| 0 <= k < n ==> #[trigger] found(m, ids, n)[k] == lookup(m, ids[k])->0,
    decreases n,
{
    if n > 0 {
        lemma_found(m, ids, n - 1);
        assert(lookup(m, ids[n - 1]) is Some);
    }
}

/// The calendar of a schedule is that of the zone that it names, without the white
/// space about the name, where there is such a zone; else it is that of UTC, which
/// shows the minute, the hour, the day and the month of the time, and the day of the
/// week, the first of January 1970 being a Thursday.
pub proof fn lemma_calendar_of(secs: u64, zone: Seq<char>)
    ensures
        is_zone(trim(zone)) ==> calendar_of(secs, Some(zone)) == zone_calendar(secs, trim(zone)),
        !is_zone(trim(zone)) ==> calendar_of(secs, Some(zone)) == calendar_of(secs, None),
        ({
            let c = calendar_of(secs, None);
            &&& c.minute < 60
            &&& c.hour < 24
            &&& c.weekday < 7
            &&& secs as nat % 86400 == 3600 * c.hour + 60 * c.minute + secs as nat % 60
            &&& c.day == day_after(secs as nat / 86400).day as u32
            &&& c.month == day_after(secs as nat / 86400).month as u32
            &&& (secs as nat / 86400 + 4) % 7 == c.weekday
        }),
{
    let t = secs as nat;
    assert(t % 86400 == 3600 * (t / 3600 % 24) + 60 * (t / 60 % 60) + t % 60);
}

/// What is to be done with a profile that a launch names: nothing where it runs; else
/// it is launched where it is there and its browser is one that can be driven.
pub proof fn lemma_start_of(v: Seq<ProfileView>, id: Seq<char>)
    ensures
        (exists|i: int| 0 <= i < v.len() && (#[trigger] v[i]).id == id && v[i].running)
            <==> start_of(v, id) is Running,
        (forall|i: int| 0 <= i < v.len() ==> (#[trigger] v[i]).id != id) <==> start_of(v, id)
            is NotFound,
        start_of(v, id) is Launch ==> exists|i: int|
            0 <= i < v.len() && (#[trigger] v[i]).id == id && (v[i].browser == "wayfern"@
                || v[i].browser == "camoufox"@ || v[i].browser == "cloak"@),
        start_of(v, id) is Unsupported ==> exists|i: int|
            0 <= i < v.len() && (#[trigger] v[i]).id == id && v[i].browser != "wayfern"@
                && v[i].browser != "camoufox"@ && v[i].browser != "cloak"@ && v[i].browser
                == start_of(v, id)->browser,
{
    crate::profiles::lemma_profile_named(v, id);
    if let Some(p) = profile_named(v, id) {
        let i = choose|i: int| 0 <= i < v.len() && v[i] == p;
        assert(v[i].id == id);
    }
}

} // verus!
