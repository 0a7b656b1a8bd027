//! Schedules: when a schedule is due, and which profiles it takes next.
use vstd::prelude::*;

use crate::chance::{draw, pick, random_u64};
use crate::map::{lookup, TextMap};
use crate::model::copy_opt;
use crate::text::{
    copy_texts, cut_once, dec, has_text, joined, lemma_cut_once, lemma_words_read_back, white_space,
    lemma_dec_digits, lemma_dec_lacks, lemma_dec_value, lemma_filter_push, lemma_split_halves,
    lemma_split_single, lemma_texts_push, opt_text, parse_u32, same, split, split_on, split_once,
    texts, trim, trimmed, unsigned_upto, words, words_of,
};

verus! {

#[derive(Debug, Clone, Copy, PartialEq, Eq, Structural)]
pub enum TriggerType {
    Cron,
    Interval,
    Manual,
    OnEvent,
}

/// When to run which scenarios.
#[derive(Debug, PartialEq, Eq)]
pub struct Schedule {
    pub id: String,
    /// The one scenario of an older schedule; `scenario_ids` comes first.
    pub scenario_id: String,
    pub scenario_ids: Vec<String>,
    pub name: String,
    pub enabled: bool,
    pub trigger_type: TriggerType,
    pub cron_expr: Option<String>,
    pub interval_minutes: Option<u64>,
    pub timezone: Option<String>,
    /// "HH:MM"
    pub time_window_start: Option<String>,
    pub time_window_end: Option<String>,
    pub max_runs_per_day: Option<u32>,
}

#[derive(Debug, Clone, Copy, PartialEq, Eq, Structural)]
pub enum RotationMode {
    RoundRobin,
    Random,
    LeastUsed,
    AllParallel,
}

/// The profiles of a schedule and how they take turns.
#[derive(Debug, PartialEq, Eq)]
pub struct ProfileAssignment {
    pub schedule_id: String,
    pub profile_ids: Vec<String>,
    pub group_ids: Vec<String>,
    pub rotation_mode: RotationMode,
    pub max_parallel: usize,
    pub cooldown_minutes: u64,
    pub last_used_profile_id: Option<String>,
    pub run_headless: bool,
}

/// How many profiles a schedule drives at once where nothing is said.
pub fn default_max_parallel() -> (n: usize)
    ensures
        n == 1,
{
    1
}

// ---------------------------------------------------------------------------
// Choosing profiles
// ---------------------------------------------------------------------------

/// Neither busy nor cooling down.
pub open spec fn free(busy: Seq<Seq<char>>, in_cooldown: Seq<Seq<char>>) -> spec_fn(
    Seq<char>,
) -> bool {
    |p: Seq<char>| !busy.contains(p) && !in_cooldown.contains(p)
}

/// The candidates that are neither busy nor cooling down, in their order.
pub fn filter_available(
    candidates: &Vec<String>,
    busy: &Vec<String>,
    in_cooldown: &Vec<String>,
) -> (r: Vec<String>)
    ensures
        texts(r@) == texts(candidates@).filter(free(texts(busy@), texts(in_cooldown@))),
{
    let ghost all = texts(candidates@);
    let ghost keep = free(texts(busy@), texts(in_cooldown@));
    let mut out: Vec<String> = Vec::new();
    let mut i: usize = 0;
    proof {
        reveal(Seq::filter);
        assert(all.take(0).filter(keep) =~= texts(out@));
    }
    while i < candidates.len()
        invariant
            i <= candidates@.len(),
            all == texts(candidates@),
            keep == free(texts(busy@), texts(in_cooldown@)),
            texts(out@) == all.take(i as int).filter(keep),
        decreases candidates@.len() - i,
    {
        let p = &candidates[i];
        proof {
            lemma_filter_push(all.take(i as int), all[i as int], keep);
            assert(all.take(i as int + 1) =~= all.take(i as int).push(all[i as int]));
        }
        if !has_text(busy, p.as_str()) && !has_text(in_cooldown, p.as_str()) {
            proof {
                lemma_texts_push(out@, *p);
            }
            out.push(p.clone());
        }
        i = i + 1;
    }
    assert(all.take(all.len() as int) =~= all);
    out
}

/// How often a profile has been used.
pub open spec fn used(counts: Seq<(Seq<char>, u32)>, p: Seq<char>) -> u32 {
    match lookup(counts, p) {
        Some(n) => n,
        None => 0,
    }
}

/// The first of the first `n` profiles that is used least.
pub open spec fn least_used(available: Seq<Seq<char>>, counts: Seq<(Seq<char>, u32)>, n: int) -> int
    decreases n,
{
    if n <= 1 {
        0
    } else {
        let best = least_used(available, counts, n - 1);
        if used(counts, available[n - 1]) < used(counts, available[best]) {
            n - 1
        } else {
            best
        }
    }
}

/// No profile is used less than the least used one, and none before it is
/// used as little.
pub proof fn lemma_least_used(available: Seq<Seq<char>>, counts: Seq<(Seq<char>, u32)>, n: int)
    requires
        1 <= n <= available.len(),
    ensures
        0 <= least_used(available, counts, n) < n,
        forall|j: int|
            0 <= j < n ==> used(counts, available[least_used(available, counts, n)]) <= used(
                counts,
                #[trigger] available[j],
            ),
        forall|j: int|
            0 <= j < least_used(available, counts, n) ==> used(
                counts,
                available[least_used(available, counts, n)],
            ) < used(counts, #[trigger] available[j]),
    decreases n,
{
    if n > 1 {
        lemma_least_used(available, counts, n - 1);
    }
}

/// The place of the first `x` in `s`.
pub open spec fn place_of(s: Seq<Seq<char>>, x: Seq<char>) -> Option<int>
    decreases s.len(),
{
    if s.len() == 0 {
        None
    } else if s[0] == x {
        Some(0)
    } else {
        match place_of(s.drop_first(), x) {
            Some(i) => Some(i + 1),
            None => None,
        }
    }
}

/// The place behind the profile that was used last, or the first place.
pub open spec fn next_place(available: Seq<Seq<char>>, last: Option<Seq<char>>) -> int {
    match last {
        Some(l) => match place_of(available, l) {
            Some(i) => i + 1,
            None => 0,
        },
        None => 0,
    }
}

/// The profiles that a rotation takes next. `draw` decides where chance does.
pub open spec fn picked(
    available: Seq<Seq<char>>,
    mode: RotationMode,
    max_parallel: usize,
    last: Option<Seq<char>>,
    counts: Seq<(Seq<char>, u32)>,
    draw: u64,
) -> Seq<Seq<char>> {
    let n = available.len() as int;
    if n == 0 {
        Seq::empty()
    } else {
        match mode {
            RotationMode::AllParallel => {
                let m = if max_parallel == 0 {
                    1
                } else {
                    max_parallel as int
                };
                if m < n {
                    available.take(m)
                } else {
                    available
                }
            },
            RotationMode::Random => seq![available[draw as int % n]],
            RotationMode::LeastUsed => seq![available[least_used(available, counts, n)]],
            RotationMode::RoundRobin => seq![available[next_place(available, last) % n]],
        }
    }
}

fn place(s: &Vec<String>, x: &str) -> (r: Option<usize>)
    ensures
        match r {
            Some(i) => i < s@.len() && place_of(texts(s@), x@) == Some(i as int),
            None => place_of(texts(s@), x@) is None,
        },
{
    let ghost all = texts(s@);
    let mut i: usize = 0;
    assert(all.skip(0) =~= all);
    while i < s.len()
        invariant
            i <= s@.len(),
            all == texts(s@),
            place_of(all, x@) == match place_of(all.skip(i as int), x@) {
                Some(k) => Some(k + i),
                None => None,
            },
        decreases s@.len() - i,
    {
        assert(all.skip(i as int)[0] == all[i as int]);
        assert(all.skip(i as int).drop_first() =~= all.skip(i as int + 1));
        if same(s[i].as_str(), x) {
            return Some(i);
        }
        i = i + 1;
    }
    None
}

/// The profiles that a rotation takes next, given the random number that
/// decides where chance does.
pub fn pick_profiles_with(
    available: &Vec<String>,
    assignment: &ProfileAssignment,
    usage_counts: &TextMap<u32>,
    draw: u64,
) -> (r: Vec<String>)
    ensures
        texts(r@) == picked(
            texts(available@),
            assignment.rotation_mode,
            assignment.max_parallel,
            opt_text(assignment.last_used_profile_id),
            usage_counts@,
            draw,
        ),
{
    let ghost all = texts(available@);
    let mut out: Vec<String> = Vec::new();
    let n: usize = available.len();
    if n == 0 {
        assert(texts(out@) =~= Seq::<Seq<char>>::empty());
        return out;
    }
    match assignment.rotation_mode {
        RotationMode::AllParallel => {
            let m: usize = if assignment.max_parallel == 0 {
                1
            } else {
                assignment.max_parallel
            };
            let top: usize = if m < n {
                m
            } else {
                n
            };
            let mut i: usize = 0;
            while i < top
                invariant
                    i <= top <= available@.len(),
                    all == texts(available@),
                    texts(out@) =~= all.take(i as int),
                decreases top - i,
            {
                proof {
                    lemma_texts_push(out@, available@[i as int]);
                }
                out.push(available[i].clone());
                i = i + 1;
            }
            assert(all.take(n as int) =~= all);
            return out;
        },
        RotationMode::Random => {
            out.push(available[pick(draw, n)].clone());
        },
        RotationMode::LeastUsed => {
            let mut best: usize = 0;
            let mut best_n: u32 = uses(usage_counts, available[0].as_str());
            let mut i: usize = 1;
            while i < n
                invariant
                    1 <= i <= n,
                    n == available@.len(),
                    all == texts(available@),
                    best < n,
                    best == least_used(all, usage_counts@, i as int),
                    best_n == used(usage_counts@, all[best as int]),
                decreases n - i,
            {
                let k: u32 = uses(usage_counts, available[i].as_str());
                if k < best_n {
                    best = i;
                    best_n = k;
                }
                i = i + 1;
            }
            out.push(available[best].clone());
        },
        RotationMode::RoundRobin => {
            let start: usize = match &assignment.last_used_profile_id {
                Some(last) => match place(available, last.as_str()) {
                    Some(i) => i + 1,
                    None => 0,
                },
                None => 0,
            };
            out.push(available[start % n].clone());
        },
    }
    assert(texts(out@) =~= seq![texts(out@)[0]]);
    out
}

fn uses(counts: &TextMap<u32>, p: &str) -> (r: u32)
    ensures
        r == used(counts@, p@),
{
    match counts.get(p) {
        Some(n) => *n,
        None => 0,
    }
}

/// The profiles that a rotation takes next.
pub fn pick_profiles(
    available: &Vec<String>,
    assignment: &ProfileAssignment,
    usage_counts: &TextMap<u32>,
) -> (r: Vec<String>)
    ensures
        exists|draw: u64|
            texts(r@) == #[trigger] picked(
                texts(available@),
                assignment.rotation_mode,
                assignment.max_parallel,
                opt_text(assignment.last_used_profile_id),
                usage_counts@,
                draw,
            ),
{
    let d: u64 = random_u64();
    pick_profiles_with(available, assignment, usage_counts, d)
}

/// Some profile is taken exactly where one is available; all that are taken
/// are available; a rotation that takes turns takes one.
pub proof fn lemma_picked(
    available: Seq<Seq<char>>,
    mode: RotationMode,
    max_parallel: usize,
    last: Option<Seq<char>>,
    counts: Seq<(Seq<char>, u32)>,
    draw: u64,
)
    ensures
        picked(available, mode, max_parallel, last, counts, draw).len() == 0 <==> available.len()
            == 0,
        forall|p: Seq<char>|
            picked(available, mode, max_parallel, last, counts, draw).contains(p)
                ==> available.contains(p),
        mode != RotationMode::AllParallel ==> picked(
            available,
            mode,
            max_parallel,
            last,
            counts,
            draw,
        ).len() <= 1,
        max_parallel >= 1 ==> picked(available, mode, max_parallel, last, counts, draw).len()
            <= max_parallel,
{
    let n = available.len() as int;
    let r = picked(available, mode, max_parallel, last, counts, draw);
    if n > 0 {
        lemma_least_used(available, counts, n);
        lemma_place_of(available, last);
        assert forall|p: Seq<char>| r.contains(p) implies available.contains(p) by {
            let i = choose|i: int| 0 <= i < r.len() && r[i] == p;
            if mode == RotationMode::Random {
                assert(available[draw as int % n] == p);
            } else if mode == RotationMode::LeastUsed {
                assert(available[least_used(available, counts, n)] == p);
            } else if mode == RotationMode::RoundRobin {
                assert(0 <= next_place(available, last) % n < n) by (nonlinear_arith)
                    requires
                        n > 0,
                ;
                assert(available[next_place(available, last) % n] == p);
            } else {
                assert(available[i] == p);
            }
        }
    }
}

proof fn lemma_place_of(s: Seq<Seq<char>>, last: Option<Seq<char>>)
    ensures
        0 <= next_place(s, last) <= s.len(),
    decreases s.len(),
{
    if let Some(x) = last {
        if s.len() > 0 && s[0] != x {
            lemma_place_of(s.drop_first(), last);
        }
    }
}

/// Turn by turn, a round robin over distinct profiles moves one place on and
/// starts again behind the last.
pub proof fn lemma_round_robin_advances(
    available: Seq<Seq<char>>,
    i: int,
    max_parallel: usize,
    counts: Seq<(Seq<char>, u32)>,
    draw: u64,
)
    requires
        0 <= i < available.len(),
        available.no_duplicates(),
    ensures
        picked(
            available,
            RotationMode::RoundRobin,
            max_parallel,
            Some(available[i]),
            counts,
            draw,
        ) == seq![available[(i + 1) % available.len() as int]],
{
    lemma_place_distinct(available, i);
}

/// A round robin starts with the first profile where none was used last, or the
/// one that was is not there.
pub proof fn lemma_round_robin_starts(
    available: Seq<Seq<char>>,
    last: Option<Seq<char>>,
    max_parallel: usize,
    counts: Seq<(Seq<char>, u32)>,
    draw: u64,
)
    requires
        available.len() > 0,
        last is Some ==> !available.contains(last->0),
    ensures
        picked(available, RotationMode::RoundRobin, max_parallel, last, counts, draw) == seq![
            available[0],
        ],
{
    if let Some(l) = last {
        lemma_place_missing(available, l);
    }
}

proof fn lemma_place_missing(s: Seq<Seq<char>>, x: Seq<char>)
    requires
        !s.contains(x),
    ensures
        place_of(s, x) is None,
    decreases s.len(),
{
    if s.len() > 0 {
        assert(s[0] != x);
        let t = s.drop_first();
        if t.contains(x) {
            let i = choose|i: int| 0 <= i < t.len() && t[i] == x;
            assert(s[i + 1] == x);
        }
        lemma_place_missing(t, x);
    }
}

/// By chance, every profile that is available can be the one that is taken, and
/// by use, none that is available is used less than the one that is taken. All at
/// once takes the first ones, in their order, as many as may run at once, and at
/// least one.
pub proof fn lemma_rotations(
    available: Seq<Seq<char>>,
    max_parallel: usize,
    last: Option<Seq<char>>,
    counts: Seq<(Seq<char>, u32)>,
    draw: u64,
    i: int,
)
    requires
        0 <= i < available.len(),
        i <= u64::MAX,
    ensures
        picked(available, RotationMode::Random, max_parallel, last, counts, i as u64) == seq![
            available[i],
        ],
        picked(available, RotationMode::LeastUsed, max_parallel, last, counts, draw).len() == 1,
        used(
            counts,
            picked(available, RotationMode::LeastUsed, max_parallel, last, counts, draw)[0],
        ) <= used(counts, available[i]),
        ({
            let all = picked(available, RotationMode::AllParallel, max_parallel, last, counts, draw);
            &&& i < all.len() ==> all[i] == available[i]
            &&& i < all.len() <==> i < max_parallel || i == 0
        }),
{
    vstd::arithmetic::div_mod::lemma_small_mod(i as nat, available.len());
    lemma_least_used(available, counts, available.len() as int);
}

proof fn lemma_place_distinct(s: Seq<Seq<char>>, i: int)
    requires
        0 <= i < s.len(),
        s.no_duplicates(),
    ensures
        place_of(s, s[i]) == Some(i),
    decreases s.len(),
{
    if i > 0 {
        assert(s[0] != s[i]);
        let t = s.drop_first();
        assert(t[i - 1] == s[i]);
        assert forall|a: int, b: int| 0 <= a < t.len() && 0 <= b < t.len() && a != b implies t[a]
            != t[b] by {
            assert(s[a + 1] != s[b + 1]);
        }
        lemma_place_distinct(t, i - 1);
    }
}

// ---------------------------------------------------------------------------
// Time windows
// ---------------------------------------------------------------------------

/// The minute of the day that "HH:MM" writes.
pub open spec fn minute_of_day(s: Seq<char>) -> Option<u32> {
    match cut_once(s, ':') {
        Some((h, m)) => match (
            unsigned_upto(trim(h), u32::MAX as nat),
            unsigned_upto(trim(m), u32::MAX as nat),
        ) {
            (Some(h), Some(m)) => if h <= 23 && m <= 59 {
                Some((h * 60 + m) as u32)
            } else {
                None
            },
            _ => None,
        },
        None => None,
    }
}

/// The minute of the day that "HH:MM" writes.
pub fn parse_hm(s: &str) -> (r: Option<u32>)
    ensures
        r == minute_of_day(s@),
{
    match split_once(s, ':') {
        Some((h, m)) => {
            let hh = parse_u32(trimmed(h.as_str()).as_str());
            let mm = parse_u32(trimmed(m.as_str()).as_str());
            match (hh, mm) {
                (Some(h), Some(m)) => {
                    if h > 23 || m > 59 {
                        None
                    } else {
                        Some(h * 60 + m)
                    }
                },
                _ => None,
            }
        },
        None => None,
    }
}

pub open spec fn opt_slice(o: Option<&str>) -> Option<Seq<char>> {
    match o {
        Some(s) => Some(s@),
        None => None,
    }
}

/// Whether the minute lies in the window. A window may go past midnight; one
/// that is not set, or not written as it should be, is always open.
pub open spec fn in_window(now: u32, start: Option<Seq<char>>, end: Option<Seq<char>>) -> bool {
    match (start, end) {
        (Some(s), Some(e)) => match (minute_of_day(s), minute_of_day(e)) {
            (Some(s), Some(e)) => if s <= e {
                s <= now <= e
            } else {
                now >= s || now <= e
            },
            _ => true,
        },
        _ => true,
    }
}

/// Whether the minute of the day lies in the window.
pub fn is_in_time_window(now_minutes: u32, start: Option<&str>, end: Option<&str>) -> (r: bool)
    ensures
        r == in_window(now_minutes, opt_slice(start), opt_slice(end)),
{
    match (start, end) {
        (Some(s), Some(e)) => {
            match (parse_hm(s), parse_hm(e)) {
                (Some(s), Some(e)) => if s <= e {
                    now_minutes >= s && now_minutes <= e
                } else {
                    now_minutes >= s || now_minutes <= e
                },
                _ => true,
            }
        },
        _ => true,
    }
}

/// A window and the same window with its ends exchanged leave no minute out,
/// and both are open only at their ends.
pub proof fn lemma_window_complement(now: u32, start: Seq<char>, end: Seq<char>)
    requires
        minute_of_day(start) is Some,
        minute_of_day(end) is Some,
        minute_of_day(start) != minute_of_day(end),
    ensures
        in_window(now, Some(start), Some(end)) || in_window(now, Some(end), Some(start)),
        (in_window(now, Some(start), Some(end)) && in_window(now, Some(end), Some(start))) <==> (
        Some(now) == minute_of_day(start) || Some(now) == minute_of_day(end)),
{
}

/// A window is open at both its ends. One within a day is shut before the first
/// and after the last; one that goes past midnight is shut only between the end
/// and the start.
pub proof fn lemma_window(now: u32, start: Seq<char>, end: Seq<char>)
    requires
        minute_of_day(start) is Some,
        minute_of_day(end) is Some,
    ensures
        ({
            let s = minute_of_day(start)->0;
            let e = minute_of_day(end)->0;
            let open = in_window(now, Some(start), Some(end));
            &&& now == s || now == e ==> open
            &&& s <= e && now < s ==> !open
            &&& s <= e && now > e ==> !open
            &&& s <= e && s < now < e ==> open
            &&& s > e && now > s ==> open
            &&& s > e && now < e ==> open
            &&& s > e && e < now < s ==> !open
        }),
        in_window(now, None, Some(end)) && in_window(now, Some(start), None) && in_window(
            now,
            None,
            None,
        ),
{
}

/// An hour up to 23, a colon and a minute up to 59 write a minute of the day:
/// sixty for each hour, and the minutes. No other hour or minute does.
pub proof fn lemma_minute_of_day(h: nat, m: nat)
    ensures
        minute_of_day(dec(h) + ":"@ + dec(m)) == if h <= 23 && m <= 59 {
            Some((60 * h + m) as u32)
        } else {
            None
        },
{
    reveal_strlit(":");
    assert(":"@ =~= seq![':']);
    lemma_dec_value(h);
    lemma_dec_value(m);
    lemma_dec_lacks(h, ':');
    lemma_cut_once(dec(h), ':', dec(m));
    lemma_dec_trim(h);
    lemma_dec_trim(m);
}

proof fn lemma_dec_trim(n: nat)
    ensures
        trim(dec(n)) == dec(n),
{
    lemma_dec_value(n);
    lemma_dec_digits(n, 0);
    lemma_dec_digits(n, dec(n).len() - 1);
}

/// The time of the next run of an interval: at least a minute away.
pub fn next_interval_run(now_epoch_secs: u64, interval_minutes: u64) -> (r: u64)
    requires
        now_epoch_secs + (if interval_minutes == 0 {
            1
        } else {
            interval_minutes as int
        }) * 60 <= u64::MAX,
    ensures
        r == now_epoch_secs + (if interval_minutes == 0 {
            1
        } else {
            interval_minutes as int
        }) * 60,
{
    let m: u64 = if interval_minutes == 0 {
        1
    } else {
        interval_minutes
    };
    now_epoch_secs + m * 60
}

// ---------------------------------------------------------------------------
// Cron expressions
// ---------------------------------------------------------------------------

/// Every `step`-th value from `lo` to `hi`.
pub open spec fn in_steps(val: int, lo: int, hi: int, step: int) -> bool {
    lo <= val <= hi && (val - lo) % step == 0
}

pub open spec fn u32_value(s: Seq<char>) -> Option<nat> {
    unsigned_upto(s, u32::MAX as nat)
}

/// Whether a range `*`, `a-b` or `a`, counted in steps where there are any,
/// holds `val`. A single number with a step stands for the range from it to
/// `max`.
pub open spec fn cron_range(
    range: Seq<char>,
    step: Option<int>,
    val: int,
    min: int,
    max: int,
) -> bool {
    let by = match step {
        Some(n) => n,
        None => 1,
    };
    if range == "*"@ {
        in_steps(val, min, max, by)
    } else {
        match cut_once(range, '-') {
            Some((a, b)) => match (u32_value(a), u32_value(b)) {
                (Some(a), Some(b)) => in_steps(val, a as int, b as int, by),
                _ => false,
            },
            None => match u32_value(range) {
                Some(n) => if step is Some {
                    in_steps(val, n as int, max, by)
                } else {
                    val == n
                },
                None => false,
            },
        }
    }
}

/// Whether one part of a field holds `val`: a range, with a step behind a
/// slash.
pub open spec fn cron_part(part: Seq<char>, val: int, min: int, max: int) -> bool {
    match cut_once(part, '/') {
        Some((r, s)) => match u32_value(s) {
            Some(n) => n > 0 && cron_range(r, Some(n as int), val, min, max),
            None => false,
        },
        None => cron_range(part, None, val, min, max),
    }
}

/// Whether a field holds `val`: one of its parts does.
pub open spec fn cron_field(field: Seq<char>, val: int, min: int, max: int) -> bool {
    let parts = split(field, seq![',']);
    exists|i: int| 0 <= i < parts.len() && cron_part(#[trigger] parts[i], val, min, max)
}

/// Whether a five-field expression holds a time. Where both the day of the
/// month and the day of the week are restricted, one of them is enough.
pub open spec fn cron_holds(
    expr: Seq<char>,
    minute: int,
    hour: int,
    dom: int,
    month: int,
    dow: int,
) -> bool {
    let f = words(expr);
    &&& f.len() == 5
    &&& cron_field(f[0], minute, 0, 59)
    &&& cron_field(f[1], hour, 0, 23)
    &&& cron_field(f[3], month, 1, 12)
    &&& if f[2] != "*"@ && f[4] != "*"@ {
        cron_field(f[2], dom, 1, 31) || cron_field(f[4], dow, 0, 6)
    } else {
        cron_field(f[2], dom, 1, 31) && cron_field(f[4], dow, 0, 6)
    }
}

/// Whether one part of a field holds `val`.
pub fn cron_part_matches(part: &str, val: u32, min: u32, max: u32) -> (r: bool)
    ensures
        r == cron_part(part@, val as int, min as int, max as int),
{
    let mut range = part.to_owned();
    let mut step: u32 = 1;
    let mut stepped: bool = false;
    match split_once(part, '/') {
        Some((a, s)) => {
            match parse_u32(s.as_str()) {
                Some(n) => {
                    if n == 0 {
                        return false;
                    }
                    range = a;
                    step = n;
                    stepped = true;
                },
                None => {
                    return false;
                },
            }
        },
        None => {},
    }
    let lo: u32;
    let hi: u32;
    if same(range.as_str(), "*") {
        lo = min;
        hi = max;
    } else {
        match split_once(range.as_str(), '-') {
            Some((a, b)) => {
                match (parse_u32(a.as_str()), parse_u32(b.as_str())) {
                    (Some(x), Some(y)) => {
                        lo = x;
                        hi = y;
                    },
                    _ => {
                        return false;
                    },
                }
            },
            None => {
                match parse_u32(range.as_str()) {
                    Some(n) => {
                        if !stepped {
                            return val == n;
                        }
                        lo = n;
                        hi = max;
                    },
                    None => {
                        return false;
                    },
                }
            },
        }
    }
    val >= lo && val <= hi && (val - lo) % step == 0
}

/// Whether a field holds `val`.
pub fn cron_field_matches(field: &str, val: u32, min: u32, max: u32) -> (r: bool)
    ensures
        r == cron_field(field@, val as int, min as int, max as int),
{
    let sep: [char; 1] = [','];
    assert(sep@ =~= seq![',']);
    let parts = split_on(field, &sep);
    let mut i: usize = 0;
    while i < parts.len()
        invariant
            i <= parts@.len(),
            texts(parts@) == split(field@, seq![',']),
            forall|j: int|
                0 <= j < i ==> !cron_part(
                    #[trigger] texts(parts@)[j],
                    val as int,
                    min as int,
                    max as int,
                ),
        decreases parts@.len() - i,
    {
        if cron_part_matches(parts[i].as_str(), val, min, max) {
            assert(cron_part(texts(parts@)[i as int], val as int, min as int, max as int));
            return true;
        }
        i = i + 1;
    }
    false
}

/// Whether a five-field expression `minute hour day month weekday` holds the
/// given time. Sunday is weekday 0.
pub fn cron_matches(expr: &str, minute: u32, hour: u32, dom: u32, month: u32, dow: u32) -> (r: bool)
    ensures
        r == cron_holds(
            expr@,
            minute as int,
            hour as int,
            dom as int,
            month as int,
            dow as int,
        ),
{
    let f = words_of(expr);
    assert(f@.len() == texts(f@).len());
    if f.len() != 5 {
        return false;
    }
    assert forall|i: int| 0 <= i < 5 implies #[trigger] texts(f@)[i] == f@[i]@ by {}
    let dom_restricted: bool = !same(f[2].as_str(), "*");
    let dow_restricted: bool = !same(f[4].as_str(), "*");
    let dom_ok: bool = cron_field_matches(f[2].as_str(), dom, 1, 31);
    let dow_ok: bool = cron_field_matches(f[4].as_str(), dow, 0, 6);
    let day_ok: bool = if dom_restricted && dow_restricted {
        dom_ok || dow_ok
    } else {
        dom_ok && dow_ok
    };
    cron_field_matches(f[0].as_str(), minute, 0, 59) && cron_field_matches(
        f[1].as_str(),
        hour,
        0,
        23,
    ) && cron_field_matches(f[3].as_str(), month, 1, 12) && day_ok
}

/// A number as a part of a field holds itself alone; behind a number, a dash and
/// a number, every value from the one to the other; `*` every value there is.
/// With a step behind a slash, every so many of them, from the first on; a single
/// number then stands for all from it to the greatest. A step of zero holds
/// nothing.
pub proof fn lemma_cron_parts(a: nat, b: nat, k: nat, val: int, min: int, max: int)
    requires
        a <= u32::MAX,
        b <= u32::MAX,
        k <= u32::MAX,
    ensures
        cron_field(dec(a), val, min, max) <==> val == a,
        cron_field(dec(a) + "-"@ + dec(b), val, min, max) <==> a <= val <= b,
        cron_field("*"@, val, min, max) <==> min <= val <= max,
        k > 0 ==> (cron_field("*/"@ + dec(k), val, min, max) <==> min <= val <= max && (val - min)
            % (k as int) == 0),
        k > 0 ==> (cron_field(dec(a) + "/"@ + dec(k), val, min, max) <==> a <= val <= max && (val
            - a) % (k as int) == 0),
        k > 0 ==> (cron_field(dec(a) + "-"@ + dec(b) + "/"@ + dec(k), val, min, max) <==> a <= val
            <= b && (val - a) % (k as int) == 0),
        k == 0 ==> !cron_field("*/"@ + dec(k), val, min, max),
{
    reveal_strlit("*");
    reveal_strlit("-");
    reveal_strlit("/");
    reveal_strlit("*/");
    assert("*"@ =~= seq!['*']);
    assert("-"@ =~= seq!['-']);
    assert("/"@ =~= seq!['/']);
    assert("*/"@ =~= seq!['*', '/']);
    let da = dec(a);
    let db = dec(b);
    let dk = dec(k);
    lemma_dec_value(a);
    lemma_dec_value(b);
    lemma_dec_value(k);
    lemma_dec_lacks(a, ',');
    lemma_dec_lacks(a, '-');
    lemma_dec_lacks(a, '/');
    lemma_dec_lacks(a, '*');
    lemma_dec_lacks(b, ',');
    lemma_dec_lacks(b, '/');
    lemma_dec_lacks(k, ',');
    lemma_dec_digits(a, 0);
    let range = da + seq!['-'] + db;
    assert(!range.contains('/') && !range.contains(',')) by {
        lemma_apart(da, '-', db, '/');
        lemma_apart(da, '-', db, ',');
    }
    let star = seq!['*'];
    assert(star[0] == '*');
    assert(!star.contains('/') && !star.contains(',') && !star.contains('-'));
    lemma_one_part(da, val, min, max);
    lemma_cut_once(da, '/', dk);
    lemma_cut_once(da, '-', db);
    assert(da != "*"@);
    assert(range != "*"@) by {
        assert(range[0] == da[0]);
    }
    lemma_one_part(range, val, min, max);
    lemma_cut_once(range, '/', dk);
    lemma_one_part(star, val, min, max);
    lemma_cut_once(star, '/', dk);
    let star_k = star + seq!['/'] + dk;
    assert("*/"@ + dk =~= star_k);
    lemma_apart(star, '/', dk, ',');
    lemma_one_part(star_k, val, min, max);
    let one_k = da + seq!['/'] + dk;
    lemma_apart(da, '/', dk, ',');
    lemma_one_part(one_k, val, min, max);
    let range_k = range + seq!['/'] + dk;
    lemma_apart(range, '/', dk, ',');
    lemma_one_part(range_k, val, min, max);
    assert((val - min) % 1 == 0 && (val - a) % 1 == 0);
}

/// A field of several parts between commas holds what one of them holds.
pub proof fn lemma_cron_list(a: Seq<char>, b: Seq<char>, val: int, min: int, max: int)
    ensures
        cron_field(a + ","@ + b, val, min, max) <==> cron_field(a, val, min, max) || cron_field(
            b,
            val,
            min,
            max,
        ),
{
    reveal_strlit(",");
    assert(","@ =~= seq![',']);
    lemma_split_halves(a, ',', b);
    let p = split(a, seq![',']);
    let q = split(b, seq![',']);
    let all = p + q;
    if cron_field(a + ","@ + b, val, min, max) {
        let i = choose|i: int| 0 <= i < all.len() && cron_part(#[trigger] all[i], val, min, max);
        if i < p.len() {
            assert(cron_part(p[i], val, min, max));
        } else {
            assert(cron_part(q[i - p.len()], val, min, max));
        }
    }
    if cron_field(a, val, min, max) {
        let i = choose|i: int| 0 <= i < p.len() && cron_part(#[trigger] p[i], val, min, max);
        assert(cron_part(all[i], val, min, max));
    }
    if cron_field(b, val, min, max) {
        let i = choose|i: int| 0 <= i < q.len() && cron_part(#[trigger] q[i], val, min, max);
        assert(cron_part(all[p.len() + i], val, min, max));
    }
}

/// An expression holds a time only where each field holds its part of the time:
/// a field that is a single number, that number alone. So it holds a minute, an
/// hour and a month that are written out, and no other.
pub proof fn lemma_cron_numbers(
    expr: Seq<char>,
    minute: int,
    hour: int,
    dom: int,
    month: int,
    dow: int,
    n: nat,
)
    requires
        n <= u32::MAX,
        cron_holds(expr, minute, hour, dom, month, dow),
    ensures
        words(expr).len() == 5,
        words(expr)[0] == dec(n) ==> minute == n,
        words(expr)[1] == dec(n) ==> hour == n,
        words(expr)[3] == dec(n) ==> month == n,
        words(expr)[2] == dec(n) && words(expr)[4] == "*"@ ==> dom == n,
        words(expr)[4] == dec(n) && words(expr)[2] == "*"@ ==> dow == n,
{
    lemma_cron_parts(n, 0, 1, minute, 0, 59);
    lemma_cron_parts(n, 0, 1, hour, 0, 23);
    lemma_cron_parts(n, 0, 1, month, 1, 12);
    lemma_cron_parts(n, 0, 1, dom, 1, 31);
    lemma_cron_parts(n, 0, 1, dow, 0, 6);
}

/// A field that is a number, or a star where there is none.
pub open spec fn plain_field(n: Option<nat>) -> Seq<char> {
    match n {
        Some(n) => dec(n),
        None => "*"@,
    }
}

/// Five numbers of which some may be stars, with a space between them, hold
/// exactly the times whose minute, hour and month are the numbers given, on a day
/// that is given: where both the day of the month and the day of the week are,
/// either is enough.
pub proof fn lemma_cron_exact(
    expr: Seq<char>,
    fields: Seq<Option<nat>>,
    minute: int,
    hour: int,
    dom: int,
    month: int,
    dow: int,
)
    requires
        fields.len() == 5,
        forall|i: int| 0 <= i < 5 && (#[trigger] fields[i]) is Some ==> fields[i]->0 <= u32::MAX,
        words(expr) == fields.map_values(|n: Option<nat>| plain_field(n)),
        0 <= minute <= 59 && 0 <= hour <= 23 && 1 <= dom <= 31 && 1 <= month <= 12 && 0 <= dow <= 6,
    ensures
        cron_holds(expr, minute, hour, dom, month, dow) <==> {
            let right_dom = fields[2] is None || fields[2]->0 == dom;
            let right_dow = fields[4] is None || fields[4]->0 == dow;
            &&& fields[0] is None || fields[0]->0 == minute
            &&& fields[1] is None || fields[1]->0 == hour
            &&& fields[3] is None || fields[3]->0 == month
            &&& if fields[2] is Some && fields[4] is Some {
                right_dom || right_dow
            } else {
                right_dom && right_dow
            }
        },
{
    lemma_plain_field(fields[0], minute, 0, 59);
    lemma_plain_field(fields[1], hour, 0, 23);
    lemma_plain_field(fields[2], dom, 1, 31);
    lemma_plain_field(fields[3], month, 1, 12);
    lemma_plain_field(fields[4], dow, 0, 6);
}

/// Five fields that are numbers or stars, with a space between them, are the fields
/// of the expression that they make.
pub proof fn lemma_cron_written(fields: Seq<Option<nat>>)
    requires
        fields.len() == 5,
    ensures
        ({
            let parts = fields.map_values(|n: Option<nat>| plain_field(n));
            words(joined(parts, " "@)) == parts
        }),
{
    reveal_strlit(" ");
    reveal_strlit("*");
    assert(" "@ =~= seq![' ']);
    let parts = fields.map_values(|n: Option<nat>| plain_field(n));
    assert forall|i: int| 0 <= i < parts.len() implies (#[trigger] parts[i]).len() > 0 by {
        if let Some(n) = fields[i] {
            lemma_dec_value(n);
        }
    }
    assert forall|i: int, k: int| 0 <= i < parts.len() && 0 <= k < parts[i].len() implies !white_space(
        #[trigger] parts[i][k],
    ) by {
        if let Some(n) = fields[i] {
            lemma_dec_digits(n, k);
        }
    }
    lemma_words_read_back(parts);
}

proof fn lemma_plain_field(n: Option<nat>, val: int, min: int, max: int)
    requires
        n is Some ==> n->0 <= u32::MAX,
        min <= val <= max,
    ensures
        cron_field(plain_field(n), val, min, max) <==> n is None || n->0 == val,
        plain_field(n) == "*"@ <==> n is None,
{
    reveal_strlit("*");
    if let Some(n) = n {
        lemma_cron_parts(n, 0, 1, val, min, max);
        lemma_dec_value(n);
        lemma_dec_digits(n, 0);
    } else {
        lemma_cron_parts(0, 0, 1, val, min, max);
    }
}

/// An expression that does not have five fields holds no time. One that has
/// holds none whose minute, hour or month the field for it does not hold, nor one
/// on a day that neither of the two fields for it holds.
pub proof fn lemma_cron_refuses(
    expr: Seq<char>,
    minute: int,
    hour: int,
    dom: int,
    month: int,
    dow: int,
)
    requires
        words(expr).len() != 5 || !cron_field(words(expr)[0], minute, 0, 59) || !cron_field(
            words(expr)[1],
            hour,
            0,
            23,
        ) || !cron_field(words(expr)[3], month, 1, 12) || (!cron_field(words(expr)[2], dom, 1, 31)
            && !cron_field(words(expr)[4], dow, 0, 6)),
    ensures
        !cron_holds(expr, minute, hour, dom, month, dow),
{
}

proof fn lemma_apart(a: Seq<char>, sep: char, b: Seq<char>, c: char)
    requires
        !a.contains(c),
        !b.contains(c),
        sep != c,
    ensures
        !(a + seq![sep] + b).contains(c),
{
    let s = a + seq![sep] + b;
    if s.contains(c) {
        let i = choose|i: int| 0 <= i < s.len() && s[i] == c;
        if i < a.len() {
            assert(a[i] == c);
        } else if i > a.len() {
            assert(b[i - a.len() - 1] == c);
        }
    }
}

proof fn lemma_one_part(part: Seq<char>, val: int, min: int, max: int)
    requires
        !part.contains(','),
    ensures
        cron_field(part, val, min, max) <==> cron_part(part, val, min, max),
{
    lemma_split_single(part, ',');
    let parts = split(part, seq![',']);
    assert(parts[0] == part);
}

// ---------------------------------------------------------------------------
// Scenarios of a schedule
// ---------------------------------------------------------------------------

pub open spec fn scenario_list(ids: Seq<Seq<char>>, one: Seq<char>) -> Seq<Seq<char>> {
    if ids.len() > 0 {
        ids
    } else if one.len() == 0 {
        Seq::empty()
    } else {
        seq![one]
    }
}

/// The scenarios of a schedule: its list, or the single one of an older
/// schedule.
pub fn effective_scenario_ids(sch: &Schedule) -> (r: Vec<String>)
    ensures
        texts(r@) == scenario_list(texts(sch.scenario_ids@), sch.scenario_id@),
{
    if sch.scenario_ids.len() > 0 {
        copy_texts(&sch.scenario_ids)
    } else if sch.scenario_id.as_str().is_empty() {
        let r: Vec<String> = Vec::new();
        assert(texts(r@) =~= Seq::<Seq<char>>::empty());
        r
    } else {
        let mut r: Vec<String> = Vec::new();
        r.push(sch.scenario_id.clone());
        assert(texts(r@) =~= seq![sch.scenario_id@]);
        r
    }
}

// ---------------------------------------------------------------------------
// Shuffling
// ---------------------------------------------------------------------------

pub open spec fn swapped<T>(s: Seq<T>, i: int, j: int) -> Seq<T> {
    s.update(i, s[j]).update(j, s[i])
}

/// A Fisher-Yates shuffle of the places up to `i`: place `i` changes with the
/// place that its random number picks, then the places below it are shuffled.
pub open spec fn shuffled<T>(s: Seq<T>, draws: Seq<u64>, i: int) -> Seq<T>
    decreases i,
{
    if i <= 0 {
        s
    } else {
        shuffled(swapped(s, i, draws[i] as int % (i + 1)), draws, i - 1)
    }
}

/// A shuffle keeps the items, each as often as it was there.
pub proof fn lemma_shuffled<T>(s: Seq<T>, draws: Seq<u64>, i: int)
    requires
        i < s.len(),
    ensures
        shuffled(s, draws, i).to_multiset() == s.to_multiset(),
        shuffled(s, draws, i).len() == s.len(),
    decreases i,
{
    if i > 0 {
        let j = draws[i] as int % (i + 1);
        let t = swapped(s, i, j);
        vstd::seq_lib::to_multiset_update(s, i, s[j]);
        vstd::seq_lib::to_multiset_update(s.update(i, s[j]), j, s[i]);
        assert(s.to_multiset().count(s[i]) > 0 && s.to_multiset().count(s[j]) > 0) by {
            s.to_multiset_ensures();
            assert(s.contains(s[i]));
            assert(s.contains(s[j]));
        }
        assert(t.to_multiset() =~= s.to_multiset());
        lemma_shuffled(t, draws, i - 1);
    }
}

fn swap_items<T>(items: &mut Vec<T>, i: usize, j: usize)
    requires
        j <= i < old(items)@.len(),
    ensures
        final(items)@ == swapped(old(items)@, i as int, j as int),
{
    let ghost s = items@;
    if j < i {
        let x = items.remove(i);
        let y = items.remove(j);
        items.insert(j, x);
        items.insert(i, y);
    }
    assert(items@ =~= swapped(s, i as int, j as int));
}

/// Shuffles the items by the given random numbers.
pub fn shuffle_with<T>(items: &mut Vec<T>, draws: &Vec<u64>)
    requires
        draws@.len() >= old(items)@.len(),
    ensures
        final(items)@ == shuffled(old(items)@, draws@, old(items)@.len() - 1),
        final(items)@.to_multiset() == old(items)@.to_multiset(),
{
    let ghost s = items@;
    let n: usize = items.len();
    proof {
        lemma_shuffled(s, draws@, s.len() - 1);
    }
    if n < 2 {
        return ;
    }
    let mut i: usize = n - 1;
    while i > 0
        invariant
            i < n,
            n == items@.len(),
            n <= draws@.len(),
            shuffled(s, draws@, s.len() - 1) == shuffled(items@, draws@, i as int),
        decreases i,
    {
        let j: usize = pick(draws[i], i + 1);
        swap_items(items, i, j);
        i = i - 1;
    }
}

/// Shuffles the items. Every item stays, as often as it was there.
pub fn shuffle_in_place<T>(items: &mut Vec<T>)
    ensures
        final(items)@.to_multiset() == old(items)@.to_multiset(),
        exists|draws: Seq<u64>|
            final(items)@ == #[trigger] shuffled(old(items)@, draws, old(items)@.len() - 1),
{
    let draws = draw(items.len());
    shuffle_with(items, &draws);
}

impl ProfileAssignment {
    /// A copy with another profile as the one that was used last.
    pub fn with_last_used(&self, last: &Option<String>) -> (r: ProfileAssignment)
        ensures
            r@ == (AssignmentView { last_used_profile_id: opt_text(*last), ..self@ }),
    {
        ProfileAssignment {
            schedule_id: self.schedule_id.clone(),
            profile_ids: copy_texts(&self.profile_ids),
            group_ids: copy_texts(&self.group_ids),
            rotation_mode: self.rotation_mode,
            max_parallel: self.max_parallel,
            cooldown_minutes: self.cooldown_minutes,
            last_used_profile_id: copy_opt(last),
            run_headless: self.run_headless,
        }
    }
}

// ---------------------------------------------------------------------------
// What schedules and assignments hold
// ---------------------------------------------------------------------------

pub struct ScheduleView {
    pub id: Seq<char>,
    pub scenario_id: Seq<char>,
    pub scenario_ids: Seq<Seq<char>>,
    pub name: Seq<char>,
    pub enabled: bool,
    pub trigger_type: TriggerType,
    pub cron_expr: Option<Seq<char>>,
    pub interval_minutes: Option<u64>,
    pub timezone: Option<Seq<char>>,
    pub time_window_start: Option<Seq<char>>,
    pub time_window_end: Option<Seq<char>>,
    pub max_runs_per_day: Option<u32>,
}

impl Schedule {
    pub open spec fn view(&self) -> ScheduleView {
        ScheduleView {
            id: self.id@,
            scenario_id: self.scenario_id@,
            scenario_ids: texts(self.scenario_ids@),
            name: self.name@,
            enabled: self.enabled,
            trigger_type: self.trigger_type,
            cron_expr: opt_text(self.cron_expr),
            interval_minutes: self.interval_minutes,
            timezone: opt_text(self.timezone),
            time_window_start: opt_text(self.time_window_start),
            time_window_end: opt_text(self.time_window_end),
            max_runs_per_day: self.max_runs_per_day,
        }
    }

    /// A copy of the schedule.
    pub fn copy(&self) -> (r: Schedule)
        ensures
            r@ == self@,
    {
        Schedule {
            id: self.id.clone(),
            scenario_id: self.scenario_id.clone(),
            scenario_ids: copy_texts(&self.scenario_ids),
            name: self.name.clone(),
            enabled: self.enabled,
            trigger_type: self.trigger_type,
            cron_expr: copy_opt(&self.cron_expr),
            interval_minutes: self.interval_minutes,
            timezone: copy_opt(&self.timezone),
            time_window_start: copy_opt(&self.time_window_start),
            time_window_end: copy_opt(&self.time_window_end),
            max_runs_per_day: self.max_runs_per_day,
        }
    }
}

pub struct AssignmentView {
    pub schedule_id: Seq<char>,
    pub profile_ids: Seq<Seq<char>>,
    pub group_ids: Seq<Seq<char>>,
    pub rotation_mode: RotationMode,
    pub max_parallel: usize,
    pub cooldown_minutes: u64,
    pub last_used_profile_id: Option<Seq<char>>,
    pub run_headless: bool,
}

impl ProfileAssignment {
    pub open spec fn view(&self) -> AssignmentView {
        AssignmentView {
            schedule_id: self.schedule_id@,
            profile_ids: texts(self.profile_ids@),
            group_ids: texts(self.group_ids@),
            rotation_mode: self.rotation_mode,
            max_parallel: self.max_parallel,
            cooldown_minutes: self.cooldown_minutes,
            last_used_profile_id: opt_text(self.last_used_profile_id),
            run_headless: self.run_headless,
        }
    }

    /// A copy of the assignment.
    pub fn copy(&self) -> (r: ProfileAssignment)
        ensures
            r@ == self@,
    {
        self.with_last_used(&self.last_used_profile_id)
    }
}

} // verus!
