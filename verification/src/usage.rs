//! How often profiles were used: the runs of the last 24 hours.
use vstd::prelude::*;

use crate::clock::{read_rfc3339, rfc3339_secs};
use crate::map::{lemma_lookup_put, put, TextMap};
use crate::scheduler::used;
use crate::store::{RunRowView, ScenarioStore};

verus! {

/// A run that was started: on which profile, and when, in seconds; no time
/// where it is not known.
#[derive(Debug, PartialEq, Eq)]
pub struct RunStart {
    pub profile_id: String,
    pub secs: Option<i64>,
}

pub struct StartView {
    pub profile_id: Seq<char>,
    pub secs: Option<i64>,
}

impl RunStart {
    pub open spec fn view(&self) -> StartView {
        StartView { profile_id: self.profile_id@, secs: self.secs }
    }
}

pub open spec fn starts_of(v: Seq<RunStart>) -> Seq<StartView> {
    v.map_values(|s: RunStart| s@)
}

/// Whether a time lies within the 24 hours before the clock.
pub open spec fn is_recent(secs: Option<i64>, epoch: u64) -> bool {
    match secs {
        Some(t) => t <= epoch <= t + 86400,
        None => false,
    }
}

/// How many of the first `n` runs were started on the profile within the last
/// 24 hours.
pub open spec fn recent_runs(v: Seq<StartView>, p: Seq<char>, epoch: u64, n: int) -> nat
    decreases n,
{
    if n <= 0 {
        0
    } else {
        recent_runs(v, p, epoch, n - 1) + if v[n - 1].profile_id == p && is_recent(
            v[n - 1].secs,
            epoch,
        ) {
            1nat
        } else {
            0nat
        }
    }
}

/// One more, unless the counter is full.
pub open spec fn one_more(n: u32) -> u32 {
    if n == u32::MAX {
        n
    } else {
        (n + 1) as u32
    }
}

/// The profiles that the first `n` runs were started on within the last 24
/// hours, with how many of them.
pub open spec fn usage(v: Seq<StartView>, epoch: u64, n: int) -> Seq<(Seq<char>, u32)>
    decreases n,
{
    if n <= 0 {
        Seq::empty()
    } else {
        let before = usage(v, epoch, n - 1);
        let s = v[n - 1];
        if is_recent(s.secs, epoch) {
            put(before, s.profile_id, one_more(used(before, s.profile_id)))
        } else {
            before
        }
    }
}

/// The count of a profile is the number of its runs within the last 24 hours,
/// as far as the counter reaches.
pub proof fn lemma_usage_counts(v: Seq<StartView>, p: Seq<char>, epoch: u64, n: int)
    requires
        n <= v.len(),
    ensures
        used(usage(v, epoch, n), p) == if recent_runs(v, p, epoch, n) <= u32::MAX {
            recent_runs(v, p, epoch, n) as u32
        } else {
            u32::MAX
        },
    decreases n,
{
    if n > 0 {
        lemma_usage_counts(v, p, epoch, n - 1);
        let before = usage(v, epoch, n - 1);
        let s = v[n - 1];
        lemma_lookup_put(
            before,
            s.profile_id,
            one_more(used(before, s.profile_id)),
            p,
        );
    }
}

/// How often each profile was used, given when the runs were started.
pub fn count_runs(v: &Vec<RunStart>, epoch: u64) -> (r: TextMap<u32>)
    ensures
        r@ == usage(starts_of(v@), epoch, v@.len() as int),
{
    let ghost all = starts_of(v@);
    let mut out: TextMap<u32> = TextMap::new();
    let mut i: usize = 0;
    while i < v.len()
        invariant
            i <= v@.len(),
            all == starts_of(v@),
            out@ == usage(all, epoch, i as int),
        decreases v@.len() - i,
    {
        assert(all[i as int] == v@[i as int]@);
        let recent: bool = match v[i].secs {
            Some(t) => {
                let at: i128 = t as i128;
                let now: i128 = epoch as i128;
                at <= now && now <= at + 86400
            },
            None => false,
        };
        if recent {
            let n: u32 = match out.get(v[i].profile_id.as_str()) {
                Some(n) => *n,
                None => 0,
            };
            let more: u32 = if n == u32::MAX {
                n
            } else {
                n + 1
            };
            out.insert(v[i].profile_id.clone(), more);
        }
        i = i + 1;
    }
    out
}

/// When the runs of a history were started.
pub open spec fn run_starts(runs: Seq<(Seq<char>, RunRowView)>) -> Seq<StartView> {
    runs.map_values(
        |e: (Seq<char>, RunRowView)|
            StartView { profile_id: e.1.profile_id, secs: rfc3339_secs(e.1.started_at) },
    )
}

/// How often each profile was used within the 24 hours before the clock, by
/// the history of runs.
pub open spec fn usage_in(runs: Seq<(Seq<char>, RunRowView)>, epoch: u64) -> Seq<
    (Seq<char>, u32),
> {
    usage(run_starts(runs), epoch, runs.len() as int)
}

impl ScenarioStore {
    /// When the runs were started.
    pub fn started_runs(&self) -> (r: Vec<RunStart>)
        ensures
            starts_of(r@) == run_starts(self@.runs),
    {
        let ghost want = run_starts(self@.runs);
        let mut out: Vec<RunStart> = Vec::new();
        let mut i: usize = 0;
        while i < self.runs.len()
            invariant
                i <= self.runs@.len(),
                want == run_starts(self@.runs),
                want.len() == self.runs@.len(),
                starts_of(out@) =~= want.take(i as int),
            decreases self.runs@.len() - i,
        {
            let row = self.runs.value_at(i);
            assert(self@.runs[i as int].1 == row@);
            let x = RunStart {
                profile_id: row.profile_id.clone(),
                secs: read_rfc3339(row.started_at.as_str()),
            };
            let ghost before = starts_of(out@);
            out.push(x);
            assert(starts_of(out@) =~= before.push(x@));
            i = i + 1;
        }
        assert(want.take(want.len() as int) =~= want);
        out
    }

    /// How often each profile was used within the 24 hours before the clock.
    pub fn recent_usage(&self, epoch: u64) -> (r: TextMap<u32>)
        ensures
            r@ == usage_in(self@.runs, epoch),
    {
        let v = self.started_runs();
        assert(starts_of(v@).len() == v@.len());
        count_runs(&v, epoch)
    }
}

/// With one more run, a profile has one more recent run exactly where the run was on
/// it and is recent.
pub proof fn lemma_recent_runs(v: Seq<StartView>, s: StartView, p: Seq<char>, epoch: u64)
    ensures
        recent_runs(v, p, epoch, 0) == 0,
        recent_runs(v.push(s), p, epoch, v.len() as int + 1) == recent_runs(
            v,
            p,
            epoch,
            v.len() as int,
        ) + if s.profile_id == p && s.secs is Some && s.secs->0 <= epoch && epoch - s.secs->0
            <= 86400 {
            1nat
        } else {
            0
        },
{
    lemma_recent_front(v, s, p, epoch, v.len() as int);
    assert(v.push(s)[v.len() as int] == s);
}

proof fn lemma_recent_front(v: Seq<StartView>, s: StartView, p: Seq<char>, epoch: u64, n: int)
    requires
        n <= v.len(),
    ensures
        recent_runs(v.push(s), p, epoch, n) == recent_runs(v, p, epoch, n),
    decreases n,
{
    if n > 0 {
        lemma_recent_front(v, s, p, epoch, n - 1);
        assert(v.push(s)[n - 1] == v[n - 1]);
    }
}

/// Of each run that is kept, the profile and the time that it started are counted.
pub proof fn lemma_run_starts(runs: Seq<(Seq<char>, RunRowView)>, i: int)
    requires
        0 <= i < runs.len(),
    ensures
        run_starts(runs).len() == runs.len(),
        run_starts(runs)[i].profile_id == runs[i].1.profile_id,
        run_starts(runs)[i].secs == rfc3339_secs(runs[i].1.started_at),
{
}

} // verus!
