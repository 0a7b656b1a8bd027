//! Scenarios on one profile: launching its browser where it does not run, the
//! scenarios one after the other, and closing what was launched.
use vstd::prelude::*;

use crate::chance::draw;
use crate::model::{Scenario, ScenarioView};
use crate::scheduler::{lemma_shuffled, shuffle_with, shuffled, swapped};
use crate::tick::{scenarios_of, ProfileStart, ProfileStartView};

verus! {

/// How far it has come.
#[derive(Debug, PartialEq, Eq, Clone, Copy, Structural)]
pub enum LaunchPhase {
    Start,
    Launching,
    /// The browser is given time to open its port.
    Settling,
    Running,
    Closing,
    Over,
}

/// The scenarios on one profile. `launched` says that the browser was launched
/// for them.
pub struct ProfileRun {
    pub queue: Vec<Scenario>,
    pub next: usize,
    pub launched: bool,
    pub phase: LaunchPhase,
}

pub struct ProfileRunView {
    pub queue: Seq<ScenarioView>,
    pub next: int,
    pub launched: bool,
    pub phase: LaunchPhase,
}

impl ProfileRun {
    pub open spec fn view(&self) -> ProfileRunView {
        ProfileRunView {
            queue: scenarios_of(self.queue@),
            next: self.next as int,
            launched: self.launched,
            phase: self.phase,
        }
    }
}

/// What came back.
pub enum LaunchEvent {
    /// What is known of the profile.
    Begun { start: ProfileStart },
    Launched { ok: bool },
    Settled,
    Ran,
    Closed,
}

pub enum LaunchEventView {
    Begun { start: ProfileStartView },
    Launched { ok: bool },
    Settled,
    Ran,
    Closed,
}

impl LaunchEvent {
    pub open spec fn view(&self) -> LaunchEventView {
        match self {
            LaunchEvent::Begun { start } => LaunchEventView::Begun { start: start@ },
            LaunchEvent::Launched { ok } => LaunchEventView::Launched { ok: *ok },
            LaunchEvent::Settled => LaunchEventView::Settled,
            LaunchEvent::Ran => LaunchEventView::Ran,
            LaunchEvent::Closed => LaunchEventView::Closed,
        }
    }
}

/// What to do next.
pub enum LaunchAction {
    /// Launch the browser of the profile.
    Launch,
    /// Wait for so many seconds.
    Settle { secs: u64 },
    Run { scenario: Scenario },
    /// Close the browser of the profile.
    Close,
    Over,
}

pub enum LaunchActionView {
    Launch,
    Settle { secs: u64 },
    Run { scenario: ScenarioView },
    Close,
    Over,
}

impl LaunchAction {
    pub open spec fn view(&self) -> LaunchActionView {
        match self {
            LaunchAction::Launch => LaunchActionView::Launch,
            LaunchAction::Settle { secs } => LaunchActionView::Settle { secs: *secs },
            LaunchAction::Run { scenario } => LaunchActionView::Run { scenario: scenario@ },
            LaunchAction::Close => LaunchActionView::Close,
            LaunchAction::Over => LaunchActionView::Over,
        }
    }
}

pub open spec fn launch_seen(r: (ProfileRun, LaunchAction)) -> (ProfileRunView, LaunchActionView) {
    (r.0@, r.1@)
}

impl ProfileRunView {
    pub open spec fn to(self, phase: LaunchPhase, a: LaunchActionView) -> (
        ProfileRunView,
        LaunchActionView,
    ) {
        (ProfileRunView { phase, ..self }, a)
    }

    /// The next scenario, or the end.
    pub open spec fn go_on(self) -> (ProfileRunView, LaunchActionView) {
        if self.next < self.queue.len() {
            (
                ProfileRunView { next: self.next + 1, phase: LaunchPhase::Running, ..self },
                LaunchActionView::Run { scenario: self.queue[self.next] },
            )
        } else if self.launched {
            self.to(LaunchPhase::Closing, LaunchActionView::Close)
        } else {
            self.to(LaunchPhase::Over, LaunchActionView::Over)
        }
    }

    /// What comes next. What does not belong where it has come to ends it.
    pub open spec fn step(self, ev: LaunchEventView) -> (ProfileRunView, LaunchActionView) {
        match (self.phase, ev) {
            (LaunchPhase::Start, LaunchEventView::Begun { start }) => match start {
                ProfileStartView::Running => self.go_on(),
                ProfileStartView::Launch => self.to(
                    LaunchPhase::Launching,
                    LaunchActionView::Launch,
                ),
                _ => self.to(LaunchPhase::Over, LaunchActionView::Over),
            },
            (LaunchPhase::Launching, LaunchEventView::Launched { ok }) => if ok {
                ProfileRunView { launched: true, ..self }.to(
                    LaunchPhase::Settling,
                    LaunchActionView::Settle { secs: 3 },
                )
            } else {
                self.to(LaunchPhase::Over, LaunchActionView::Over)
            },
            (LaunchPhase::Settling, LaunchEventView::Settled) => self.go_on(),
            (LaunchPhase::Running, LaunchEventView::Ran) => self.go_on(),
            _ => self.to(LaunchPhase::Over, LaunchActionView::Over),
        }
    }
}

proof fn lemma_shuffled_views(s: Seq<Scenario>, draws: Seq<u64>, i: int)
    requires
        i < s.len(),
    ensures
        scenarios_of(shuffled(s, draws, i)) == shuffled(scenarios_of(s), draws, i),
    decreases i,
{
    if i > 0 {
        let j = draws[i] as int % (i + 1);
        let t = swapped(s, i, j);
        assert(scenarios_of(t) =~= swapped(scenarios_of(s), i, j));
        lemma_shuffled_views(t, draws, i - 1);
    }
}

fn copy_scenarios(v: &Vec<Scenario>) -> (r: Vec<Scenario>)
    ensures
        scenarios_of(r@) == scenarios_of(v@),
{
    let mut out: Vec<Scenario> = Vec::new();
    let mut i: usize = 0;
    while i < v.len()
        invariant
            i <= v@.len(),
            scenarios_of(out@) =~= scenarios_of(v@).take(i as int),
        decreases v@.len() - i,
    {
        let ghost before = out@;
        let x = v[i].copy();
        out.push(x);
        assert(scenarios_of(out@) =~= scenarios_of(before).push(x@));
        i = i + 1;
    }
    assert(scenarios_of(v@).take(v@.len() as int) =~= scenarios_of(v@));
    out
}

/// The scenarios in the order of a shuffle.
pub open spec fn queued(scenarios: Seq<ScenarioView>, draws: Seq<u64>) -> ProfileRunView {
    ProfileRunView {
        queue: shuffled(scenarios, draws, scenarios.len() - 1),
        next: 0,
        launched: false,
        phase: LaunchPhase::Start,
    }
}

impl ProfileRun {
    /// The scenarios in the order that the given random numbers make.
    pub fn new_with(scenarios: &Vec<Scenario>, draws: &Vec<u64>) -> (r: ProfileRun)
        requires
            draws@.len() >= scenarios@.len(),
        ensures
            r@ == queued(scenarios_of(scenarios@), draws@),
    {
        let mut queue = copy_scenarios(scenarios);
        proof {
            assert(scenarios_of(queue@).len() == scenarios_of(scenarios@).len());
            lemma_shuffled_views(queue@, draws@, queue@.len() - 1);
        }
        shuffle_with(&mut queue, draws);
        ProfileRun { queue, next: 0, launched: false, phase: LaunchPhase::Start }
    }

    /// The scenarios in a random order.
    pub fn new(scenarios: &Vec<Scenario>) -> (r: ProfileRun)
        ensures
            exists|draws: Seq<u64>| r@ == #[trigger] queued(scenarios_of(scenarios@), draws),
            r@.queue.to_multiset() == scenarios_of(scenarios@).to_multiset(),
    {
        let draws = draw(scenarios.len());
        proof {
            lemma_shuffled(scenarios_of(scenarios@), draws@, scenarios@.len() - 1);
        }
        ProfileRun::new_with(scenarios, &draws)
    }

    fn to(self, phase: LaunchPhase, a: LaunchAction) -> (r: (ProfileRun, LaunchAction))
        ensures
            launch_seen(r) == self@.to(phase, a@),
    {
        let mut run = self;
        run.phase = phase;
        (run, a)
    }

    fn go_on(self) -> (r: (ProfileRun, LaunchAction))
        ensures
            launch_seen(r) == self@.go_on(),
    {
        let mut run = self;
        assert(run@.queue.len() == run.queue@.len());
        if run.next < run.queue.len() {
            let scenario = run.queue[run.next].copy();
            run.next = run.next + 1;
            run.phase = LaunchPhase::Running;
            (run, LaunchAction::Run { scenario })
        } else if run.launched {
            run.to(LaunchPhase::Closing, LaunchAction::Close)
        } else {
            run.to(LaunchPhase::Over, LaunchAction::Over)
        }
    }

    /// The next step.
    pub fn launch_run_close_profiles(self, ev: LaunchEvent) -> (r: (ProfileRun, LaunchAction))
        ensures
            launch_seen(r) == self@.step(ev@),
    {
        match (self.phase, ev) {
            (LaunchPhase::Start, LaunchEvent::Begun { start }) => match start {
                ProfileStart::Running => self.go_on(),
                ProfileStart::Launch => self.to(LaunchPhase::Launching, LaunchAction::Launch),
                _ => self.to(LaunchPhase::Over, LaunchAction::Over),
            },
            (LaunchPhase::Launching, LaunchEvent::Launched { ok }) => {
                if ok {
                    let mut run = self;
                    run.launched = true;
                    run.to(LaunchPhase::Settling, LaunchAction::Settle { secs: 3 })
                } else {
                    self.to(LaunchPhase::Over, LaunchAction::Over)
                }
            },
            (LaunchPhase::Settling, LaunchEvent::Settled) => self.go_on(),
            (LaunchPhase::Running, LaunchEvent::Ran) => self.go_on(),
            _ => self.to(LaunchPhase::Over, LaunchAction::Over),
        }
    }
}

// ---------------------------------------------------------------------------
// Laws
// ---------------------------------------------------------------------------

/// A browser is closed only where it was launched for the scenarios, and only
/// after the last of them; and none counts as launched but by a launch that
/// went well.
pub proof fn lemma_closes_its_own(s: ProfileRunView, ev: LaunchEventView)
    ensures
        s.step(ev).1 is Close ==> s.launched && s.next >= s.queue.len(),
        s.step(ev).0.launched && !s.launched ==> s.phase == LaunchPhase::Launching && ev
            == (LaunchEventView::Launched { ok: true }),
{
}

/// The state after the scenarios from the next one on have run.
pub open spec fn after_runs(s: ProfileRunView, n: nat) -> (ProfileRunView, LaunchActionView)
    decreases n,
{
    if n == 0 {
        s.go_on()
    } else {
        after_runs(s, (n - 1) as nat).0.step(LaunchEventView::Ran)
    }
}

/// The scenarios run in the order of the queue, each of them once; then the
/// browser is closed where it was launched, and else left open.
pub proof fn lemma_runs_all(s: ProfileRunView, n: nat)
    requires
        s.next == 0,
        n <= s.queue.len(),
    ensures
        n < s.queue.len() ==> after_runs(s, n).1 == (LaunchActionView::Run {
            scenario: s.queue[n as int],
        }),
        n == s.queue.len() ==> after_runs(s, n).1 == (if s.launched {
            LaunchActionView::Close
        } else {
            LaunchActionView::Over
        }),
    decreases n,
{
    lemma_after_runs(s, n);
}

proof fn lemma_after_runs(s: ProfileRunView, n: nat)
    requires
        s.next == 0,
        n <= s.queue.len(),
    ensures
        n < s.queue.len() ==> after_runs(s, n) == (
            ProfileRunView { next: n as int + 1, phase: LaunchPhase::Running, ..s },
            LaunchActionView::Run { scenario: s.queue[n as int] },
        ),
        n == s.queue.len() ==> after_runs(s, n).1 == (if s.launched {
            LaunchActionView::Close
        } else {
            LaunchActionView::Over
        }),
    decreases n,
{
    if n > 0 {
        lemma_after_runs(s, (n - 1) as nat);
    }
}

/// A profile that runs already gets its first scenario at once; one that does not is
/// launched, given three seconds to settle, and then gets it. Where it is not there,
/// cannot be driven or does not launch, nothing runs and nothing is closed.
pub proof fn lemma_launch_begins(s: ProfileRunView, browser: Seq<char>)
    requires
        s.phase == LaunchPhase::Start,
        s.next == 0,
        s.queue.len() > 0,
        !s.launched,
    ensures
        ({
            let first = LaunchActionView::Run { scenario: s.queue[0] };
            let (t, a) = s.step(LaunchEventView::Begun { start: ProfileStartView::Launch });
            let (u, b) = t.step(LaunchEventView::Launched { ok: true });
            let (w, c) = u.step(LaunchEventView::Settled);
            &&& s.step(LaunchEventView::Begun { start: ProfileStartView::Running }).1 == first
            &&& !s.step(LaunchEventView::Begun { start: ProfileStartView::Running }).0.launched
            &&& a is Launch
            &&& b == (LaunchActionView::Settle { secs: 3 })
            &&& c == first
            &&& w.launched
            &&& t.step(LaunchEventView::Launched { ok: false }).1 is Over
            &&& s.step(LaunchEventView::Begun { start: ProfileStartView::NotFound }).1 is Over
            &&& s.step(
                LaunchEventView::Begun { start: ProfileStartView::Unsupported { browser } },
            ).1 is Over
        }),
{
}

/// The scenarios that are queued are those that were given, each as often as it was
/// given, in whatever order chance puts them.
pub proof fn lemma_queued(scenarios: Seq<ScenarioView>, draws: Seq<u64>)
    requires
        scenarios.len() > 0,
    ensures
        queued(scenarios, draws).queue.to_multiset() == scenarios.to_multiset(),
        queued(scenarios, draws).queue.len() == scenarios.len(),
        queued(scenarios, draws).next == 0,
        !queued(scenarios, draws).launched,
{
    crate::scheduler::lemma_shuffled(scenarios, draws, scenarios.len() - 1);
}

} // verus!
