//! The steps of a memory-hog scenario.
//!
//! A session says what to do next and is told what came of it. It takes down
//! each run in its [`MemHog`] as soon as the run is over, so what was recorded
//! before a failure stays recorded.

use vstd::prelude::*;

use crate::error::Error;
use crate::mem_hog::{MemHog, MemHogRun};
use crate::monitor::{BanditMemHogReport, HogMonitor, MonitorView, Sighting};
use crate::speed::MemHogSpeed;

verus! {

/// For how long the workload is held at its load before the hog starts. These
/// periods keep the runs apart and give the baseline.
pub const STABLE_HOLD_SECS: u64 = 15;

/// For how long a hog is watched at most.
pub const TIMEOUT_SECS: u64 = 600;

/// For how long a hog is watched at most in a test run.
pub const TEST_TIMEOUT_SECS: u64 = 10;

/// What a session waits for.
#[derive(Clone, Copy, Debug, PartialEq, Eq, Structural)]
pub enum Phase {
    Start,
    WarmUp,
    Hold,
    StartHog,
    Watch,
    ReadLast,
    StopHog,
    Finish,
    Done,
    Failed,
}

/// What is to be done next.
#[derive(Clone, Copy, Debug, PartialEq, Eq, Structural)]
pub enum Action {
    /// Bring the workload to its load.
    WarmUp,
    /// Hold it there.
    Hold { secs: u64 },
    /// Start a memory hog.
    StartHog { speed: MemHogSpeed },
    /// Watch the hog until it dies, for no longer than given.
    Watch { secs: u64 },
    /// Go on watching.
    KeepWatching,
    /// Read the last report of the hog.
    ReadLastReport,
    /// Stop the hog.
    StopHog,
    /// Read the clock for the end of the scenario.
    NoteEnd,
    /// Nothing is left to do.
    Done,
}

/// What came of an action.
#[derive(Clone, Copy, Debug, PartialEq, Eq, Structural)]
pub enum Event {
    Started { now: u64 },
    WarmedUp { now: u64 },
    Held { now: u64 },
    HogStarted,
    Status { seen: Option<Sighting> },
    WatchOver,
    LastReport { rep: BanditMemHogReport },
    HogStopped { now: u64 },
    Ended { now: u64 },
}

/// How far a scenario has come.
#[derive(Debug)]
pub struct HogSession {
    pub phase: Phase,
    /// How many runs are over.
    pub run_idx: u32,
    /// The run under way, as far as it is known.
    pub run: MemHogRun,
    pub monitor: HogMonitor,
    /// Whether this is a test run.
    pub test: bool,
}

/// A run of which nothing is known.
pub open spec fn blank_run() -> MemHogRun {
    let rep = BanditMemHogReport { timestamp: 0, wbytes: 0, wloss: 0 };
    MemHogRun {
        stable_at: 0,
        hog_started_at: 0,
        hog_ended_at: 0,
        first_hog_rep: rep,
        last_hog_rep: rep,
        last_hog_mem: 0,
    }
}

/// A session together with what its scenario has recorded.
pub struct RunState {
    pub phase: Phase,
    pub run_idx: u32,
    pub run: MemHogRun,
    pub monitor: MonitorView,
    pub test: bool,
    pub loops: u32,
    pub speed: MemHogSpeed,
    pub main_period: (u64, u64),
    pub runs: Seq<MemHogRun>,
}

/// The state of a session of a scenario.
pub open spec fn state_of<F>(session: HogSession, hog: MemHog<F>) -> RunState {
    RunState {
        phase: session.phase,
        run_idx: session.run_idx,
        run: session.run,
        monitor: session.monitor@,
        test: session.test,
        loops: hog.loops,
        speed: hog.speed,
        main_period: hog.main_period,
        runs: hog.runs@,
    }
}

impl RunState {
    /// A session that has not begun.
    pub open spec fn fresh(self) -> bool {
        self.phase == Phase::Start && self.run_idx == 0
    }

    /// A run is under way.
    pub open spec fn in_run(self) -> bool {
        match self.phase {
            Phase::WarmUp | Phase::Hold | Phase::StartHog | Phase::Watch | Phase::ReadLast | Phase::StopHog => true,
            _ => false,
        }
    }

    /// There is a run under way only while runs are left.
    pub open spec fn wf(self) -> bool {
        self.in_run() ==> self.run_idx < self.loops
    }

    /// An event is what the session waits for. When the last report of a hog
    /// comes, the hog's average size can be told.
    pub open spec fn accepts(self, event: Event) -> bool {
        match (self.phase, event) {
            (Phase::Start, Event::Started { .. }) => true,
            (Phase::WarmUp, Event::WarmedUp { .. }) => true,
            (Phase::Hold, Event::Held { .. }) => true,
            (Phase::StartHog, Event::HogStarted) => true,
            (Phase::Watch, Event::Status { .. }) => true,
            (Phase::Watch, Event::WatchOver) => true,
            (Phase::ReadLast, Event::LastReport { .. }) => self.monitor.averages(),
            (Phase::StopHog, Event::HogStopped { .. }) => true,
            (Phase::Finish, Event::Ended { .. }) => true,
            _ => false,
        }
    }

    /// The hog has been watched to its end and was never seen to swap.
    pub open spec fn fails(self, event: Event) -> bool {
        event == Event::WatchOver && self.monitor.first is None
    }

    /// The state before the next run, or before the end when none is left.
    pub open spec fn to_next_run(self) -> RunState {
        RunState { phase: if self.run_idx < self.loops { Phase::WarmUp } else { Phase::Finish }, ..self }
    }

    /// The state after an event.
    pub open spec fn after(self, event: Event) -> RunState {
        match event {
            Event::Started { now } => (RunState { main_period: (now, self.main_period.1), ..self }).to_next_run(),
            Event::WarmedUp { now } => RunState {
                phase: Phase::Hold,
                run: MemHogRun { stable_at: now, ..self.run },
                ..self
            },
            Event::Held { now } => RunState {
                phase: Phase::StartHog,
                run: MemHogRun { hog_started_at: now, ..self.run },
                ..self
            },
            Event::HogStarted => RunState { phase: Phase::Watch, monitor: MonitorView::empty(), ..self },
            Event::Status { seen } => RunState { monitor: self.monitor.after(seen, self.test), ..self },
            Event::WatchOver => match self.monitor.first {
                Some(rep) => RunState {
                    phase: Phase::ReadLast,
                    run: MemHogRun { first_hog_rep: rep, ..self.run },
                    ..self
                },
                None => RunState { phase: Phase::Failed, ..self },
            },
            Event::LastReport { rep } => RunState {
                phase: Phase::StopHog,
                run: MemHogRun { last_hog_rep: rep, last_hog_mem: self.monitor.average() as usize, ..self.run },
                ..self
            },
            Event::HogStopped { now } => {
                let run = MemHogRun { hog_ended_at: now, ..self.run };
                (RunState { run, run_idx: (self.run_idx + 1) as u32, runs: self.runs.push(run), ..self }).to_next_run()
            },
            Event::Ended { now } => RunState {
                phase: Phase::Done,
                main_period: (self.main_period.0, now),
                ..self
            },
        }
    }

    /// What is to be done in a phase. A hog under watch stays so.
    pub open spec fn action(self, event: Event) -> Action {
        match self.phase {
            Phase::WarmUp => Action::WarmUp,
            Phase::Hold => Action::Hold { secs: STABLE_HOLD_SECS },
            Phase::StartHog => Action::StartHog { speed: self.speed },
            Phase::Watch => if event == Event::HogStarted {
                Action::Watch { secs: if self.test { TEST_TIMEOUT_SECS } else { TIMEOUT_SECS } }
            } else {
                Action::KeepWatching
            },
            Phase::ReadLast => Action::ReadLastReport,
            Phase::StopHog => Action::StopHog,
            Phase::Finish => Action::NoteEnd,
            _ => Action::Done,
        }
    }
}

impl HogSession {
    /// A session that has not begun.
    pub fn new(test: bool) -> (r: Self)
        ensures
            r.phase == Phase::Start,
            r.run_idx == 0,
            r.run == blank_run(),
            r.monitor@ == MonitorView::empty(),
            r.test == test,
    {
        let rep = BanditMemHogReport { timestamp: 0, wbytes: 0, wloss: 0 };
        HogSession {
            phase: Phase::Start,
            run_idx: 0,
            run: MemHogRun {
                stable_at: 0,
                hog_started_at: 0,
                hog_ended_at: 0,
                first_hog_rep: rep,
                last_hog_rep: rep,
                last_hog_mem: 0,
            },
            monitor: HogMonitor::new(),
            test,
        }
    }

    /// Goes on to the next run, or to the end when none is left.
    fn next_run<F>(&mut self, hog: &MemHog<F>) -> (r: Action)
        ensures
            state_of(*final(self), *hog) == state_of(*old(self), *hog).to_next_run(),
            r == (if old(self).run_idx < hog.loops { Action::WarmUp } else { Action::NoteEnd }),
    {
        if self.run_idx < hog.loops {
            self.phase = Phase::WarmUp;
            Action::WarmUp
        } else {
            self.phase = Phase::Finish;
            Action::NoteEnd
        }
    }
}

impl<F> MemHog<F> {
    /// Takes in what came of the last action and says what to do next. The
    /// scenario fails if a hog was watched to its end and never seen to swap.
    pub fn advance(&mut self, session: &mut HogSession, event: Event) -> (r: Result<Action, Error>)
        requires
            state_of(*old(session), *old(self)).wf(),
            state_of(*old(session), *old(self)).accepts(event),
        ensures
            state_of(*final(session), *final(self)) == state_of(*old(session), *old(self)).after(event),
            state_of(*final(session), *final(self)).wf(),
            final(self).load == old(self).load,
            match r {
                Ok(action) => !state_of(*old(session), *old(self)).fails(event) && action == state_of(
                    *final(session),
                    *final(self),
                ).action(event),
                Err(e) => state_of(*old(session), *old(self)).fails(event) && e == Error::SwapStayedZero,
            },
    {
        match event {
            Event::Started { now } => {
                self.main_period = (now, self.main_period.1);
                Ok(session.next_run(self))
            },
            Event::WarmedUp { now } => {
                session.run.stable_at = now;
                session.phase = Phase::Hold;
                Ok(Action::Hold { secs: STABLE_HOLD_SECS })
            },
            Event::Held { now } => {
                session.run.hog_started_at = now;
                session.phase = Phase::StartHog;
                Ok(Action::StartHog { speed: self.speed })
            },
            Event::HogStarted => {
                session.monitor = HogMonitor::new();
                session.phase = Phase::Watch;
                Ok(Action::Watch { secs: if session.test { TEST_TIMEOUT_SECS } else { TIMEOUT_SECS } })
            },
            Event::Status { seen } => {
                let test = session.test;
                session.monitor.observe(seen, test);
                Ok(Action::KeepWatching)
            },
            Event::WatchOver => match session.monitor.first_hog_rep {
                Some(rep) => {
                    session.run.first_hog_rep = rep;
                    session.phase = Phase::ReadLast;
                    Ok(Action::ReadLastReport)
                },
                None => {
                    session.phase = Phase::Failed;
                    Err(Error::SwapStayedZero)
                },
            },
            Event::LastReport { rep } => {
                session.run.last_hog_rep = rep;
                session.run.last_hog_mem = session.monitor.last_hog_mem();
                session.phase = Phase::StopHog;
                Ok(Action::StopHog)
            },
            Event::HogStopped { now } => {
                session.run.hog_ended_at = now;
                self.runs.push(session.run);
                session.run_idx = session.run_idx + 1;
                Ok(session.next_run(self))
            },
            Event::Ended { now } => {
                self.main_period = (self.main_period.0, now);
                session.phase = Phase::Done;
                Ok(Action::Done)
            },
        }
    }
}

} // verus!
