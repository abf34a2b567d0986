//! What holds of every memory-hog scenario that is seen through.

use vstd::prelude::*;

use crate::mem_hog::MemHogRun;
use crate::monitor::{self, BanditMemHogReport, MonitorView, Sighting};
use crate::session::{Action, Event, Phase, RunState};

verus! {

/// The state after a number of events.
pub open spec fn replayed(start: RunState, events: Seq<Event>) -> RunState
    decreases events.len(),
{
    if events.len() == 0 {
        start
    } else {
        replayed(start, events.drop_last()).after(events.last())
    }
}

/// Each of the events was waited for when it came, and none was a failure.
pub open spec fn legal(start: RunState, events: Seq<Event>) -> bool
    decreases events.len(),
{
    events.len() > 0 ==> {
        let before = replayed(start, events.drop_last());
        &&& legal(start, events.drop_last())
        &&& before.accepts(events.last())
        &&& !before.fails(events.last())
    }
}

/// How often an action was called for.
pub open spec fn times(start: RunState, events: Seq<Event>, action: Action) -> nat
    decreases events.len(),
{
    if events.len() == 0 {
        0
    } else {
        times(start, events.drop_last(), action) + (if replayed(start, events).action(events.last()) == action {
            1nat
        } else {
            0nat
        })
    }
}

/// The reading of the clock that an event brings.
pub open spec fn clock(event: Event) -> Option<u64> {
    match event {
        Event::Started { now } => Some(now),
        Event::WarmedUp { now } => Some(now),
        Event::Held { now } => Some(now),
        Event::HogStopped { now } => Some(now),
        Event::Ended { now } => Some(now),
        _ => None,
    }
}

/// The clock is never set back.
pub open spec fn steady(events: Seq<Event>) -> bool {
    forall|i: int, j: int|
        0 <= i <= j < events.len() && (#[trigger] clock(events[i])) is Some && (#[trigger] clock(events[j])) is Some
            ==> clock(events[i])->0 <= clock(events[j])->0
}

/// `now` is no earlier than any reading of the clock.
pub open spec fn by_then(events: Seq<Event>, now: u64) -> bool {
    forall|i: int| 0 <= i < events.len() && (#[trigger] clock(events[i])) is Some ==> clock(events[i])->0 <= now
}

/// How far a scenario is: the runs from before it stand first and unchanged,
/// and behind them stands one for each time round.
pub open spec fn on_course(start: RunState, s: RunState) -> bool {
    &&& s.wf()
    &&& s.loops == start.loops
    &&& s.speed == start.speed
    &&& s.test == start.test
    &&& s.run_idx <= s.loops
    &&& s.runs.len() == start.runs.len() + s.run_idx
    &&& s.runs.take(start.runs.len() as int) == start.runs
    &&& s.phase == Phase::Start ==> s == start
    &&& s.phase == Phase::Finish || s.phase == Phase::Done ==> s.run_idx == s.loops
}

/// One more event keeps a scenario on its course.
proof fn lemma_on_course_step(start: RunState, s: RunState, event: Event)
    requires
        start.fresh(),
        on_course(start, s),
        s.accepts(event),
    ensures
        on_course(start, s.after(event)),
{
    let t = s.after(event);
    if event is HogStopped {
        assert(t.runs.take(start.runs.len() as int) =~= s.runs.take(start.runs.len() as int));
    }
}

/// Every scenario stays on its course.
pub proof fn lemma_on_course(start: RunState, events: Seq<Event>)
    requires
        start.fresh(),
        legal(start, events),
    ensures
        on_course(start, replayed(start, events)),
    decreases events.len(),
{
    if events.len() == 0 {
        assert(start.runs.take(start.runs.len() as int) =~= start.runs);
    } else {
        lemma_on_course(start, events.drop_last());
        lemma_on_course_step(start, replayed(start, events.drop_last()), events.last());
    }
}

/// A scenario that is seen through has recorded exactly one run for each time
/// round, behind the runs that were there before.
pub proof fn lemma_one_run_per_loop(start: RunState, events: Seq<Event>)
    requires
        start.fresh(),
        legal(start, events),
        replayed(start, events).phase == Phase::Done,
    ensures
        replayed(start, events).runs.len() == start.runs.len() + start.loops,
        replayed(start, events).runs.take(start.runs.len() as int) == start.runs,
{
    lemma_on_course(start, events);
}

/// The hog is running, or about to be.
pub open spec fn hog_out(s: RunState) -> bool {
    match s.phase {
        Phase::StartHog | Phase::Watch | Phase::ReadLast | Phase::StopHog => true,
        _ => false,
    }
}

/// How often hogs were started and stopped on the way.
proof fn lemma_hogs_counted(start: RunState, events: Seq<Event>)
    requires
        start.fresh(),
        legal(start, events),
    ensures
        times(start, events, Action::StartHog { speed: start.speed }) == replayed(start, events).run_idx + (if hog_out(
            replayed(start, events),
        ) {
            1int
        } else {
            0int
        }),
        times(start, events, Action::StopHog) == replayed(start, events).run_idx + (if replayed(start, events).phase
            == Phase::StopHog {
            1int
        } else {
            0int
        }),
    decreases events.len(),
{
    if events.len() > 0 {
        lemma_hogs_counted(start, events.drop_last());
        lemma_on_course(start, events.drop_last());
        lemma_on_course(start, events);
    }
}

/// In a scenario that is seen through, a hog is started once for each time
/// round, always at the speed of the scenario, and each hog is stopped.
pub proof fn lemma_every_hog_is_stopped(start: RunState, events: Seq<Event>)
    requires
        start.fresh(),
        legal(start, events),
        replayed(start, events).phase == Phase::Done,
    ensures
        times(start, events, Action::StartHog { speed: start.speed }) == start.loops,
        times(start, events, Action::StopHog) == start.loops,
{
    lemma_hogs_counted(start, events);
    lemma_on_course(start, events);
}

/// What was seen of the hog since it was started.
pub open spec fn sightings(events: Seq<Event>) -> Seq<Option<Sighting>>
    decreases events.len(),
{
    if events.len() == 0 {
        Seq::empty()
    } else {
        match events.last() {
            Event::HogStarted => Seq::empty(),
            Event::Status { seen } => sightings(events.drop_last()).push(seen),
            _ => sightings(events.drop_last()),
        }
    }
}

/// While a hog is watched, the session knows what was seen of this hog and
/// nothing of earlier ones. The run that is recorded once it is stopped has the
/// hog's first report and average size from there.
pub proof fn lemma_run_is_of_its_hog(start: RunState, events: Seq<Event>)
    requires
        start.fresh(),
        legal(start, events),
    ensures
        ({
            let s = replayed(start, events);
            let m = monitor::watched(sightings(events), s.test);
            &&& s.phase == Phase::Watch || s.phase == Phase::ReadLast || s.phase == Phase::StopHog ==> s.monitor == m
            &&& s.phase == Phase::ReadLast || s.phase == Phase::StopHog ==> m.first == Some(s.run.first_hog_rep)
            &&& s.phase == Phase::StopHog ==> m.averages() && s.run.last_hog_mem == m.average()
        }),
        events.len() > 0 && events.last() is HogStopped ==> ({
            let s = replayed(start, events);
            let m = monitor::watched(sightings(events), s.test);
            &&& m.first == Some(s.runs.last().first_hog_rep)
            &&& s.runs.last().last_hog_mem == m.average()
        }),
    decreases events.len(),
{
    if events.len() > 0 {
        let prior = events.drop_last();
        lemma_run_is_of_its_hog(start, prior);
        let s = replayed(start, prior);
        if let Event::Status { seen } = events.last() {
            assert(sightings(events).drop_last() =~= sightings(prior));
        }
        if events.last() is LastReport {
            monitor::lemma_average_bounds(s.monitor, 0, usize::MAX as int);
        }
    }
}

/// The events of one time round, where `seen` is what is seen of the hog.
pub open spec fn round(
    stable_at: u64,
    started_at: u64,
    seen: Seq<Option<Sighting>>,
    last: BanditMemHogReport,
    ended_at: u64,
) -> Seq<Event> {
    seq![Event::WarmedUp { now: stable_at }, Event::Held { now: started_at }, Event::HogStarted] + Seq::new(
        seen.len(),
        |i: int| Event::Status { seen: seen[i] },
    ) + seq![Event::WatchOver, Event::LastReport { rep: last }, Event::HogStopped { now: ended_at }]
}

/// The states on the way through the first events of a time round.
proof fn lemma_watching(
    s: RunState,
    stable_at: u64,
    started_at: u64,
    seen: Seq<Option<Sighting>>,
    last: BanditMemHogReport,
    ended_at: u64,
    n: int,
)
    requires
        s.phase == Phase::WarmUp,
        0 <= n <= seen.len(),
    ensures
        ({
            let events = round(stable_at, started_at, seen, last, ended_at);
            let t = replayed(s, events.take(n + 3));
            &&& legal(s, events.take(n + 3))
            &&& t == (RunState {
                phase: Phase::Watch,
                run: MemHogRun { stable_at, hog_started_at: started_at, ..s.run },
                monitor: monitor::watched(seen.take(n), s.test),
                ..s
            })
            &&& n > 0 ==> t.action(events[n + 2]) == Action::KeepWatching
        }),
    decreases n,
{
    let events = round(stable_at, started_at, seen, last, ended_at);
    if n == 0 {
        let e3 = events.take(3);
        let e2 = events.take(2);
        let e1 = events.take(1);
        let e0 = events.take(0);
        assert(e3.drop_last() =~= e2 && e2.drop_last() =~= e1 && e1.drop_last() =~= e0);
        assert(e3.last() == events[2] && e2.last() == events[1] && e1.last() == events[0]);
        assert(replayed(s, e0) == s && legal(s, e0));
        assert(replayed(s, e1) == s.after(events[0]) && legal(s, e1));
        assert(replayed(s, e2) == s.after(events[0]).after(events[1]) && legal(s, e2));
        assert(seen.take(0) =~= Seq::<Option<Sighting>>::empty());
        assert(monitor::watched(seen.take(0), s.test) == MonitorView::empty());
    } else {
        lemma_watching(s, stable_at, started_at, seen, last, ended_at, n - 1);
        let e = events.take(n + 3);
        assert(e.drop_last() =~= events.take(n - 1 + 3));
        assert(e.last() == Event::Status { seen: seen[n - 1] });
        assert(seen.take(n).drop_last() =~= seen.take(n - 1));
        assert(seen.take(n).last() == seen[n - 1]);
    }
}

/// Once round: if the hog was seen to swap and its average size can be told,
/// one run is recorded, with the times of the events, the hog's first and last
/// report, and its average size. Nothing else changes but that one more run is
/// over.
pub proof fn lemma_once_round(
    s: RunState,
    stable_at: u64,
    started_at: u64,
    seen: Seq<Option<Sighting>>,
    last: BanditMemHogReport,
    ended_at: u64,
)
    requires
        s.phase == Phase::WarmUp,
        s.run_idx < s.loops,
        monitor::watched(seen, s.test).first is Some,
        monitor::watched(seen, s.test).averages(),
    ensures
        ({
            let events = round(stable_at, started_at, seen, last, ended_at);
            let t = replayed(s, events);
            let m = monitor::watched(seen, s.test);
            &&& legal(s, events)
            &&& t.runs.len() == s.runs.len() + 1
            &&& t.runs.drop_last() == s.runs
            &&& t.runs.last().stable_at == stable_at
            &&& t.runs.last().hog_started_at == started_at
            &&& t.runs.last().hog_ended_at == ended_at
            &&& Some(t.runs.last().first_hog_rep) == m.first
            &&& t.runs.last().last_hog_rep == last
            &&& t.runs.last().last_hog_mem == m.average()
            &&& t.run_idx == s.run_idx + 1
            &&& t.phase == (if t.run_idx < s.loops { Phase::WarmUp } else { Phase::Finish })
            &&& t.main_period == s.main_period
            &&& t.loops == s.loops && t.speed == s.speed && t.test == s.test
        }),
{
    let events = round(stable_at, started_at, seen, last, ended_at);
    let k = seen.len() as int;
    lemma_watching(s, stable_at, started_at, seen, last, ended_at, k);
    assert(seen.take(k) =~= seen);
    let a = events.take(k + 3);
    let b = events.take(k + 4);
    let c = events.take(k + 5);
    assert(b.drop_last() =~= a && c.drop_last() =~= b && events.drop_last() =~= c);
    assert(b.last() == Event::WatchOver);
    assert(c.last() == Event::LastReport { rep: last });
    assert(events.last() == Event::HogStopped { now: ended_at });
    let m = monitor::watched(seen, s.test);
    monitor::lemma_average_bounds(m, 0, usize::MAX as int);
    let t = replayed(s, a);
    assert(t.monitor == m);
    assert(!t.fails(Event::WatchOver));
    assert(legal(s, b) && replayed(s, b) == t.after(Event::WatchOver));
    assert(legal(s, c) && replayed(s, c) == replayed(s, b).after(c.last()));
    assert(replayed(s, events).runs.drop_last() =~= s.runs);
}

/// What is called for, step by step: the workload is brought to its load, held
/// there for fifteen seconds, and a hog of the scenario's speed is started. The
/// hog is watched for ten minutes at most, in a test run for ten seconds. Then
/// its last report is read, it is stopped, and the next run begins or the end
/// is noted.
pub proof fn lemma_what_is_called_for(s: RunState, event: Event)
    requires
        s.accepts(event),
        !s.fails(event),
    ensures
        ({
            let t = s.after(event);
            let a = t.action(event);
            match event {
                Event::Started { .. } | Event::HogStopped { .. } => a == (if t.run_idx < s.loops {
                    Action::WarmUp
                } else {
                    Action::NoteEnd
                }),
                Event::WarmedUp { .. } => a == (Action::Hold { secs: 15 }),
                Event::Held { .. } => a == (Action::StartHog { speed: s.speed }),
                Event::HogStarted => a == (Action::Watch { secs: if s.test { 10 } else { 600 } }),
                Event::Status { .. } => a == Action::KeepWatching,
                Event::WatchOver => a == Action::ReadLastReport,
                Event::LastReport { .. } => a == Action::StopHog,
                Event::Ended { .. } => a == Action::Done,
            }
        }),
{
}

/// The main period runs from the start of the scenario to its end, and a hog
/// that is never seen to swap ends the scenario without a run.
pub proof fn lemma_start_and_end(s: RunState, event: Event)
    requires
        s.accepts(event),
    ensures
        event matches Event::Started { now } ==> s.after(event).main_period == (now, s.main_period.1)
            && s.after(event).runs == s.runs && s.after(event).run_idx == s.run_idx,
        event matches Event::Ended { now } ==> s.after(event).main_period == (s.main_period.0, now)
            && s.after(event).runs == s.runs && s.after(event).phase == Phase::Done,
        event is WatchOver && s.monitor.first is None ==> s.after(event).phase == Phase::Failed && s.after(event).runs
            == s.runs,
        s.fails(event) <==> event is WatchOver && s.monitor.first is None,
{
}

/// The times of a run are in order.
pub open spec fn run_in_order(run: MemHogRun) -> bool {
    run.stable_at <= run.hog_started_at <= run.hog_ended_at
}

/// The runs from the `n`th on are in order, one behind the other, none before
/// `from`.
pub open spec fn runs_in_order(runs: Seq<MemHogRun>, n: int, from: u64) -> bool {
    &&& forall|k: int| n <= k < runs.len() ==> run_in_order(#[trigger] runs[k]) && from <= runs[k].stable_at
    &&& forall|k: int, l: int|
        n <= k < l < runs.len() ==> (#[trigger] runs[k]).hog_ended_at <= (#[trigger] runs[l]).stable_at
}

/// The times recorded so far are in order and not after `now`.
pub open spec fn timely(start: RunState, s: RunState, now: u64) -> bool {
    let n = start.runs.len() as int;
    &&& s.phase != Phase::Start ==> s.main_period.0 <= now
    &&& runs_in_order(s.runs, n, s.main_period.0)
    &&& forall|k: int| n <= k < s.runs.len() ==> (#[trigger] s.runs[k]).hog_ended_at <= now
    &&& s.in_run() && s.phase != Phase::WarmUp ==> {
        &&& s.main_period.0 <= s.run.stable_at <= now
        &&& forall|k: int| n <= k < s.runs.len() ==> (#[trigger] s.runs[k]).hog_ended_at <= s.run.stable_at
    }
    &&& hog_out(s) ==> s.run.stable_at <= s.run.hog_started_at <= now
    &&& s.phase == Phase::Done ==> {
        &&& s.main_period.0 <= s.main_period.1
        &&& forall|k: int| n <= k < s.runs.len() ==> (#[trigger] s.runs[k]).hog_ended_at <= s.main_period.1
    }
}

/// Under a steady clock the recorded times are in order all the way.
proof fn lemma_timely(start: RunState, events: Seq<Event>, now: u64)
    requires
        start.fresh(),
        legal(start, events),
        steady(events),
        by_then(events, now),
    ensures
        timely(start, replayed(start, events), now),
    decreases events.len(),
{
    lemma_on_course(start, events);
    if events.len() > 0 {
        let prior = events.drop_last();
        let event = events.last();
        let s = replayed(start, prior);
        let then = match clock(event) {
            Some(t) => t,
            None => now,
        };
        assert(event == events[events.len() - 1]);
        assert(then <= now) by {
            assert(clock(events[events.len() - 1]) is Some ==> clock(events[events.len() - 1])->0 <= now);
        }
        assert(by_then(prior, then)) by {
            assert forall|i: int| 0 <= i < prior.len() && (#[trigger] clock(prior[i])) is Some implies clock(
                prior[i],
            )->0 <= then by {
                assert(prior[i] == events[i]);
                assert(clock(events[i]) is Some);
                assert(clock(events[events.len() - 1]) == clock(event));
            }
        }
        assert(steady(prior)) by {
            assert forall|i: int, j: int|
                0 <= i <= j < prior.len() && (#[trigger] clock(prior[i])) is Some && (#[trigger] clock(prior[j])) is Some
                implies clock(prior[i])->0 <= clock(prior[j])->0 by {
                assert(prior[i] == events[i] && prior[j] == events[j]);
                assert(clock(events[i]) is Some && clock(events[j]) is Some);
            }
        }
        lemma_timely(start, prior, then);
        lemma_on_course(start, prior);
        let t = s.after(event);
        let n = start.runs.len() as int;
        if event is HogStopped {
            assert(t.runs == s.runs.push(t.run));
            assert forall|k: int| n <= k < t.runs.len() implies run_in_order(#[trigger] t.runs[k])
                && t.main_period.0 <= t.runs[k].stable_at && t.runs[k].hog_ended_at <= then by {
                if k < s.runs.len() {
                    assert(t.runs[k] == s.runs[k]);
                }
            }
            assert forall|k: int, l: int| n <= k < l < t.runs.len() implies (#[trigger] t.runs[k]).hog_ended_at <= (
            #[trigger] t.runs[l]).stable_at by {
                assert(t.runs[k] == s.runs[k]);
                if l < s.runs.len() {
                    assert(t.runs[l] == s.runs[l]);
                }
            }
        }
    }
}

/// If the clock is never set back, a scenario that is seen through has recorded
/// its times in order: each run's hog was started after the workload was
/// stable and ended after it was started, the next run came after that, and
/// all of it lies within the main period.
pub proof fn lemma_times_in_order(start: RunState, events: Seq<Event>)
    requires
        start.fresh(),
        legal(start, events),
        steady(events),
        replayed(start, events).phase == Phase::Done,
    ensures
        runs_in_order(
            replayed(start, events).runs,
            start.runs.len() as int,
            replayed(start, events).main_period.0,
        ),
        replayed(start, events).main_period.0 <= replayed(start, events).main_period.1,
        forall|k: int|
            start.runs.len() <= k < replayed(start, events).runs.len() ==> (#[trigger] replayed(
                start,
                events,
            ).runs[k]).hog_ended_at <= replayed(start, events).main_period.1,
{
    lemma_timely(start, events, u64::MAX);
}

} // verus!
