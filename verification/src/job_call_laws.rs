//! What comes of a call, of those that jobs and their runs are made of.

use vstd::prelude::*;
use vstd::string::*;

use crate::arith::{self, Op};
use crate::error::{self, Error, NumberFault};
use crate::exact;
use crate::exact_combine;
use crate::exact_study;
use crate::job::{self, BenchDesc, JobSpec, ProtectionBench, ProtectionJob, ProtectionResult, Setup};
use crate::job_laws;
use crate::layout;
use crate::lists;
use crate::mem_hog::{MemHog, MemHogResult};
use crate::monitor::{self, BanditMemHogReport, HogMonitor, Sighting};
use crate::number;
use crate::page::{self, Piece, PieceView};
use crate::readings::Source;
use crate::report::{self, Report, SliceNames, WorkloadMon};
use crate::scenario::{self, Scenario, ScenarioResult};
use crate::session::{self, Action, Event, HogSession, Phase};
use crate::show_laws;
use crate::speed::MemHogSpeed;
use crate::strmap::StrMap;
use crate::text::{self, Place};
use crate::wording_laws;

verus! {

broadcast use vstd::string::group_string_axioms;

/// The steps that `setup` gives. There is a balloon step if, and only if, the
/// balloon has a size, and it has that size, whether the job is passive or not.
/// There is a passive step if, and only if, the job is passive. The parameters
/// of the workload are found first, and the agent is started last, right behind
/// the test files.
pub proof fn lemma_setup<F>(job: &ProtectionJob<F>, steps: Vec<Setup>)
    requires
        call_ensures(ProtectionJob::<F>::setup, (job,), steps),
    ensures
        steps@.len() >= 3,
        steps@[0] == Setup::FindHashdParams,
        steps@[steps@.len() - 2] == Setup::PrepTestfiles,
        steps@[steps@.len() - 1] == Setup::StartAgent,
        steps@.contains(Setup::Passive) <==> job.passive,
        job.passive ==> steps@[1] == Setup::Passive,
        forall|n: usize| #[trigger]
            steps@.contains(Setup::Balloon { size: n }) <==> (n > 0 && n == job.balloon_size),
        forall|i: int, j: int| 0 <= i < j < steps@.len() ==> steps@[i] != steps@[j],
{
    job_laws::lemma_setup(*job, steps@);
}

/// A description of a job without scenarios is read as the one with the two
/// default scenarios given by their loads alone: `1.0` and `0.8`.
pub proof fn lemma_parse_without_scenarios<
    F,
    P: Fn(&str) -> Result<F, String>,
    Q: Fn(&str) -> Result<u64, String>,
    A: Fn(Op<F>) -> F,
>(short: &JobSpec, long: &JobSpec, parse_frac: &P, parse_size: &Q, arith: &A, job: ProtectionJob<F>)
    requires
        short.props@.len() == 1,
        long.props@.len() == 3,
        long.props@[0] == short.props@[0],
        job_laws::gives_load(long.props@[1]@, "1.0"@),
        job_laws::gives_load(long.props@[2]@, "0.8"@),
        call_ensures(ProtectionJob::<F>::parse::<P, Q, A>, (short, parse_frac, parse_size, arith), Ok(job))
            || call_ensures(ProtectionJob::<F>::parse::<P, Q, A>, (long, parse_frac, parse_size, arith), Ok(job)),
    ensures
        job.scenarios@.len() == 2,
        ({
            let own = short.props@[0]@;
            &&& job.passive <==> own.contains_key("passive"@) && own["passive"@]@ != "false"@
            &&& !own.contains_key("balloon"@) ==> job.balloon_size == 0
        }),
        is_plain(job.scenarios@[0], "1.0"@, *parse_frac),
        is_plain(job.scenarios@[1], "0.8"@, *parse_frac),
{
    let (own, first, second) = (short.props@[0], long.props@[1], long.props@[2]);
    assert(short.props@ =~= seq![own]);
    assert(long.props@ =~= seq![own, first, second]);
    job_laws::lemma_default_scenarios(own, first, second, *parse_frac, *parse_size, *arith, job, Error::BadPassive);
    job_laws::lemma_scenarios_one_by_one(long.props@, *parse_frac, *parse_size, *arith, job);
    job_laws::lemma_job_params(own@, *parse_size, job.passive, job.balloon_size);
    let (Scenario::MemHog(a), Scenario::MemHog(b)) = (job.scenarios@[0], job.scenarios@[1]);
    assert(long.props@[1] == first && long.props@[2] == second);
    assert(first@.contains_key("load"@) && second@.contains_key("load"@));
    job_laws::lemma_plain(first@, "1.0"@, *parse_frac, *arith, a);
    job_laws::lemma_plain(second@, "0.8"@, *parse_frac, *arith, b);
}

/// A job without scenarios has two: next to a load that is read from `1.0`, and
/// next to one that is read from `0.8`.
pub proof fn lemma_parse_default_scenarios<
    F,
    P: Fn(&str) -> Result<F, String>,
    Q: Fn(&str) -> Result<u64, String>,
    A: Fn(Op<F>) -> F,
>(bench: &ProtectionBench, spec: &JobSpec, parse_frac: &P, parse_size: &Q, arith: &A, job: ProtectionJob<F>)
    requires
        spec.props@.len() == 1,
        call_ensures(ProtectionJob::<F>::parse::<P, Q, A>, (spec, parse_frac, parse_size, arith), Ok(job))
            || call_ensures(
            ProtectionBench::parse::<F, P, Q, A>,
            (bench, spec, parse_frac, parse_size, arith),
            Ok(job),
        ),
    ensures
        job.scenarios@.len() == 2,
        is_plain(job.scenarios@[0], "1.0"@, *parse_frac),
        is_plain(job.scenarios@[1], "0.8"@, *parse_frac),
        ({
            let own = spec.props@[0]@;
            &&& job.passive <==> own.contains_key("passive"@) && own["passive"@]@ != "false"@
            &&& own.contains_key("balloon"@) ==> exists|s: &str, n: u64|
                s@ == own["balloon"@]@ && #[trigger] call_ensures(*parse_size, (s,), Ok(n)) && job.balloon_size
                    == n as usize
            &&& !own.contains_key("balloon"@) ==> job.balloon_size == 0
        }),
{
    job_laws::lemma_job_params(spec.props@[0]@, *parse_size, job.passive, job.balloon_size);
}

/// A scenario runs its hog three times, at twice the speed, next to a load that
/// was read from a string, and has recorded nothing.
pub open spec fn is_plain<F, P: Fn(&str) -> Result<F, String>>(s: Scenario<F>, load: Seq<char>, parse_frac: P) -> bool {
    match s {
        Scenario::MemHog(mh) => {
            &&& mh.loops == 3
            &&& exists|t: &str| t@ == load && #[trigger] call_ensures(parse_frac, (t,), Ok(mh.load))
            &&& mh.speed == MemHogSpeed::Hog2x
            &&& mh.main_period == (0u64, 0u64)
            &&& mh.runs@.len() == 0
        },
    }
}

/// What a scenario that was read is like: what its properties say, each on its
/// own.
pub proof fn lemma_parse_scenario<F, P: Fn(&str) -> Result<F, String>, A: Fn(Op<F>) -> F>(
    props: StrMap<String>,
    parse_frac: &P,
    arith: &A,
    mh: MemHog<F>,
)
    requires
        call_ensures(Scenario::<F>::parse::<P, A>, (props, parse_frac, arith), Ok(Scenario::MemHog(mh))),
    ensures
        props@.contains_key("scenario"@) && props@["scenario"@]@ == "mem-hog"@,
        forall|k: Seq<char>| #[trigger]
            props@.contains_key(k) ==> k == "scenario"@ || k == "loops"@ || k == "load"@ || k == "speed"@,
        props@.contains_key("loops"@) ==> number::is_u32(props@["loops"@]@) && mh.loops == number::value(
            number::without_plus(props@["loops"@]@),
        ),
        !props@.contains_key("loops"@) ==> mh.loops == 3,
        mh.loops > 0,
        props@.contains_key("load"@) ==> exists|s: &str|
            s@ == props@["load"@]@ && #[trigger] call_ensures(*parse_frac, (s,), Ok(mh.load)),
        !props@.contains_key("load"@) ==> arith::gives(*arith, Op::Int(1), mh.load),
        props@.contains_key("speed"@) ==> {
            let speed = props@["speed"@]@;
            &&& mh.speed == MemHogSpeed::Hog10Pct <==> speed == "10%"@
            &&& mh.speed == MemHogSpeed::Hog25Pct <==> speed == "25%"@
            &&& mh.speed == MemHogSpeed::Hog50Pct <==> speed == "50%"@
            &&& mh.speed == MemHogSpeed::Hog1x <==> speed == "1x"@
            &&& mh.speed == MemHogSpeed::Hog2x <==> speed == "2x"@
        },
        !props@.contains_key("speed"@) ==> mh.speed == MemHogSpeed::Hog2x,
        mh.main_period == (0u64, 0u64),
        mh.runs@.len() == 0,
{
    job_laws::lemma_scenario_params(props@, *parse_frac, *arith, mh);
}

/// What is wrong with a scenario that is refused is there in its properties, and
/// it is the first that is wrong, in key order.
pub proof fn lemma_parse_scenario_error<F, P: Fn(&str) -> Result<F, String>, A: Fn(Op<F>) -> F>(
    props: StrMap<String>,
    parse_frac: &P,
    arith: &A,
    e: Error,
    j: Seq<char>,
)
    requires
        call_ensures(Scenario::<F>::parse::<P, A>, (props, parse_frac, arith), Err(e)),
    ensures
        match e {
            Error::BadScenario => !props@.contains_key("scenario"@) || props@["scenario"@]@ != "mem-hog"@,
            Error::BadLoops(fault) => {
                &&& props@.contains_key("loops"@) && !number::is_u32(props@["loops"@]@)
                &&& fault == NumberFault::Empty <==> props@["loops"@]@.len() == 0
                &&& number::is_digits(number::without_plus(props@["loops"@]@)) ==> fault == NumberFault::TooLarge
            },
            Error::ZeroLoops => props@.contains_key("loops"@) && number::is_u32(props@["loops"@]@) && number::value(
                number::without_plus(props@["loops"@]@),
            ) == 0,
            Error::BadLoad(why) => props@.contains_key("load"@) && exists|s: &str|
                s@ == props@["load"@]@ && #[trigger] call_ensures(*parse_frac, (s,), Err(why)),
            Error::BadSpeed => {
                let speed = props@["speed"@]@;
                &&& props@.contains_key("speed"@)
                &&& speed != "10%"@ && speed != "25%"@ && speed != "50%"@ && speed != "1x"@ && speed != "2x"@
            },
            Error::UnknownMemHogProperty(k) => {
                &&& props@.contains_key(k@)
                &&& k@ != "scenario"@ && k@ != "loops"@ && k@ != "load"@ && k@ != "speed"@
            },
            _ => false,
        },
        !(e is BadScenario) && props@.contains_key(j) && j != "scenario"@ && text::precedes(
            j,
            job_laws::scenario_key(e),
        ) ==> {
            &&& j == "loops"@ || j == "load"@ || j == "speed"@
            &&& j == "loops"@ ==> number::is_u32(props@[j]@) && number::value(number::without_plus(props@[j]@)) > 0
        },
{
    job_laws::lemma_scenario_error(props@, *parse_frac, e);
    if !(e is BadScenario) && props@.contains_key(j) && j != "scenario"@ && text::precedes(
        j,
        job_laws::scenario_key(e),
    ) {
        job_laws::lemma_scenario_error_is_first(props@, *parse_frac, e, j);
    }
}

/// What a job that was read is like. It is passive if, and only if, there is
/// `passive` and its value is not `false`, and its balloon has the size that is
/// read from `balloon`. Its scenarios are what each run's properties say.
pub proof fn lemma_parse_job<
    F,
    P: Fn(&str) -> Result<F, String>,
    Q: Fn(&str) -> Result<u64, String>,
    A: Fn(Op<F>) -> F,
>(bench: &ProtectionBench, spec: &JobSpec, parse_frac: &P, parse_size: &Q, arith: &A, job: ProtectionJob<F>)
    requires
        spec.props@.len() > 1,
        call_ensures(ProtectionJob::<F>::parse::<P, Q, A>, (spec, parse_frac, parse_size, arith), Ok(job))
            || call_ensures(
            ProtectionBench::parse::<F, P, Q, A>,
            (bench, spec, parse_frac, parse_size, arith),
            Ok(job),
        ),
    ensures
        ({
            let own = spec.props@[0]@;
            &&& job.passive <==> own.contains_key("passive"@) && own["passive"@]@ != "false"@
            &&& own.contains_key("passive"@) ==> own["passive"@]@.len() == 0 || own["passive"@]@ == "true"@
                || own["passive"@]@ == "false"@
            &&& own.contains_key("balloon"@) ==> exists|s: &str, n: u64|
                s@ == own["balloon"@]@ && #[trigger] call_ensures(*parse_size, (s,), Ok(n)) && job.balloon_size
                    == n as usize
            &&& !own.contains_key("balloon"@) ==> job.balloon_size == 0
            &&& forall|k: Seq<char>| #[trigger] own.contains_key(k) ==> k == "passive"@ || k == "balloon"@
        }),
        job.scenarios@.len() + 1 == spec.props@.len(),
        forall|i: int|
            0 < i < spec.props@.len() ==> (job.scenarios@[i - 1] matches Scenario::MemHog(mh) && scenario::described(
                (#[trigger] spec.props@[i])@,
                *parse_frac,
                *arith,
                mh,
            )),
{
    job_laws::lemma_scenarios_one_by_one(spec.props@, *parse_frac, *parse_size, *arith, job);
    job_laws::lemma_job_params(spec.props@[0]@, *parse_size, job.passive, job.balloon_size);
}

/// An error in reading a job is about the job's own properties, and then it is
/// there in them, or about those of the first run that are wrong.
pub proof fn lemma_parse_job_error<
    F,
    P: Fn(&str) -> Result<F, String>,
    Q: Fn(&str) -> Result<u64, String>,
    A: Fn(Op<F>) -> F,
>(bench: &ProtectionBench, spec: &JobSpec, parse_frac: &P, parse_size: &Q, arith: &A, e: Error)
    requires
        spec.props@.len() > 0,
        call_ensures(ProtectionJob::<F>::parse::<P, Q, A>, (spec, parse_frac, parse_size, arith), Err(e))
            || call_ensures(
            ProtectionBench::parse::<F, P, Q, A>,
            (bench, spec, parse_frac, parse_size, arith),
            Err(e),
        ),
    ensures
        ({
            let own = spec.props@[0]@;
            match e {
                Error::BadPassive => own.contains_key("passive"@) && own["passive"@]@.len() > 0 && own["passive"@]@
                    != "true"@ && own["passive"@]@ != "false"@,
                Error::BadBalloon(why) => own.contains_key("balloon"@) && exists|s: &str|
                    s@ == own["balloon"@]@ && #[trigger] call_ensures(*parse_size, (s,), Err(why)),
                Error::UnknownProperty(k) => own.contains_key(k@) && k@ != "passive"@ && k@ != "balloon"@,
                _ => exists|i: int|
                    {
                        &&& 1 <= i < spec.props@.len()
                        &&& scenario::refused((#[trigger] spec.props@[i])@, *parse_frac, e)
                        &&& forall|j: int|
                            1 <= j < i ==> job_laws::has_scenario((#[trigger] spec.props@[j])@, *parse_frac, *arith)
                    },
            }
        }),
{
    job_laws::lemma_parse_error::<F, P, Q, A>(spec.props@, *parse_frac, *parse_size, *arith, e);
    if e is BadPassive || e is BadBalloon || e is UnknownProperty {
        job_laws::lemma_job_error(spec.props@[0]@, *parse_size, e);
    }
}

/// What `parse_params` reads, and what is wrong if it can't.
pub proof fn lemma_parse_params<Q: Fn(&str) -> Result<u64, String>>(
    props: &StrMap<String>,
    parse_size: &Q,
    passive: bool,
    balloon_size: usize,
    e: Error,
)
    ensures
        call_ensures(job::parse_params::<Q>, (props, parse_size), Ok((passive, balloon_size))) ==> {
            &&& passive <==> props@.contains_key("passive"@) && props@["passive"@]@ != "false"@
            &&& !props@.contains_key("balloon"@) ==> balloon_size == 0
            &&& props@.contains_key("balloon"@) ==> exists|s: &str, n: u64|
                s@ == props@["balloon"@]@ && #[trigger] call_ensures(*parse_size, (s,), Ok(n)) && balloon_size
                    == n as usize
        },
        call_ensures(job::parse_params::<Q>, (props, parse_size), Err(e)) ==> match e {
            Error::BadPassive => props@.contains_key("passive"@) && props@["passive"@]@.len() > 0
                && props@["passive"@]@ != "true"@ && props@["passive"@]@ != "false"@,
            Error::BadBalloon(why) => props@.contains_key("balloon"@) && exists|s: &str|
                s@ == props@["balloon"@]@ && #[trigger] call_ensures(*parse_size, (s,), Err(why)),
            Error::UnknownProperty(k) => props@.contains_key(k@) && k@ != "passive"@ && k@ != "balloon"@,
            _ => false,
        },
{
    if call_ensures(job::parse_params::<Q>, (props, parse_size), Ok((passive, balloon_size))) {
        job_laws::lemma_job_params(props@, *parse_size, passive, balloon_size);
    }
    if call_ensures(job::parse_params::<Q>, (props, parse_size), Err(e)) {
        job_laws::lemma_job_error(props@, *parse_size, e);
    }
}

/// `combine` leaves the results of the scenarios as they are. If there are any,
/// be it one, they are merged; without any, nothing changes.
pub proof fn lemma_combine<
    's,
    F: Copy,
    G: Fn((u64, u64)) -> Vec<Report<F>>,
    S: Fn(Vec<F>) -> (F, F),
    Q: Fn(Vec<F>, Vec<&'static str>) -> StrMap<F>,
    L: Fn(Vec<(u64, u64)>) -> [StrMap<StrMap<F>>; 2],
    A: Fn(Op<F>) -> F,
    P: Fn(F) -> bool,
>(r: &mut ProtectionResult<F>, src: &Source<'s, G, S, Q, L, A, P>, val: spec_fn(F) -> real)
    requires
        call_ensures(ProtectionResult::<F>::combine::<G, S, Q, L, A, P>, (r, src), ()),
        exact::is_exact(*src.arith, val),
        exact_combine::are_countable(hogs_of(old(r))) || old(r).scenarios@.len() == 0,
    ensures
        final(r).scenarios == old(r).scenarios,
        old(r).scenarios@.len() == 0 ==> final(r).combined_mem_hog == old(r).combined_mem_hog,
        old(r).scenarios@.len() > 0 ==> (final(r).combined_mem_hog matches Some(cmb) && exact_combine::merges(
            cmb,
            hogs_of(old(r)),
            val,
        )),
{
    assert(old(r).mem_hogs_spec() =~= hogs_of(old(r)));
    if old(r).scenarios@.len() > 0 {
        exact_combine::lemma_combine_results_merges(
            final(r).combined_mem_hog->0,
            old(r).mem_hogs_spec(),
            *src,
            val,
        );
    }
}

/// The memory-hog results of all scenarios, in their order.
pub open spec fn hogs_of<F>(r: &ProtectionResult<F>) -> Seq<&MemHogResult<F>> {
    Seq::new(
        r.scenarios@.len(),
        |i: int|
            match &r.scenarios@[i] {
                ScenarioResult::MemHog(hog) => hog,
            },
    )
}

/// `mem_hogs` gives the results of all scenarios, in their order.
pub proof fn lemma_mem_hogs<F>(r: &ProtectionResult<F>, hogs: Vec<&MemHogResult<F>>)
    requires
        call_ensures(ProtectionResult::<F>::mem_hogs, (r,), hogs),
    ensures
        hogs@ == hogs_of(r),
{
    assert(r.mem_hogs_spec() =~= hogs_of(r));
}

/// The scenario that is next is the first one without a result.
pub proof fn lemma_next_scenario<F>(job: &ProtectionJob<F>, done: &ProtectionResult<F>, next: Option<usize>)
    requires
        call_ensures(ProtectionJob::<F>::next_scenario, (job, done), next),
    ensures
        next is Some <==> done.scenarios@.len() < job.scenarios@.len(),
        next matches Some(i) ==> i == done.scenarios@.len(),
{
}

/// A result is put behind those from before it, and the next scenario is called
/// for. An error is handed back, and nothing is recorded.
pub proof fn lemma_proceed<F, E>(
    job: &ProtectionJob<F>,
    done: &mut ProtectionResult<F>,
    outcome: Result<ScenarioResult<F>, E>,
    r: Result<Option<usize>, E>,
)
    requires
        call_ensures(ProtectionJob::<F>::proceed::<E>, (job, done, outcome), r),
    ensures
        final(done).combined_mem_hog == old(done).combined_mem_hog,
        match outcome {
            Ok(result) => {
                &&& final(done).scenarios@ == old(done).scenarios@.push(result)
                &&& r matches Ok(next) && (next is Some <==> final(done).scenarios@.len() < job.scenarios@.len()) && (
                next matches Some(i) ==> i == final(done).scenarios@.len())
            },
            Err(e) => final(done).scenarios@ == old(done).scenarios@ && r == Err::<Option<usize>, E>(e),
        },
{
}

/// `record` puts a result behind the others.
pub proof fn lemma_record<F>(done: &mut ProtectionResult<F>, r: ScenarioResult<F>)
    requires
        call_ensures(ProtectionResult::<F>::record, (done, r), ()),
    ensures
        final(done).scenarios@.len() == old(done).scenarios@.len() + 1,
        final(done).scenarios@.last() == r,
        final(done).scenarios@.drop_last() == old(done).scenarios@,
        final(done).combined_mem_hog == old(done).combined_mem_hog,
{
    assert(final(done).scenarios@.drop_last() =~= old(done).scenarios@);
}

/// What comes of an event, field by field. The parameters of a scenario never
/// change, nor does whether it is a test run.
pub proof fn lemma_advance<F>(
    hog: &mut MemHog<F>,
    session: &mut HogSession,
    event: Event,
    r: Result<Action, Error>,
)
    requires
        call_ensures(MemHog::<F>::advance, (hog, session, event), r),
        old(session).phase != Phase::Watch ==> !(event is Status) && !(event is WatchOver),
        event is HogStopped ==> old(session).run_idx < u32::MAX,
        event is LastReport ==> old(session).monitor@.averages(),
    ensures
        final(hog).loops == old(hog).loops,
        final(hog).load == old(hog).load,
        final(hog).speed == old(hog).speed,
        final(session).test == old(session).test,
        event is HogStopped || final(session).run_idx == old(session).run_idx,
        event is HogStopped || final(hog).runs@ == old(hog).runs@,
        event is Started || event is Ended || final(hog).main_period == old(hog).main_period,
        ({
            let (run, run2) = (old(session).run, final(session).run);
            let next = if final(session).run_idx < old(hog).loops {
                Action::WarmUp
            } else {
                Action::NoteEnd
            };
            match event {
                Event::Started { now } => {
                    &&& final(hog).main_period == (now, old(hog).main_period.1)
                    &&& r == Ok::<Action, Error>(next)
                },
                Event::WarmedUp { now } => {
                    &&& run2.stable_at == now
                    &&& r == Ok::<Action, Error>(Action::Hold { secs: 15 })
                },
                Event::Held { now } => {
                    &&& run2.hog_started_at == now && run2.stable_at == run.stable_at
                    &&& r == Ok::<Action, Error>(Action::StartHog { speed: old(hog).speed })
                },
                Event::HogStarted => {
                    &&& final(session).monitor@.first is None && final(session).monitor@.mems.len() == 0
                    &&& run2 == run
                    &&& r == Ok::<Action, Error>(
                        Action::Watch { secs: if old(session).test { 10 } else { 600 } },
                    )
                },
                Event::Status { seen } => {
                    &&& final(session).monitor@ == old(session).monitor@.after(seen, old(session).test)
                    &&& run2 == run
                    &&& r == Ok::<Action, Error>(Action::KeepWatching)
                },
                Event::WatchOver => match old(session).monitor@.first {
                    Some(rep) => {
                        &&& run2.first_hog_rep == rep
                        &&& run2.stable_at == run.stable_at && run2.hog_started_at == run.hog_started_at
                        &&& r == Ok::<Action, Error>(Action::ReadLastReport)
                    },
                    None => r == Err::<Action, Error>(Error::SwapStayedZero) && final(session).phase == Phase::Failed,
                },
                Event::LastReport { rep } => {
                    &&& run2.last_hog_rep == rep && run2.last_hog_mem == old(session).monitor@.average()
                    &&& run2.stable_at == run.stable_at && run2.hog_started_at == run.hog_started_at
                    &&& run2.first_hog_rep == run.first_hog_rep
                    &&& r == Ok::<Action, Error>(Action::StopHog)
                },
                Event::HogStopped { now } => {
                    &&& final(hog).runs@.len() == old(hog).runs@.len() + 1
                    &&& final(hog).runs@.drop_last() == old(hog).runs@
                    &&& final(hog).runs@.last().hog_ended_at == now
                    &&& final(hog).runs@.last().stable_at == run.stable_at
                    &&& final(hog).runs@.last().hog_started_at == run.hog_started_at
                    &&& final(hog).runs@.last().first_hog_rep == run.first_hog_rep
                    &&& final(hog).runs@.last().last_hog_rep == run.last_hog_rep
                    &&& final(hog).runs@.last().last_hog_mem == run.last_hog_mem
                    &&& final(session).run_idx == old(session).run_idx + 1
                    &&& r == Ok::<Action, Error>(next)
                },
                Event::Ended { now } => {
                    &&& final(hog).main_period == (old(hog).main_period.0, now)
                    &&& final(session).phase == Phase::Done
                    &&& r == Ok::<Action, Error>(Action::Done)
                },
            }
        }),
{
    let (s, t) = (
        session::state_of(*old(session), *old(hog)),
        session::state_of(*final(session), *final(hog)),
    );
    assert(t == s.after(event));
    if event is HogStopped {
        assert(t.runs.drop_last() =~= s.runs);
    }
    if event is LastReport {
        monitor::lemma_average_bounds(s.monitor, 0, usize::MAX as int);
    }
}

/// A new session has not begun, and has seen nothing.
pub proof fn lemma_new_session(test: bool, session: HogSession, m: HogMonitor)
    ensures
        call_ensures(HogSession::new, (test,), session) ==> {
            &&& session.phase == Phase::Start && session.run_idx == 0 && session.test == test
            &&& session.monitor@.first is None && session.monitor@.mems.len() == 0
        },
        call_ensures(HogMonitor::new, (), m) ==> m@.first is None && m@.mems.len() == 0,
{
}

/// What one more look at the hog does. The first report is taken once the hog
/// swaps, in a test run at once, and stays. From then on each memory size is put
/// before the ones that were recorded, of which the newest four are kept.
pub proof fn lemma_observe(m: &mut HogMonitor, seen: Option<Sighting>, test: bool)
    requires
        call_ensures(HogMonitor::observe, (m, seen, test), ()),
        old(m).mem_rec@.len() <= 5,
    ensures
        ({
            let (before, after) = (*old(m), *final(m));
            match seen {
                None => after.first_hog_rep == before.first_hog_rep && after.mem_rec@ == before.mem_rec@,
                Some(s) => if before.first_hog_rep is None {
                    &&& after.mem_rec@ == before.mem_rec@
                    &&& after.first_hog_rep == (if s.swap_bytes > 0 || test {
                        Some(s.rep)
                    } else {
                        None
                    })
                } else {
                    &&& after.first_hog_rep == before.first_hog_rep
                    &&& after.mem_rec@.len() == (if before.mem_rec@.len() < 5 {
                        before.mem_rec@.len() + 1
                    } else {
                        5
                    })
                    &&& s.mem_bytes <= usize::MAX ==> after.mem_rec@[0] == s.mem_bytes
                    &&& forall|i: int|
                        0 < i < after.mem_rec@.len() ==> #[trigger] after.mem_rec@[i] == before.mem_rec@[i - 1]
                },
            }
        }),
{
    assert(final(m)@ == old(m)@.after(seen, test));
}

/// The average of the recorded sizes can be told if there is one and their sum
/// fits. It is that sum divided by their number, rounded down.
pub proof fn lemma_last_hog_mem(m: &HogMonitor, has: bool, avg: usize)
    ensures
        call_ensures(HogMonitor::has_average, (m,), has) ==> (has <==> m.mem_rec@.len() > 0 && exact::total(
            m.mem_rec@,
            |x: usize| x as real,
        ) <= (usize::MAX as real)),
        call_ensures(HogMonitor::last_hog_mem, (m,), avg) && m.mem_rec@.len() > 0 && exact::total(
            m.mem_rec@,
            |x: usize| x as real,
        ) <= (usize::MAX as real) ==> (avg as real) * (m.mem_rec@.len() as real) <= exact::total(
            m.mem_rec@,
            |x: usize| x as real,
        ) < (avg as real + 1 as real) * (m.mem_rec@.len() as real),
{
    monitor::lemma_averages(m@);
    if m@.averages() {
        monitor::lemma_average(m@);
        monitor::lemma_average_bounds(m@, 0, usize::MAX as int);
    }
}

/// There is something to see of a hog if, and only if, there is a report of the
/// hog and the agent's report has a usage for its service.
pub proof fn lemma_sighting<F>(
    rep: &Report<F>,
    svc: &str,
    hog_rep: Option<BanditMemHogReport>,
    seen: Option<Sighting>,
)
    requires
        call_ensures(monitor::sighting::<F>, (rep, svc, hog_rep), seen),
    ensures
        seen is Some <==> hog_rep is Some && rep.usages@.contains_key(svc@),
        seen matches Some(s) ==> hog_rep == Some(s.rep) && s.mem_bytes == rep.usages@[svc@].mem_bytes && s.swap_bytes
            == rep.usages@[svc@].swap_bytes,
{
    monitor::lemma_sighting(*rep, svc@, hog_rep);
}

/// The hog's own report is `report.json` in the directory of the `mem-hog`
/// sysload, which has to be there.
pub proof fn lemma_hog_report_path<F>(rep: &Report<F>, r: Result<String, Error>)
    requires
        call_ensures(monitor::hog_report_path::<F>, (rep,), r),
    ensures
        r is Ok <==> rep.sysloads@.contains_key("mem-hog"@),
        r matches Ok(path) ==> path@ == rep.sysloads@["mem-hog"@].scr_path@ + "/report.json"@,
        r matches Err(e) ==> e == Error::NoMemHogSysload,
{
}

/// What is written by `format_params`: the loops as a numeral, the load as it is,
/// and the name of the speed.
pub proof fn lemma_format_params<'a, F: Copy + 'a, R: Fn(Piece<'a, F>) -> String>(
    mh: &MemHog<F>,
    out: &mut String,
    render: &R,
)
    requires
        call_ensures(MemHog::<F>::format_params::<R>, (mh, out, render), ()),
    ensures
        exists|load: Seq<char>| #[trigger]
            page::rendered(*render, PieceView::Plain(mh.load), load) && final(out)@ == old(out)@ + (
            "Params: loops="@ + text::decimal(mh.loops as nat) + " load="@ + load + " speed="@ + mh.speed.name()
                + "\n"@),
{
    let t = choose|t: Seq<char>| #[trigger]
        page::reads(*render, layout::params_parts(*mh), t) && final(out)@ == old(out)@ + t;
    wording_laws::lemma_params_text(*render, *mh, t);
}

/// What is written by `format_info` and `format_result`. A full text has what a
/// short one has, and before that the info and the tables of IO latencies.
pub proof fn lemma_format_result<'a, F: Copy + 'a, R: Fn(Piece<'a, F>) -> String>(
    out: &mut String,
    result: &'a MemHogResult<F>,
    full: bool,
    render: &R,
)
    ensures
        call_ensures(MemHog::<F>::format_info::<R>, (out, result, render), ()) ==> exists|t: Seq<char>| #[trigger]
            page::reads(*render, layout::info_parts(*result), t) && final(out)@ == old(out)@ + t,
        call_ensures(MemHog::<F>::format_result::<R>, (out, result, full, render), ()) && !full ==> exists|t: Seq<char>|
         #[trigger]
            page::reads(*render, layout::digest_parts(*result), t) && final(out)@ == old(out)@ + t,
        call_ensures(MemHog::<F>::format_result::<R>, (out, result, full, render), ()) && full ==> exists|
            info: Seq<char>,
            tables: Seq<char>,
            short: Seq<char>,
        |
            {
                &&& #[trigger] page::reads(*render, layout::info_parts(*result), info)
                &&& #[trigger] page::reads(*render, layout::iolat_parts(*result), tables)
                &&& #[trigger] page::reads(*render, layout::result_parts(*result, false), short)
                &&& final(out)@ == old(out)@ + (info + tables + short)
            },
{
    if call_ensures(MemHog::<F>::format_result::<R>, (out, result, full, render), ()) && full {
        let t = choose|t: Seq<char>| #[trigger]
            page::reads(*render, layout::result_parts(*result, true), t) && final(out)@ == old(out)@ + t;
        let (details, short) = page::lemma_reads_split(
            *render,
            layout::info_parts(*result) + layout::iolat_parts(*result),
            layout::digest_parts(*result),
            t,
        );
        let (info, tables) = page::lemma_reads_split(
            *render,
            layout::info_parts(*result),
            layout::iolat_parts(*result),
            details,
        );
        assert(page::reads(*render, layout::result_parts(*result, false), short));
    }
}

/// What is written by the `format_result` of a job: in full, a section for each
/// scenario that has a result, in order, and then the combined results, if
/// there are any.
pub proof fn lemma_format_job<'a, F: Copy + 'a, R: Fn(Piece<'a, F>) -> String>(
    job: &ProtectionJob<F>,
    out: &mut String,
    result: &'a ProtectionResult<F>,
    full: bool,
    prefix: &str,
    render: &R,
)
    requires
        call_ensures(ProtectionJob::<F>::format_result::<R>, (job, out, result, full, prefix, render), ()),
    ensures
        exists|t: Seq<char>|
            {
                let n = if job.scenarios@.len() <= result.scenarios@.len() {
                    job.scenarios@.len()
                } else {
                    result.scenarios@.len()
                };
                let sections = Seq::new(
                    if full {
                        n
                    } else {
                        0
                    },
                    |i: int| show_laws::section(*job, *result, prefix@, i),
                );
                &&& page::reads(
                    *render,
                    lists::joined(sections) + (match result.combined_mem_hog {
                        Some(hog) => show_laws::summary(hog, full, prefix@),
                        None => Seq::empty(),
                    }),
                    t,
                )
                &&& final(out)@ == #[trigger] (old(out)@ + t)
            },
{
    show_laws::lemma_job_shows_each(*job, *result, full, prefix@);
    let t = choose|t: Seq<char>| #[trigger]
        page::reads(*render, job::job_parts(*job, *result, full, prefix@), t) && final(out)@ == old(out)@ + t;
    assert(final(out)@ == old(out)@ + t);
}

/// Results can be shown if, and only if, there is each of the percentiles.
pub proof fn lemma_can_show<F>(
    job: &ProtectionJob<F>,
    result: &ProtectionResult<F>,
    hog: &MemHogResult<F>,
    table: &StrMap<F>,
    r: bool,
)
    ensures
        call_ensures(layout::has_all_pcts::<F>, (table,), r) ==> (r <==> forall|i: int|
            0 <= i < layout::pcts_spec().len() ==> table@.contains_key(#[trigger] layout::pcts_spec()[i])),
        call_ensures(MemHogResult::<F>::is_showable, (hog,), r) ==> (r <==> forall|i: int|
            0 <= i < layout::pcts_spec().len() ==> hog.work_isol_pcts@.contains_key(#[trigger] layout::pcts_spec()[i])
                && hog.lat_impact_pcts@.contains_key(layout::pcts_spec()[i])),
        call_ensures(ProtectionJob::<F>::can_show, (job, result, false), r) ==> (r <==> (
        result.combined_mem_hog matches Some(hog) ==> layout::showable(hog))),
        call_ensures(ProtectionJob::<F>::can_show, (job, result, true), r) ==> (r <==> (
        result.combined_mem_hog matches Some(hog) ==> layout::showable(hog)) && forall|i: int|
            0 <= i < result.scenarios@.len() && i < job.scenarios@.len() ==> (
            #[trigger] result.scenarios@[i] matches ScenarioResult::MemHog(hog) && layout::showable(hog))),
{
    show_laws::lemma_showable(*hog);
    show_laws::lemma_job_showable(*job, *result);
}

/// `has_slices` tells whether there is a usage for each slice and how much swap
/// there is fits. The status of a workload never asks to stop, and its line
/// shows the share of the machine's swap that is used.
pub proof fn lemma_ws_status<'a, F: Copy + 'a, A: Fn(Op<F>) -> F, R: Fn(Piece<'a, F>) -> String>(
    mon: &WorkloadMon<F>,
    rep: &Report<F>,
    slices: &SliceNames,
    arith: &A,
    render: &R,
    val: spec_fn(F) -> real,
    has: bool,
    r: Result<(bool, String), Error>,
)
    ensures
        call_ensures(Report::<F>::has_slices, (rep, slices), has) ==> (has <==> {
            &&& rep.usages@.contains_key(slices.root@)
            &&& rep.usages@.contains_key(slices.work@)
            &&& rep.usages@.contains_key(slices.sys@)
            &&& rep.usages@[slices.root@].swap_bytes + rep.usages@[slices.root@].swap_free <= u64::MAX
        }),
        call_ensures(report::ws_status::<F, A, R>, (mon, rep, slices, arith, render), r) ==> (r matches Ok((stop, _))
            && !stop),
        call_ensures(report::ws_status::<F, A, R>, (mon, rep, slices, arith, render), r) && exact::is_exact(*arith, val)
            && rep.usages@[slices.root@].swap_bytes + rep.usages@[slices.root@].swap_free <= u64::MAX ==> exists|
            swap: F,
        |
            {
                let root = rep.usages@[slices.root@];
                &&& val(swap) * (root.swap_bytes as real + root.swap_free as real) == root.swap_bytes as real
                &&& root.swap_bytes == 0 ==> val(swap) == 0 as real
                &&& page::reads(*render, #[trigger] report::ws_status_parts(*mon, *rep, *slices, swap), r->Ok_0.1@)
            },
{
    if call_ensures(report::ws_status::<F, A, R>, (mon, rep, slices, arith, render), r) && exact::is_exact(*arith, val)
        && rep.usages@[slices.root@].swap_bytes + rep.usages@[slices.root@].swap_free <= u64::MAX {
        let line = r->Ok_0.1@;
        let root = rep.usages@[slices.root@];
        let swap = choose|swap: F| #[trigger]
            root.is_swap_usage(*arith, swap) && page::reads(
                *render,
                report::ws_status_parts(*mon, *rep, *slices, swap),
                line,
            );
        exact_study::lemma_swap_usage(*arith, val, root, swap);
        assert(page::reads(*render, report::ws_status_parts(*mon, *rep, *slices, swap), line));
    }
}

/// A map from strings gives back what was put in, for each string what was put
/// in for it last, and forgets what is taken out. Nothing else changes.
pub proof fn lemma_map<V>(
    m: &mut StrMap<V>,
    k: String,
    s: &str,
    v: V,
    was: Option<V>,
    got: Option<&V>,
    none: StrMap<V>,
)
    ensures
        call_ensures(StrMap::<V>::new, (), none) ==> forall|j: Seq<char>| !#[trigger] none@.contains_key(j),
        call_ensures(StrMap::<V>::get, (&none, s), got) ==> (got is Some <==> none@.contains_key(s@)) && (
        got matches Some(x) ==> *x == none@[s@]),
        call_ensures(StrMap::<V>::insert, (m, k, v), was) ==> {
            &&& final(m)@.contains_key(k@) && final(m)@[k@] == v
            &&& forall|j: Seq<char>|
                j != k@ ==> #[trigger] final(m)@.contains_key(j) == old(m)@.contains_key(j) && final(m)@[j] == old(m)@[j]
            &&& was is Some <==> old(m)@.contains_key(k@)
            &&& was matches Some(x) ==> x == old(m)@[k@]
        },
        call_ensures(StrMap::<V>::remove, (m, s), was) ==> {
            &&& !final(m)@.contains_key(s@)
            &&& forall|j: Seq<char>|
                j != s@ ==> #[trigger] final(m)@.contains_key(j) == old(m)@.contains_key(j) && final(m)@[j] == old(m)@[j]
            &&& was is Some <==> old(m)@.contains_key(s@)
            &&& was matches Some(x) ==> x == old(m)@[s@]
        },
{
}

/// How strings stand to each other, and whether they are the same.
pub proof fn lemma_place(a: &str, b: &str, p: Place, r: bool)
    ensures
        call_ensures(text::place, (a, b), p) ==> {
            &&& p == Place::Same <==> a@ == b@
            &&& p == Place::Before <==> text::precedes(a@, b@)
            &&& p == Place::After <==> text::precedes(b@, a@)
        },
        call_ensures(text::same, (a, b), r) ==> (r <==> a@ == b@),
{
    text::lemma_precedes_irreflexive(a@);
    text::lemma_precedes_asymmetric(a@, b@);
}

/// A string that is appended to a column is at its right end, with spaces before
/// it, and a number is appended as its numeral.
pub proof fn lemma_push(out: &mut String, s: &str, width: usize, n: u64)
    ensures
        call_ensures(text::push_right_aligned, (out, s, width), ()) ==> {
            let len = if s@.len() < width {
                width as nat
            } else {
                s@.len()
            };
            &&& final(out)@.len() == old(out)@.len() + len
            &&& final(out)@.take(old(out)@.len() as int) == old(out)@
            &&& final(out)@.skip(final(out)@.len() - s@.len()) == s@
            &&& forall|i: int|
                old(out)@.len() <= i < final(out)@.len() - s@.len() ==> #[trigger] final(out)@[i] == ' '
        },
        call_ensures(text::push_decimal, (out, n), ()) ==> {
            let digits = final(out)@.skip(old(out)@.len() as int);
            &&& final(out)@.take(old(out)@.len() as int) == old(out)@
            &&& number::is_digits(digits)
            &&& number::value(digits) == n
            &&& digits[0] == '0' <==> n == 0
        },
{
    number::lemma_decimal_value(n as nat);
    if call_ensures(text::push_right_aligned, (out, s, width), ()) {
        assert(final(out)@.take(old(out)@.len() as int) =~= old(out)@);
        assert(final(out)@.skip(final(out)@.len() - s@.len()) =~= s@);
    }
    if call_ensures(text::push_decimal, (out, n), ()) {
        assert(final(out)@.take(old(out)@.len() as int) =~= old(out)@);
        assert(final(out)@.skip(old(out)@.len() as int) =~= text::decimal(n as nat));
    }
}

/// A boolean is read from `true` and `false` and from nothing else.
pub proof fn lemma_parse_bool(s: &str, r: Option<bool>)
    requires
        call_ensures(number::parse_bool, (s,), r),
    ensures
        r == Some(true) <==> s@ == "true"@,
        r == Some(false) <==> s@ == "false"@,
{
    reveal_strlit("true");
    reveal_strlit("false");
    assert("true"@.len() == 4 && "false"@.len() == 5);
}

/// What errors say. Of a load and of a balloon, it is what the parser said, and
/// of an unknown property, how its name is shown is at the end.
pub proof fn lemma_message(e: &Error, key: &str, fault: &NumberFault, words: &'static str, m: String)
    ensures
        call_ensures(Error::message_with, (e, key), m) ==> match *e {
            Error::BadSpeed => m@ == "\"speed\" should be one of 10%, 25%, 50%, 1x or 2x"@,
            Error::BadScenario => m@ == "\"scenario\" invalid or missing"@,
            Error::BadLoops(fault) => m@ == fault.words(),
            Error::ZeroLoops => m@ == "\"loops\" can't be 0"@,
            Error::BadLoad(why) | Error::BadBalloon(why) => m@ == why@,
            Error::UnknownMemHogProperty(_) => m@ == "unknown mem-hog property "@ + key@,
            Error::BadPassive => m@ == "provided string was not `true` or `false`"@,
            Error::UnknownProperty(_) => m@ == "unknown property key "@ + key@,
            Error::NoMemHogSysload => m@ == "agent report doesn't contain \"mem-hog\" sysload"@,
            Error::SwapStayedZero => m@ == "swap usage stayed zero"@,
        },
        call_ensures(Error::message, (e,), m) ==> match *e {
            Error::BadSpeed => m@ == "\"speed\" should be one of 10%, 25%, 50%, 1x or 2x"@,
            Error::BadScenario => m@ == "\"scenario\" invalid or missing"@,
            Error::BadLoops(fault) => m@ == fault.words(),
            Error::ZeroLoops => m@ == "\"loops\" can't be 0"@,
            Error::BadLoad(why) | Error::BadBalloon(why) => m@ == why@,
            Error::UnknownMemHogProperty(k) => m@ == "unknown mem-hog property "@ + error::debug_text(k@),
            Error::BadPassive => m@ == "provided string was not `true` or `false`"@,
            Error::UnknownProperty(k) => m@ == "unknown property key "@ + error::debug_text(k@),
            Error::NoMemHogSysload => m@ == "agent report doesn't contain \"mem-hog\" sysload"@,
            Error::SwapStayedZero => m@ == "swap usage stayed zero"@,
        },
        call_ensures(NumberFault::message, (fault,), words) ==> match *fault {
            NumberFault::Empty => words@ == "cannot parse integer from empty string"@,
            NumberFault::InvalidDigit => words@ == "invalid digit found in string"@,
            NumberFault::TooLarge => words@ == "number too large to fit in target type"@,
        },
{
}

/// The names of speeds, in properties and as sideloads.
pub proof fn lemma_speed_names(speed: &MemHogSpeed, name: String, sideload: &'static str)
    ensures
        call_ensures(MemHogSpeed::to_string, (speed,), name) ==> match *speed {
            MemHogSpeed::Hog10Pct => name@ == "10%"@,
            MemHogSpeed::Hog25Pct => name@ == "25%"@,
            MemHogSpeed::Hog50Pct => name@ == "50%"@,
            MemHogSpeed::Hog1x => name@ == "1x"@,
            MemHogSpeed::Hog2x => name@ == "2x"@,
        },
        call_ensures(MemHogSpeed::to_sideload_name, (speed,), sideload) ==> match *speed {
            MemHogSpeed::Hog10Pct => sideload@ == "mem-hog-10pct"@,
            MemHogSpeed::Hog25Pct => sideload@ == "mem-hog-25pct"@,
            MemHogSpeed::Hog50Pct => sideload@ == "mem-hog-50pct"@,
            MemHogSpeed::Hog1x => sideload@ == "mem-hog-1x"@,
            MemHogSpeed::Hog2x => sideload@ == "mem-hog-2x"@,
        },
{
}

/// A speed is read from its name and from nothing else.
pub proof fn lemma_read_speed(s: &str, r: Result<MemHogSpeed, Error>)
    requires
        call_ensures(MemHogSpeed::from_str, (s,), r),
    ensures
        match r {
            Ok(MemHogSpeed::Hog10Pct) => s@ == "10%"@,
            Ok(MemHogSpeed::Hog25Pct) => s@ == "25%"@,
            Ok(MemHogSpeed::Hog50Pct) => s@ == "50%"@,
            Ok(MemHogSpeed::Hog1x) => s@ == "1x"@,
            Ok(MemHogSpeed::Hog2x) => s@ == "2x"@,
            Err(e) => {
                &&& e == Error::BadSpeed
                &&& s@ != "10%"@ && s@ != "25%"@ && s@ != "50%"@ && s@ != "1x"@ && s@ != "2x"@
            },
        },
{
    assert(MemHogSpeed::Hog10Pct.name() == "10%"@ && MemHogSpeed::Hog25Pct.name() == "25%"@);
    assert(MemHogSpeed::Hog50Pct.name() == "50%"@);
    assert(MemHogSpeed::Hog1x.name() == "1x"@ && MemHogSpeed::Hog2x.name() == "2x"@);
}

/// A job by default has nothing to do, and results by default hold nothing.
pub proof fn lemma_defaults<F>(job: ProtectionJob<F>, r: ProtectionResult<F>)
    ensures
        call_ensures(<ProtectionJob<F> as Default>::default, (), job) ==> !job.passive && job.balloon_size == 0
            && job.scenarios@.len() == 0,
        call_ensures(<ProtectionResult<F> as Default>::default, (), r) ==> r.scenarios@.len() == 0
            && r.combined_mem_hog is None,
{
}

/// The benchmark is called `protection`, and its jobs may have properties for
/// each of their runs.
pub proof fn lemma_desc(bench: &ProtectionBench, r: BenchDesc)
    requires
        call_ensures(ProtectionBench::desc, (bench,), r),
    ensures
        r.kind@ == "protection"@,
        r.takes_run_propsets,
{
}

/// The entries of a map from strings are in the order of the strings, each once:
/// there is one for each string of the map, and none else.
pub proof fn lemma_map_in_order<V>(
    m: &StrMap<V>,
    n: usize,
    i: usize,
    j: usize,
    a: (&str, &V),
    b: (&str, &V),
    k: Seq<char>,
)
    requires
        call_ensures(StrMap::<V>::len, (m,), n),
    ensures
        call_ensures(StrMap::<V>::at, (m, i), a) && i < n ==> m@.contains_key(a.0@) && m@[a.0@] == *a.1,
        call_ensures(StrMap::<V>::at, (m, i), a) && call_ensures(StrMap::<V>::at, (m, j), b) && i < j < n
            ==> text::precedes(a.0@, b.0@),
        m@.contains_key(k) ==> exists|l: int| 0 <= l < n && #[trigger] m.keys()[l] == k,
        call_ensures(StrMap::<V>::at, (m, i), a) && i < n ==> a.0@ == m.keys()[i as int],
{
    if m@.contains_key(k) {
        assert(m.keys().to_set().contains(k));
    }
    if call_ensures(StrMap::<V>::at, (m, i), a) && call_ensures(StrMap::<V>::at, (m, j), b) && i < j < n {
        assert(text::precedes(m.keys()[i as int], m.keys()[j as int]));
    }
}

/// A result by default has no runs, no periods, no bytes and empty tables.
pub proof fn lemma_default_result<F: Default>(r: MemHogResult<F>)
    requires
        call_ensures(<MemHogResult<F> as Default>::default, (), r),
    ensures
        r.runs@.len() == 0,
        r.hog_periods@.len() == 0,
        r.main_period == (0u64, 0u64),
        r.hog_bytes == 0 && r.hog_lost_bytes == 0,
        r.work_isol_pcts@ == Map::<Seq<char>, F>::empty(),
        r.lat_impact_pcts@ == Map::<Seq<char>, F>::empty(),
{
}

} // verus!
