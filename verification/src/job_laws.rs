//! What holds of jobs.

use vstd::prelude::*;
use vstd::string::*;

use crate::arith::{self, Op};
use crate::error::{Error, NumberFault};
use crate::job::{self, ProtectionJob, ProtectionResult, Setup};
use crate::mem_hog::{self, MemHog};
use crate::number;
use crate::scenario::{self, Scenario, ScenarioResult};
use crate::speed::MemHogSpeed;
use crate::strmap::StrMap;
use crate::text;

verus! {

broadcast use vstd::string::group_string_axioms;

/// Properties that name the mem-hog scenario and give its load, and nothing
/// else.
pub open spec fn gives_load(props: Map<Seq<char>, String>, load: Seq<char>) -> bool {
    &&& forall|k: Seq<char>| #[trigger] props.contains_key(k) <==> k == "scenario"@ || k == "load"@
    &&& props["scenario"@]@ == "mem-hog"@
    &&& props["load"@]@ == load
}

/// The property names differ.
proof fn lemma_names()
    ensures
        "scenario"@ != "load"@,
        "scenario"@ != "loops"@,
        "scenario"@ != "speed"@,
        "loops"@ != "load"@,
        "loops"@ != "speed"@,
        "load"@ != "speed"@,
        "passive"@ != "balloon"@,
        "true"@ != "false"@,
        "false"@.len() > 0,
{
    reveal_strlit("scenario");
    reveal_strlit("load");
    reveal_strlit("loops");
    reveal_strlit("speed");
    reveal_strlit("passive");
    reveal_strlit("balloon");
    reveal_strlit("true");
    reveal_strlit("false");
    assert("scenario"@.len() == 8 && "load"@.len() == 4 && "loops"@.len() == 5 && "speed"@.len() == 5);
    assert("loops"@[0] == 'l' && "speed"@[0] == 's');
    assert("passive"@[0] == 'p' && "balloon"@[0] == 'b');
    assert("true"@.len() == 4 && "false"@.len() == 5);
}

/// A scenario is a default one if, and only if, it is described by properties
/// that give its load and nothing else.
proof fn lemma_default_is_described<F, P: Fn(&str) -> Result<F, String>, A: Fn(Op<F>) -> F>(
    props: Map<Seq<char>, String>,
    load: Seq<char>,
    parse_frac: P,
    arith: A,
    s: Scenario<F>,
)
    requires
        gives_load(props, load),
    ensures
        job::is_default(load, parse_frac, s) <==> job::is_described(props, parse_frac, arith, s),
{
    lemma_names();
    let Scenario::MemHog(mh) = s;
    assert(props.contains_key("load"@) && props.contains_key("scenario"@));
    assert(!props.contains_key("loops"@) && !props.contains_key("speed"@));
    if job::is_described(props, parse_frac, arith, s) {
        assert(scenario::sets("load"@, props["load"@]@, parse_frac, mh.loops, mh.load, mh.speed));
    }
    if job::is_default(load, parse_frac, s) {
        assert forall|k: Seq<char>| #[trigger] props.contains_key(k) && k != "scenario"@ implies scenario::sets(
            k,
            props[k]@,
            parse_frac,
            mh.loops,
            mh.load,
            mh.speed,
        ) by {
            assert(k == "load"@);
        }
    }
}

/// Properties that give a load that can be read, and nothing else, are not
/// refused.
proof fn lemma_default_is_not_refused<F, P: Fn(&str) -> Result<F, String>>(
    props: Map<Seq<char>, String>,
    load: Seq<char>,
    parse_frac: P,
    e: Error,
)
    requires
        gives_load(props, load),
        load == "1.0"@ || load == "0.8"@,
        job::reads_defaults::<F, P>(parse_frac),
    ensures
        !scenario::refused(props, parse_frac, e),
{
    lemma_names();
    assert(props.contains_key("scenario"@));
    if scenario::refused(props, parse_frac, e) {
        let k = choose|k: Seq<char>|
            {
                &&& #[trigger] props.contains_key(k)
                &&& k != "scenario"@
                &&& scenario::faults(k, props[k]@, parse_frac, e)
            };
        assert(k == "load"@);
        assert(scenario::faults(k, props[k]@, parse_frac, e));
    }
}

/// A job without scenarios is a job with two of them given: one next to a load
/// of `1.0` and one next to a load of `0.8`, each by its load alone. Reading the
/// one description gives what reading the other does, if these loads can be
/// read.
pub proof fn lemma_default_scenarios<
    F,
    P: Fn(&str) -> Result<F, String>,
    Q: Fn(&str) -> Result<u64, String>,
    A: Fn(Op<F>) -> F,
>(
    own: StrMap<String>,
    first: StrMap<String>,
    second: StrMap<String>,
    parse_frac: P,
    parse_size: Q,
    arith: A,
    job: ProtectionJob<F>,
    e: Error,
)
    requires
        gives_load(first@, "1.0"@),
        gives_load(second@, "0.8"@),
    ensures
        job::is_parsed(seq![own], parse_frac, parse_size, arith, Ok(job)) <==> job::is_parsed(
            seq![own, first, second],
            parse_frac,
            parse_size,
            arith,
            Ok(job),
        ),
        job::reads_defaults::<F, P>(parse_frac) ==> (job::is_parsed::<F, P, Q, A>(
            seq![own],
            parse_frac,
            parse_size,
            arith,
            Err(e),
        ) <==> job::is_parsed::<F, P, Q, A>(seq![own, first, second], parse_frac, parse_size, arith, Err(e))),
{
    let short = seq![own];
    let long = seq![own, first, second];
    if job::reads_defaults::<F, P>(parse_frac) {
        lemma_default_is_not_refused::<F, P>(first@, "1.0"@, parse_frac, e);
        lemma_default_is_not_refused::<F, P>(second@, "0.8"@, parse_frac, e);
        assert(long[1] == first && long[2] == second);
        assert(!job::misses_scenario::<F, P, A>(long, parse_frac, arith, e)) by {
            if job::misses_scenario::<F, P, A>(long, parse_frac, arith, e) {
                let i = choose|i: int|
                    {
                        &&& 1 <= i < long.len()
                        &&& scenario::refused(#[trigger] long[i]@, parse_frac, e)
                        &&& forall|j: int| 1 <= j < i ==> job::describes(#[trigger] long[j]@, parse_frac, arith)
                    };
                assert(i == 1 || i == 2);
            }
        }
    }
    if job.scenarios@.len() == 2 {
        lemma_default_is_described(first@, "1.0"@, parse_frac, arith, job.scenarios@[0]);
        lemma_default_is_described(second@, "0.8"@, parse_frac, arith, job.scenarios@[1]);
    }
    if job::is_parsed(long, parse_frac, parse_size, arith, Ok(job)) {
        assert(job::is_described(long[1]@, parse_frac, arith, job.scenarios@[0]));
        assert(job::is_described(long[2]@, parse_frac, arith, job.scenarios@[1]));
    }
    if job::is_parsed(short, parse_frac, parse_size, arith, Ok(job)) {
        assert forall|i: int| 0 <= i < job.scenarios@.len() implies job::is_described(
            long[i + 1]@,
            parse_frac,
            arith,
            #[trigger] job.scenarios@[i],
        ) by {
            assert(i == 0 || i == 1);
        }
    }
}

/// The scenarios of a job are, one by one and in their order, what reading each
/// run's properties on its own gives. Its parameters are what its own properties
/// say.
pub proof fn lemma_scenarios_one_by_one<
    F,
    P: Fn(&str) -> Result<F, String>,
    Q: Fn(&str) -> Result<u64, String>,
    A: Fn(Op<F>) -> F,
>(props: Seq<StrMap<String>>, parse_frac: P, parse_size: Q, arith: A, job: ProtectionJob<F>)
    requires
        props.len() > 1,
        job::is_parsed(props, parse_frac, parse_size, arith, Ok(job)),
    ensures
        job::configured(props[0]@, parse_size, job.passive, job.balloon_size),
        job.scenarios@.len() + 1 == props.len(),
        forall|i: int|
            0 < i < props.len() ==> (job.scenarios@[i - 1] matches Scenario::MemHog(mh) && scenario::described(
                (#[trigger] props[i])@,
                parse_frac,
                arith,
                mh,
            )),
{
    assert forall|i: int| 0 < i < props.len() implies (job.scenarios@[i - 1] matches Scenario::MemHog(mh)
        && scenario::described((#[trigger] props[i])@, parse_frac, arith, mh)) by {
        assert(job::is_described(props[(i - 1) + 1]@, parse_frac, arith, job.scenarios@[i - 1]));
    }
}

/// What the properties of a scenario say, each on its own: how often the hog is
/// run, which is three times unless told otherwise; the load, which is a full
/// one unless told otherwise; and the speed, which is `2x` unless told
/// otherwise. There are no other properties.
pub proof fn lemma_scenario_params<F, P: Fn(&str) -> Result<F, String>, A: Fn(Op<F>) -> F>(
    props: Map<Seq<char>, String>,
    parse_frac: P,
    arith: A,
    mh: MemHog<F>,
)
    requires
        scenario::described(props, parse_frac, arith, mh),
    ensures
        props.contains_key("scenario"@) && props["scenario"@]@ == "mem-hog"@,
        forall|k: Seq<char>| #[trigger]
            props.contains_key(k) ==> k == "scenario"@ || k == "loops"@ || k == "load"@ || k == "speed"@,
        props.contains_key("loops"@) ==> number::is_u32(props["loops"@]@) && mh.loops == number::value(
            number::without_plus(props["loops"@]@),
        ),
        !props.contains_key("loops"@) ==> mh.loops == 3,
        mh.loops > 0,
        props.contains_key("load"@) ==> exists|s: &str|
            s@ == props["load"@]@ && #[trigger] call_ensures(parse_frac, (s,), Ok(mh.load)),
        !props.contains_key("load"@) ==> arith::gives(arith, Op::Int(1), mh.load),
        props.contains_key("speed"@) ==> {
            let speed = props["speed"@]@;
            &&& mh.speed == MemHogSpeed::Hog10Pct <==> speed == "10%"@
            &&& mh.speed == MemHogSpeed::Hog25Pct <==> speed == "25%"@
            &&& mh.speed == MemHogSpeed::Hog50Pct <==> speed == "50%"@
            &&& mh.speed == MemHogSpeed::Hog1x <==> speed == "1x"@
            &&& mh.speed == MemHogSpeed::Hog2x <==> speed == "2x"@
        },
        !props.contains_key("speed"@) ==> mh.speed == MemHogSpeed::Hog2x,
        mh.main_period == (0u64, 0u64),
        mh.runs@.len() == 0,
{
    lemma_names();
    lemma_speeds(mh.speed);
    if props.contains_key("loops"@) {
        assert(scenario::sets("loops"@, props["loops"@]@, parse_frac, mh.loops, mh.load, mh.speed));
    }
    if props.contains_key("load"@) {
        assert(scenario::sets("load"@, props["load"@]@, parse_frac, mh.loops, mh.load, mh.speed));
    }
    if props.contains_key("speed"@) {
        assert(scenario::sets("speed"@, props["speed"@]@, parse_frac, mh.loops, mh.load, mh.speed));
    }
    assert forall|k: Seq<char>| #[trigger] props.contains_key(k) implies k == "scenario"@ || k == "loops"@ || k
        == "load"@ || k == "speed"@ by {
        if k != "scenario"@ {
            assert(scenario::sets(k, props[k]@, parse_frac, mh.loops, mh.load, mh.speed));
        }
    }
}

/// The names that speeds are read by.
proof fn lemma_speeds(speed: MemHogSpeed)
    ensures
        speed == MemHogSpeed::Hog10Pct <==> speed.name() == "10%"@,
        speed == MemHogSpeed::Hog25Pct <==> speed.name() == "25%"@,
        speed == MemHogSpeed::Hog50Pct <==> speed.name() == "50%"@,
        speed == MemHogSpeed::Hog1x <==> speed.name() == "1x"@,
        speed == MemHogSpeed::Hog2x <==> speed.name() == "2x"@,
{
    reveal_strlit("10%");
    reveal_strlit("25%");
    reveal_strlit("50%");
    reveal_strlit("1x");
    reveal_strlit("2x");
    assert("10%"@[0] == '1' && "25%"@[0] == '2' && "50%"@[0] == '5');
    assert("1x"@.len() == 2 && "2x"@.len() == 2 && "1x"@[0] == '1' && "2x"@[0] == '2');
    assert("10%"@.len() == 3 && "25%"@.len() == 3 && "50%"@.len() == 3);
}

/// What is wrong with a scenario that is refused is there in its properties.
pub proof fn lemma_scenario_error<F, P: Fn(&str) -> Result<F, String>>(
    props: Map<Seq<char>, String>,
    parse_frac: P,
    e: Error,
)
    requires
        scenario::refused(props, parse_frac, e),
    ensures
        match e {
            Error::BadScenario => !props.contains_key("scenario"@) || props["scenario"@]@ != "mem-hog"@,
            Error::BadLoops(fault) => {
                &&& props.contains_key("loops"@) && !number::is_u32(props["loops"@]@)
                &&& fault == NumberFault::Empty <==> props["loops"@]@.len() == 0
                &&& number::is_digits(number::without_plus(props["loops"@]@)) ==> fault == NumberFault::TooLarge
            },
            Error::ZeroLoops => props.contains_key("loops"@) && number::is_u32(props["loops"@]@) && number::value(
                number::without_plus(props["loops"@]@),
            ) == 0,
            Error::BadLoad(why) => props.contains_key("load"@) && exists|s: &str|
                s@ == props["load"@]@ && #[trigger] call_ensures(parse_frac, (s,), Err(why)),
            Error::BadSpeed => {
                let speed = props["speed"@]@;
                &&& props.contains_key("speed"@)
                &&& speed != "10%"@ && speed != "25%"@ && speed != "50%"@ && speed != "1x"@ && speed != "2x"@
            },
            Error::UnknownMemHogProperty(k) => {
                &&& props.contains_key(k@)
                &&& k@ != "scenario"@ && k@ != "loops"@ && k@ != "load"@ && k@ != "speed"@
            },
            _ => false,
        },
{
    lemma_names();
    if props.contains_key("scenario"@) && props["scenario"@]@ == "mem-hog"@ {
        let k = choose|k: Seq<char>|
            {
                &&& #[trigger] props.contains_key(k)
                &&& k != "scenario"@
                &&& scenario::faults(k, props[k]@, parse_frac, e)
            };
        if let Error::BadLoops(fault) = e {
            number::lemma_fault(props["loops"@]@, fault);
        }
        lemma_speeds(MemHogSpeed::Hog10Pct);
        lemma_speeds(MemHogSpeed::Hog25Pct);
        lemma_speeds(MemHogSpeed::Hog50Pct);
        lemma_speeds(MemHogSpeed::Hog1x);
        lemma_speeds(MemHogSpeed::Hog2x);
        assert(scenario::faults(k, props[k]@, parse_frac, e));
    }
}

/// The property that an error about a scenario's properties is about.
pub open spec fn scenario_key(e: Error) -> Seq<char> {
    match e {
        Error::BadLoops(_) | Error::ZeroLoops => "loops"@,
        Error::BadLoad(_) => "load"@,
        Error::BadSpeed => "speed"@,
        Error::UnknownMemHogProperty(k) => k@,
        _ => "scenario"@,
    }
}

/// An error about a scenario's properties is about the first of them that is
/// wrong, in key order: those before it are known, and their values are in
/// order.
pub proof fn lemma_scenario_error_is_first<F, P: Fn(&str) -> Result<F, String>>(
    props: Map<Seq<char>, String>,
    parse_frac: P,
    e: Error,
    j: Seq<char>,
)
    requires
        scenario::refused(props, parse_frac, e),
        !(e is BadScenario),
        props.contains_key(j),
        j != "scenario"@,
        text::precedes(j, scenario_key(e)),
    ensures
        j == "loops"@ || j == "load"@ || j == "speed"@,
        j == "loops"@ ==> number::is_u32(props[j]@) && number::value(number::without_plus(props[j]@)) > 0,
        j == "load"@ ==> exists|s: &str, x: F| s@ == props[j]@ && #[trigger] call_ensures(parse_frac, (s,), Ok(x)),
        j == "speed"@ ==> {
            let speed = props[j]@;
            speed == "10%"@ || speed == "25%"@ || speed == "50%"@ || speed == "1x"@ || speed == "2x"@
        },
{
    lemma_names();
    let k = choose|k: Seq<char>|
        {
            &&& #[trigger] props.contains_key(k)
            &&& k != "scenario"@
            &&& scenario::faults(k, props[k]@, parse_frac, e)
            &&& forall|j: Seq<char>| #[trigger]
                props.contains_key(j) && j != "scenario"@ && text::precedes(j, k) ==> scenario::passes(
                    j,
                    props[j]@,
                    parse_frac,
                )
        };
    assert(k == scenario_key(e));
    assert(scenario::passes(j, props[j]@, parse_frac));
    let (loops, load, speed) = choose|loops: u32, load: F, speed: MemHogSpeed| #[trigger]
        scenario::sets(j, props[j]@, parse_frac, loops, load, speed);
    lemma_speeds(speed);
}

/// The property that an error about a job's own properties is about.
pub open spec fn job_key(e: Error) -> Seq<char> {
    match e {
        Error::BadBalloon(_) => "balloon"@,
        Error::UnknownProperty(k) => k@,
        _ => "passive"@,
    }
}

/// An error about a job's own properties is about the first of them that is
/// wrong, in key order.
pub proof fn lemma_job_error_is_first<Q: Fn(&str) -> Result<u64, String>>(
    props: Map<Seq<char>, String>,
    parse_size: Q,
    e: Error,
    j: Seq<char>,
)
    requires
        job::misconfigured(props, parse_size, e),
        props.contains_key(j),
        text::precedes(j, job_key(e)),
    ensures
        j == "passive"@ || j == "balloon"@,
        j == "passive"@ ==> props[j]@.len() == 0 || props[j]@ == "true"@ || props[j]@ == "false"@,
        j == "balloon"@ ==> exists|s: &str, n: u64|
            s@ == props[j]@ && #[trigger] call_ensures(parse_size, (s,), Ok(n)),
{
    lemma_names();
    let k = choose|k: Seq<char>|
        {
            &&& #[trigger] props.contains_key(k)
            &&& job::faults(k, props[k]@, parse_size, e)
            &&& forall|j: Seq<char>| #[trigger]
                props.contains_key(j) && text::precedes(j, k) ==> job::passes(j, props[j]@, parse_size)
        };
    assert(k == job_key(e));
    assert(job::passes(j, props[j]@, parse_size));
    let (passive, balloon_size) = choose|passive: bool, balloon_size: usize| #[trigger]
        job::sets(j, props[j]@, parse_size, passive, balloon_size);
}

/// What the properties of a job itself say, each on its own: it is passive if,
/// and only if, there is `passive` and its value is not `false`, and its
/// balloon has the size that is read from `balloon`, or none without that.
pub proof fn lemma_job_params<Q: Fn(&str) -> Result<u64, String>>(
    props: Map<Seq<char>, String>,
    parse_size: Q,
    passive: bool,
    balloon_size: usize,
)
    requires
        job::configured(props, parse_size, passive, balloon_size),
    ensures
        passive <==> props.contains_key("passive"@) && props["passive"@]@ != "false"@,
        props.contains_key("passive"@) ==> props["passive"@]@.len() == 0 || props["passive"@]@ == "true"@
            || props["passive"@]@ == "false"@,
        props.contains_key("balloon"@) ==> exists|s: &str, n: u64|
            s@ == props["balloon"@]@ && #[trigger] call_ensures(parse_size, (s,), Ok(n)) && balloon_size == n as usize,
        !props.contains_key("balloon"@) ==> balloon_size == 0,
        forall|k: Seq<char>| #[trigger] props.contains_key(k) ==> k == "passive"@ || k == "balloon"@,
{
    lemma_names();
    if props.contains_key("passive"@) {
        assert(job::sets("passive"@, props["passive"@]@, parse_size, passive, balloon_size));
    }
    if props.contains_key("balloon"@) {
        assert(job::sets("balloon"@, props["balloon"@]@, parse_size, passive, balloon_size));
    }
    assert forall|k: Seq<char>| #[trigger] props.contains_key(k) implies k == "passive"@ || k == "balloon"@ by {
        assert(job::sets(k, props[k]@, parse_size, passive, balloon_size));
    }
}

/// What is wrong with the properties of a job itself is there in them.
pub proof fn lemma_job_error<Q: Fn(&str) -> Result<u64, String>>(
    props: Map<Seq<char>, String>,
    parse_size: Q,
    e: Error,
)
    requires
        job::misconfigured(props, parse_size, e),
    ensures
        match e {
            Error::BadPassive => {
                let v = props["passive"@]@;
                props.contains_key("passive"@) && v.len() > 0 && v != "true"@ && v != "false"@
            },
            Error::BadBalloon(why) => props.contains_key("balloon"@) && exists|s: &str|
                s@ == props["balloon"@]@ && #[trigger] call_ensures(parse_size, (s,), Err(why)),
            Error::UnknownProperty(k) => props.contains_key(k@) && k@ != "passive"@ && k@ != "balloon"@,
            _ => false,
        },
{
    lemma_names();
    let k = choose|k: Seq<char>| #[trigger] props.contains_key(k) && job::faults(k, props[k]@, parse_size, e);
    assert(job::faults(k, props[k]@, parse_size, e));
}

/// The steps on the way to the first scenario. The parameters of the workload
/// are found first. There is a balloon step if, and only if, the balloon has a
/// size, and it has that size, whether the job is passive or not. There is a
/// passive step if, and only if, the job is passive, and it comes right behind
/// the first step. The test files are prepared and the agent is started last.
/// No step is taken twice.
pub proof fn lemma_setup<F>(job: ProtectionJob<F>, steps: Seq<Setup>)
    requires
        steps == job.setup_spec(),
    ensures
        steps.len() >= 3,
        steps[0] == Setup::FindHashdParams,
        steps[steps.len() - 2] == Setup::PrepTestfiles,
        steps[steps.len() - 1] == Setup::StartAgent,
        steps.contains(Setup::Passive) <==> job.passive,
        job.passive ==> steps[1] == Setup::Passive,
        forall|n: usize| #[trigger]
            steps.contains(Setup::Balloon { size: n }) <==> (n > 0 && n == job.balloon_size),
        job.balloon_size > 0 ==> steps[steps.len() - 3] == (Setup::Balloon { size: job.balloon_size }),
        forall|i: int, j: int| 0 <= i < j < steps.len() ==> steps[i] != steps[j],
{
    if job.passive {
        assert(steps[1] == Setup::Passive);
    }
    if job.balloon_size > 0 {
        assert(steps[steps.len() - 3] == (Setup::Balloon { size: job.balloon_size }));
    }
}

/// Two jobs take the same steps if, and only if, they agree on whether they are
/// passive and on the size of the balloon.
pub proof fn lemma_setup_tells<F>(a: ProtectionJob<F>, b: ProtectionJob<F>)
    ensures
        a.setup_spec() == b.setup_spec() <==> a.passive == b.passive && a.balloon_size == b.balloon_size,
{
    lemma_setup(a, a.setup_spec());
    lemma_setup(b, b.setup_spec());
    if a.setup_spec() == b.setup_spec() {
        assert(a.setup_spec().contains(Setup::Balloon { size: a.balloon_size }) <==> a.balloon_size > 0);
        assert(a.setup_spec().contains(Setup::Balloon { size: b.balloon_size }) <==> b.balloon_size > 0);
    }
}

/// The results that are combined are those of all scenarios, in their order.
pub proof fn lemma_mem_hogs<F>(r: ProtectionResult<F>)
    ensures
        r.mem_hogs_spec().len() == r.scenarios@.len(),
        forall|i: int|
            0 <= i < r.scenarios@.len() ==> ScenarioResult::MemHog(*#[trigger] r.mem_hogs_spec()[i])
                == r.scenarios@[i],
{
}

/// There is a scenario that properties describe.
pub open spec fn has_scenario<F, P: Fn(&str) -> Result<F, String>, A: Fn(Op<F>) -> F>(
    props: Map<Seq<char>, String>,
    parse_frac: P,
    arith: A,
) -> bool {
    exists|mh: MemHog<F>| #[trigger] scenario::described(props, parse_frac, arith, mh)
}

/// An error in reading a job is about the job's own properties, or about those
/// of the first run that are wrong. It is about those of a run only if the job's
/// own are in order.
pub proof fn lemma_parse_error<
    F,
    P: Fn(&str) -> Result<F, String>,
    Q: Fn(&str) -> Result<u64, String>,
    A: Fn(Op<F>) -> F,
>(props: Seq<StrMap<String>>, parse_frac: P, parse_size: Q, arith: A, e: Error)
    requires
        props.len() > 0,
        job::is_parsed::<F, P, Q, A>(props, parse_frac, parse_size, arith, Err(e)),
    ensures
        (e is BadPassive || e is BadBalloon || e is UnknownProperty) <==> job::misconfigured(
            props[0]@,
            parse_size,
            e,
        ),
        !(e is BadPassive || e is BadBalloon || e is UnknownProperty) ==> {
            &&& exists|passive: bool, size: usize| #[trigger]
                job::configured(props[0]@, parse_size, passive, size)
            &&& exists|i: int|
                {
                    &&& 1 <= i < props.len()
                    &&& scenario::refused((#[trigger] props[i])@, parse_frac, e)
                    &&& forall|j: int| 1 <= j < i ==> has_scenario((#[trigger] props[j])@, parse_frac, arith)
                }
        },
{
    if job::misconfigured(props[0]@, parse_size, e) {
        lemma_job_error(props[0]@, parse_size, e);
    } else {
        let i = choose|i: int|
            {
                &&& 1 <= i < props.len()
                &&& scenario::refused(#[trigger] props[i]@, parse_frac, e)
                &&& forall|j: int| 1 <= j < i ==> job::describes(#[trigger] props[j]@, parse_frac, arith)
            };
        lemma_scenario_error(props[i]@, parse_frac, e);
        assert(job::is_configured(props[0]@, parse_size));
        assert forall|j: int| 1 <= j < i implies has_scenario((#[trigger] props[j])@, parse_frac, arith) by {
            assert(job::describes(props[j]@, parse_frac, arith));
            let s = choose|s: Scenario<F>| #[trigger] job::is_described(props[j]@, parse_frac, arith, s);
            let Scenario::MemHog(mh) = s;
            assert(scenario::described(props[j]@, parse_frac, arith, mh));
        }
        assert(scenario::refused(props[i]@, parse_frac, e));
    }
}

/// Scenarios have the same parameters and the same runs.
pub open spec fn same_hog<F>(a: MemHog<F>, b: MemHog<F>) -> bool {
    &&& b.loops == a.loops && b.load == a.load && b.speed == a.speed
    &&& b.main_period == a.main_period
    &&& b.runs@ == a.runs@
}

/// A clone of a job is the same job, if cloning a quantity gives the quantity.
pub proof fn lemma_job_clone<F: Clone>(a: ProtectionJob<F>, b: ProtectionJob<F>)
    requires
        cloned(a, b),
        mem_hog::clones_exactly::<F>(),
    ensures
        b.passive == a.passive,
        b.balloon_size == a.balloon_size,
        b.scenarios@.len() == a.scenarios@.len(),
        forall|i: int|
            0 <= i < a.scenarios@.len() ==> match (#[trigger] a.scenarios@[i], b.scenarios@[i]) {
                (Scenario::MemHog(x), Scenario::MemHog(y)) => same_hog(x, y),
            },
{
    assert forall|i: int| 0 <= i < a.scenarios@.len() implies match (#[trigger] a.scenarios@[i], b.scenarios@[i]) {
        (Scenario::MemHog(x), Scenario::MemHog(y)) => same_hog(x, y),
    } by {
        assert(cloned(a.scenarios@[i], b.scenarios@[i]));
        let (Scenario::MemHog(x), Scenario::MemHog(y)) = (a.scenarios@[i], b.scenarios@[i]);
        assert(cloned(x, y));
        assert(x == y || cloned(x.load, y.load));
    }
}

/// A clone of results holds the same results, if cloning a quantity gives the
/// quantity.
pub proof fn lemma_results_clone<F: Clone>(a: ProtectionResult<F>, b: ProtectionResult<F>)
    requires
        cloned(a, b),
        mem_hog::clones_exactly::<F>(),
    ensures
        b.scenarios@.len() == a.scenarios@.len(),
        forall|i: int|
            0 <= i < a.scenarios@.len() ==> match (#[trigger] a.scenarios@[i], b.scenarios@[i]) {
                (ScenarioResult::MemHog(x), ScenarioResult::MemHog(y)) => mem_hog::same_result(x, y),
            },
        match (a.combined_mem_hog, b.combined_mem_hog) {
            (Some(x), Some(y)) => mem_hog::same_result(x, y),
            (None, None) => true,
            _ => false,
        },
{
    assert forall|i: int| 0 <= i < a.scenarios@.len() implies match (#[trigger] a.scenarios@[i], b.scenarios@[i]) {
        (ScenarioResult::MemHog(x), ScenarioResult::MemHog(y)) => mem_hog::same_result(x, y),
    } by {
        assert(cloned(a.scenarios@[i], b.scenarios@[i]));
        let (ScenarioResult::MemHog(x), ScenarioResult::MemHog(y)) = (a.scenarios@[i], b.scenarios@[i]);
        assert(cloned(x, y));
        mem_hog::lemma_result_clone(x, y);
    }
    if let (Some(x), Some(y)) = (a.combined_mem_hog, b.combined_mem_hog) {
        assert(cloned(x, y));
        mem_hog::lemma_result_clone(x, y);
    }
}

/// What properties describe that give a load and nothing else.
pub proof fn lemma_plain<F, P: Fn(&str) -> Result<F, String>, A: Fn(Op<F>) -> F>(
    props: Map<Seq<char>, String>,
    load: Seq<char>,
    parse_frac: P,
    arith: A,
    mh: MemHog<F>,
)
    requires
        gives_load(props, load),
        scenario::described(props, parse_frac, arith, mh),
    ensures
        mh.loops == 3,
        exists|s: &str| s@ == load && #[trigger] call_ensures(parse_frac, (s,), Ok(mh.load)),
        mh.speed == MemHogSpeed::Hog2x,
        mh.main_period == (0u64, 0u64),
        mh.runs@.len() == 0,
{
    lemma_names();
    lemma_scenario_params(props, parse_frac, arith, mh);
    assert(props.contains_key("load"@));
    assert(!props.contains_key("loops"@) && !props.contains_key("speed"@));
}

} // verus!
