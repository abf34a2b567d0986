//! Protection jobs.

use vstd::prelude::*;
use vstd::string::*;

use crate::arith::{self, Op};
use crate::combine;
use crate::error::Error;
use crate::layout;
use crate::lists;
use crate::mem_hog::{MemHog, MemHogResult};
use crate::number::parse_bool;
use crate::page::{self, Page, Part, Piece, PieceView};
use crate::readings::{self, Source};
use crate::report::Report;
use crate::scenario::{self, Scenario, ScenarioResult};
use crate::speed::MemHogSpeed;
use crate::strmap::{self, StrMap};
use crate::text::{self, push_decimal, same};

verus! {

broadcast use vstd::string::group_string_axioms;

/// The description of a job: its own properties, and then those of each of
/// its runs.
#[derive(Debug)]
pub struct JobSpec {
    pub props: Vec<StrMap<String>>,
}

/// A protection job.
#[derive(Debug)]
pub struct ProtectionJob<F> {
    /// Whether the agent's controllers are to stay out of it.
    pub passive: bool,
    /// The size of the memory balloon, in bytes; none if zero.
    pub balloon_size: usize,
    pub scenarios: Vec<Scenario<F>>,
}

/// The results of a protection job.
#[derive(Debug)]
pub struct ProtectionResult<F> {
    pub scenarios: Vec<ScenarioResult<F>>,
    /// The results of all memory-hog scenarios, combined.
    pub combined_mem_hog: Option<MemHogResult<F>>,
}

impl<F> Default for ProtectionJob<F> {
    /// A job with nothing to do.
    fn default() -> (r: Self)
        ensures
            !r.passive,
            r.balloon_size == 0,
            r.scenarios@.len() == 0,
    {
        ProtectionJob { passive: false, balloon_size: 0, scenarios: Vec::new() }
    }
}

impl<F: Clone> Clone for ProtectionJob<F> {
    /// The same job.
    fn clone(&self) -> (r: Self)
        ensures
            r.passive == self.passive,
            r.balloon_size == self.balloon_size,
            r.scenarios@.len() == self.scenarios@.len(),
            forall|i: int|
                0 <= i < r.scenarios@.len() ==> cloned(self.scenarios@[i], #[trigger] r.scenarios@[i]),
    {
        ProtectionJob { passive: self.passive, balloon_size: self.balloon_size, scenarios: self.scenarios.clone() }
    }
}

impl<F: Clone> Clone for ProtectionResult<F> {
    /// The same results.
    fn clone(&self) -> (r: Self)
        ensures
            r.scenarios@.len() == self.scenarios@.len(),
            forall|i: int|
                0 <= i < r.scenarios@.len() ==> cloned(self.scenarios@[i], #[trigger] r.scenarios@[i]),
            match (self.combined_mem_hog, r.combined_mem_hog) {
                (Some(a), Some(b)) => cloned(a, b),
                (None, None) => true,
                _ => false,
            },
    {
        let combined_mem_hog = match &self.combined_mem_hog {
            Some(hog) => Some(hog.clone()),
            None => None,
        };
        ProtectionResult { scenarios: self.scenarios.clone(), combined_mem_hog }
    }
}

/// What a kind of benchmark is called and takes.
#[derive(Debug)]
pub struct BenchDesc {
    pub kind: &'static str,
    /// Whether a job may have properties for each of its runs.
    pub takes_run_propsets: bool,
}

/// The kind of benchmark that protection jobs are.
#[derive(Debug)]
pub struct ProtectionBench {}

/// A property of a job, accepted as the value of a parameter.
pub open spec fn sets<P: Fn(&str) -> Result<u64, String>>(
    key: Seq<char>,
    v: Seq<char>,
    parse_size: P,
    passive: bool,
    balloon_size: usize,
) -> bool {
    if key == "passive"@ {
        if passive {
            v.len() == 0 || v == "true"@
        } else {
            v == "false"@
        }
    } else if key == "balloon"@ {
        exists|n: u64| #[trigger] scenario::parsed(parse_size, v, Ok(n)) && balloon_size == n as usize
    } else {
        false
    }
}

/// A property of a job is in order.
pub open spec fn passes<P: Fn(&str) -> Result<u64, String>>(key: Seq<char>, v: Seq<char>, parse_size: P) -> bool {
    exists|passive: bool, balloon_size: usize| #[trigger] sets(key, v, parse_size, passive, balloon_size)
}

/// What is wrong with a property of a job.
pub open spec fn faults<P: Fn(&str) -> Result<u64, String>>(
    key: Seq<char>,
    v: Seq<char>,
    parse_size: P,
    e: Error,
) -> bool {
    if key == "passive"@ {
        e == Error::BadPassive && v.len() > 0 && v != "true"@ && v != "false"@
    } else if key == "balloon"@ {
        e matches Error::BadBalloon(why) && scenario::parsed(parse_size, v, Err(why))
    } else {
        e matches Error::UnknownProperty(k) && k@ == key
    }
}

/// Parameters are what the properties say, with the defaults for those that
/// are not there.
pub open spec fn configured<P: Fn(&str) -> Result<u64, String>>(
    props: Map<Seq<char>, String>,
    parse_size: P,
    passive: bool,
    balloon_size: usize,
) -> bool {
    &&& forall|k: Seq<char>| #[trigger]
        props.contains_key(k) ==> sets(k, props[k]@, parse_size, passive, balloon_size)
    &&& !props.contains_key("passive"@) ==> !passive
    &&& !props.contains_key("balloon"@) ==> balloon_size == 0
}

/// An error is about the first of the properties, in key order, that is not
/// in order.
pub open spec fn misconfigured<P: Fn(&str) -> Result<u64, String>>(
    props: Map<Seq<char>, String>,
    parse_size: P,
    e: Error,
) -> bool {
    exists|k: Seq<char>|
        {
            &&& #[trigger] props.contains_key(k)
            &&& faults(k, props[k]@, parse_size, e)
            &&& forall|j: Seq<char>| #[trigger]
                props.contains_key(j) && text::precedes(j, k) ==> passes(j, props[j]@, parse_size)
        }
}

/// A scenario is what its properties say.
pub open spec fn is_described<F, P: Fn(&str) -> Result<F, String>, A: Fn(Op<F>) -> F>(
    props: Map<Seq<char>, String>,
    parse_frac: P,
    arith: A,
    s: Scenario<F>,
) -> bool {
    match s {
        Scenario::MemHog(mh) => scenario::described(props, parse_frac, arith, mh),
    }
}

/// Properties describe a scenario.
pub open spec fn describes<F, P: Fn(&str) -> Result<F, String>, A: Fn(Op<F>) -> F>(
    props: Map<Seq<char>, String>,
    parse_frac: P,
    arith: A,
) -> bool {
    exists|s: Scenario<F>| #[trigger] is_described(props, parse_frac, arith, s)
}

/// A scenario is a memory hog with the given load and otherwise the defaults.
pub open spec fn is_default<F, P: Fn(&str) -> Result<F, String>>(
    load: Seq<char>,
    parse_frac: P,
    s: Scenario<F>,
) -> bool {
    match s {
        Scenario::MemHog(mh) => {
            &&& mh.loops == scenario::DFL_LOOPS
            &&& scenario::parsed(parse_frac, load, Ok(mh.load))
            &&& mh.speed == MemHogSpeed::Hog2x
            &&& mh.main_period == (0u64, 0u64)
            &&& mh.runs@.len() == 0
        },
    }
}

/// The scenarios of a job: one for each run's properties; if there are none,
/// a memory hog next to a full load and one next to a load of four fifths.
pub open spec fn lists_scenarios<F, P: Fn(&str) -> Result<F, String>, A: Fn(Op<F>) -> F>(
    props: Seq<StrMap<String>>,
    parse_frac: P,
    arith: A,
    scenarios: Seq<Scenario<F>>,
) -> bool {
    if props.len() > 1 {
        &&& scenarios.len() == props.len() - 1
        &&& forall|i: int|
            0 <= i < scenarios.len() ==> is_described(props[i + 1]@, parse_frac, arith, #[trigger] scenarios[i])
    } else {
        &&& scenarios.len() == 2
        &&& is_default("1.0"@, parse_frac, scenarios[0])
        &&& is_default("0.8"@, parse_frac, scenarios[1])
    }
}

/// An error is about the first of the runs' properties that describe no
/// scenario.
pub open spec fn misses_scenario<F, P: Fn(&str) -> Result<F, String>, A: Fn(Op<F>) -> F>(
    props: Seq<StrMap<String>>,
    parse_frac: P,
    arith: A,
    e: Error,
) -> bool {
    exists|i: int|
        {
            &&& 1 <= i < props.len()
            &&& scenario::refused(#[trigger] props[i]@, parse_frac, e)
            &&& forall|j: int| 1 <= j < i ==> describes(#[trigger] props[j]@, parse_frac, arith)
        }
}

/// The loads of the default scenarios can be read.
pub open spec fn reads_defaults<F, P: Fn(&str) -> Result<F, String>>(parse_frac: P) -> bool {
    forall|s: Seq<char>, r: Result<F, String>|
        (s == "1.0"@ || s == "0.8"@) && #[trigger] scenario::parsed(parse_frac, s, r) ==> r is Ok
}

/// The properties of the job itself are in order.
pub open spec fn is_configured<P: Fn(&str) -> Result<u64, String>>(
    props: Map<Seq<char>, String>,
    parse_size: P,
) -> bool {
    exists|passive: bool, balloon_size: usize| #[trigger] configured(props, parse_size, passive, balloon_size)
}

/// What comes of reading a job: the job, or an error about its own properties,
/// or, if those are in order, one about those of its runs.
pub open spec fn is_parsed<
    F,
    P: Fn(&str) -> Result<F, String>,
    Q: Fn(&str) -> Result<u64, String>,
    A: Fn(Op<F>) -> F,
>(
    props: Seq<StrMap<String>>,
    parse_frac: P,
    parse_size: Q,
    arith: A,
    r: Result<ProtectionJob<F>, Error>,
) -> bool {
    match r {
        Ok(job) => {
            &&& configured(props[0]@, parse_size, job.passive, job.balloon_size)
            &&& lists_scenarios(props, parse_frac, arith, job.scenarios@)
        },
        Err(e) => {
            ||| misconfigured(props[0]@, parse_size, e)
            ||| {
                &&& is_configured(props[0]@, parse_size)
                &&& misses_scenario(props, parse_frac, arith, e)
            }
        },
    }
}

/// A job that was read has a scenario to run, and each of its scenarios runs
/// its hog at least once and has recorded nothing yet.
pub proof fn lemma_parsed_job_has_work<
    F,
    P: Fn(&str) -> Result<F, String>,
    Q: Fn(&str) -> Result<u64, String>,
    A: Fn(Op<F>) -> F,
>(
    props: Seq<StrMap<String>>,
    parse_frac: P,
    parse_size: Q,
    arith: A,
    job: ProtectionJob<F>,
)
    requires
        props.len() > 0,
        is_parsed(props, parse_frac, parse_size, arith, Ok(job)),
    ensures
        job.scenarios@.len() > 0,
        forall|i: int|
            0 <= i < job.scenarios@.len() ==> (#[trigger] job.scenarios@[i] matches Scenario::MemHog(mh) && mh.loops > 0
                && mh.runs@.len() == 0),
{
    assert forall|i: int| 0 <= i < job.scenarios@.len() implies (#[trigger] job.scenarios@[i] matches Scenario::MemHog(
        mh,
    ) && mh.loops > 0 && mh.runs@.len() == 0) by {
        if props.len() > 1 {
            assert(is_described(props[i + 1]@, parse_frac, arith, job.scenarios@[i]));
        } else {
            assert(i == 0 || i == 1);
        }
    }
}

/// The property names differ.
proof fn lemma_names_differ()
    ensures
        "passive"@ != "balloon"@,
        "scenario"@ != "load"@,
        "loops"@ != "load"@,
        "loops"@ != "scenario"@,
        "speed"@ != "load"@,
        "speed"@ != "scenario"@,
        "true"@ != "false"@,
        "true"@.len() > 0,
        "false"@.len() > 0,
{
    reveal_strlit("passive");
    reveal_strlit("balloon");
    reveal_strlit("scenario");
    reveal_strlit("load");
    reveal_strlit("loops");
    reveal_strlit("speed");
    reveal_strlit("true");
    reveal_strlit("false");
    assert("passive"@[0] == 'p' && "balloon"@[0] == 'b');
    assert("scenario"@.len() == 8 && "load"@.len() == 4 && "loops"@.len() == 5 && "speed"@.len() == 5);
    assert("true"@.len() == 4 && "false"@.len() == 5);
}

/// Reads the properties of the job itself: whether it is passive, and the size
/// of its balloon.
pub fn parse_params<P: Fn(&str) -> Result<u64, String>>(props: &StrMap<String>, parse_size: &P) -> (r: Result<
    (bool, usize),
    Error,
>)
    requires
        scenario::takes_all(*parse_size),
    ensures
        match r {
            Ok((passive, balloon_size)) => configured(props@, *parse_size, passive, balloon_size),
            Err(e) => misconfigured(props@, *parse_size, e),
        },
{
    proof {
        lemma_names_differ();
    }
    let mut passive = false;
    let mut balloon_size: usize = 0;
    let n = props.len();
    let ghost keys = props.keys();
    proof {
        assert forall|j: int| 0 <= j < n implies props@.contains_key(#[trigger] keys[j]) by {
            assert(keys.to_set().contains(keys[j]));
        }
    }
    let mut i: usize = 0;
    while i < n
        invariant
            i <= n,
            n == keys.len(),
            keys == props.keys(),
            strmap::ascending(keys),
            keys.to_set() == props@.dom(),
            scenario::takes_all(*parse_size),
            "passive"@ != "balloon"@,
            "true"@ != "false"@,
            "true"@.len() > 0,
            "false"@.len() > 0,
            forall|j: int| 0 <= j < n ==> props@.contains_key(#[trigger] keys[j]),
            forall|j: int|
                0 <= j < i ==> sets(#[trigger] keys[j], props@[keys[j]]@, *parse_size, passive, balloon_size),
            (forall|j: int| 0 <= j < i ==> #[trigger] keys[j] != "passive"@) ==> !passive,
            (forall|j: int| 0 <= j < i ==> #[trigger] keys[j] != "balloon"@) ==> balloon_size == 0,
        decreases n - i,
    {
        let (k, v) = props.at(i);
        let ghost (passive0, balloon0) = (passive, balloon_size);
        proof {
            assert(k@ == keys[i as int]);
            assert forall|j: int| 0 <= j < i implies #[trigger] keys[j] != k@ by {
                assert(text::precedes(keys[j], keys[i as int]));
                text::lemma_precedes_irreflexive(k@);
            }
            // Whatever is wrong here, the keys before it are in order.
            assert forall|x: Seq<char>| #[trigger] props@.contains_key(x) && text::precedes(x, k@) implies passes(
                x,
                props@[x]@,
                *parse_size,
            ) by {
                assert(keys.to_set().contains(x));
                let j = choose|j: int| 0 <= j < keys.len() && keys[j] == x;
                if j > i {
                    assert(text::precedes(keys[i as int], keys[j]));
                    text::lemma_precedes_asymmetric(x, k@);
                } else if j == i {
                    text::lemma_precedes_irreflexive(k@);
                }
                assert(sets(keys[j], props@[keys[j]]@, *parse_size, passive, balloon_size));
            }
        }
        if same(k, "passive") {
            if v.as_str().is_empty() {
                passive = true;
            } else {
                match parse_bool(v.as_str()) {
                    Some(b) => {
                        passive = b;
                    },
                    None => {
                        let e = Error::BadPassive;
                        assert(faults(k@, props@[k@]@, *parse_size, e));
                        return Err(e);
                    },
                }
            }
        } else if same(k, "balloon") {
            match parse_size(v.as_str()) {
                Ok(size) => {
                    assert(scenario::parsed(*parse_size, v@, Ok(size)));
                    balloon_size = size as usize;
                },
                Err(why) => {
                    let e = Error::BadBalloon(why);
                    assert(faults(k@, props@[k@]@, *parse_size, e));
                    return Err(e);
                },
            }
        } else {
            let e = Error::UnknownProperty(k.to_owned());
            assert(faults(k@, props@[k@]@, *parse_size, e));
            return Err(e);
        }
        proof {
            assert forall|j: int| 0 <= j < i + 1 implies sets(
                #[trigger] keys[j],
                props@[keys[j]]@,
                *parse_size,
                passive,
                balloon_size,
            ) by {
                if j < i {
                    assert(sets(keys[j], props@[keys[j]]@, *parse_size, passive0, balloon0));
                    assert(keys[j] != k@);
                }
            }
            assert(keys[i as int] == k@);
        }
        i += 1;
    }
    proof {
        assert forall|x: Seq<char>| #[trigger] props@.contains_key(x) implies sets(
            x,
            props@[x]@,
            *parse_size,
            passive,
            balloon_size,
        ) by {
            assert(keys.to_set().contains(x));
            let j = choose|j: int| 0 <= j < keys.len() && keys[j] == x;
            assert(sets(keys[j], props@[keys[j]]@, *parse_size, passive, balloon_size));
        }
    }
    Ok((passive, balloon_size))
}

/// A memory-hog scenario with the given load and otherwise the defaults.
fn default_scenario<F, P: Fn(&str) -> Result<F, String>, A: Fn(Op<F>) -> F>(
    load: &str,
    parse_frac: &P,
    arith: &A,
) -> (r: Scenario<F>)
    requires
        arith::does_all(*arith),
        scenario::takes_all(*parse_frac),
        forall|r: Result<F, String>| #[trigger] scenario::parsed(*parse_frac, load@, r) ==> r is Ok,
    ensures
        is_default(load@, *parse_frac, r),
{
    proof {
        lemma_names_differ();
    }
    let mut props: StrMap<String> = StrMap::new();
    props.insert("scenario".to_owned(), "mem-hog".to_owned());
    props.insert("load".to_owned(), load.to_owned());
    let ghost given = props@;
    match Scenario::parse(props, parse_frac, arith) {
        Ok(s) => {
            assert(given.contains_key("load"@));
            s
        },
        Err(e) => {
            proof {
                let k = choose|k: Seq<char>|
                    #[trigger] given.contains_key(k) && k != "scenario"@ && scenario::faults(
                        k,
                        given[k]@,
                        *parse_frac,
                        e,
                    );
                assert(k == "load"@);
                assert(false);
            }
            vstd::pervasive::unreached()
        },
    }
}

impl<F> ProtectionJob<F> {
    /// Reads a job from its description, where `parse_frac` reads a load, and
    /// `parse_size` a size in bytes.
    pub fn parse<P: Fn(&str) -> Result<F, String>, Q: Fn(&str) -> Result<u64, String>, A: Fn(Op<F>) -> F>(
        spec: &JobSpec,
        parse_frac: &P,
        parse_size: &Q,
        arith: &A,
    ) -> (r: Result<Self, Error>)
        requires
            spec.props@.len() > 0,
            scenario::takes_all(*parse_frac),
            scenario::takes_all(*parse_size),
            arith::does_all(*arith),
            spec.props@.len() == 1 && is_configured(spec.props@[0]@, *parse_size) ==> reads_defaults(*parse_frac),
        ensures
            is_parsed(spec.props@, *parse_frac, *parse_size, *arith, r),
    {
        let (passive, balloon_size) = match parse_params(&spec.props[0], parse_size) {
            Ok(params) => params,
            Err(e) => {
                return Err(e);
            },
        };
        let mut scenarios: Vec<Scenario<F>> = Vec::new();
        let mut i: usize = 1;
        while i < spec.props.len()
            invariant
                1 <= i <= spec.props@.len(),
                scenario::takes_all(*parse_frac),
                arith::does_all(*arith),
                configured(spec.props@[0]@, *parse_size, passive, balloon_size),
                scenarios@.len() == i - 1,
                forall|j: int|
                    0 <= j < scenarios@.len() ==> is_described(
                        spec.props@[j + 1]@,
                        *parse_frac,
                        *arith,
                        #[trigger] scenarios@[j],
                    ),
            decreases spec.props@.len() - i,
        {
            let props = spec.props[i].clone();
            assert(props@ =~= spec.props@[i as int]@);
            match Scenario::parse(props, parse_frac, arith) {
                Ok(s) => {
                    scenarios.push(s);
                },
                Err(e) => {
                    proof {
                        assert(scenario::refused(spec.props@[i as int]@, *parse_frac, e));
                        assert forall|j: int| 1 <= j < i implies describes(
                            #[trigger] spec.props@[j]@,
                            *parse_frac,
                            *arith,
                        ) by {
                            assert(is_described(
                                spec.props@[(j - 1) + 1]@,
                                *parse_frac,
                                *arith,
                                scenarios@[j - 1],
                            ));
                        }
                        assert(misses_scenario(spec.props@, *parse_frac, *arith, e));
                    }
                    return Err(e);
                },
            }
            i += 1;
        }
        if scenarios.len() == 0 {
            scenarios.push(default_scenario("1.0", parse_frac, arith));
            scenarios.push(default_scenario("0.8", parse_frac, arith));
        }
        Ok(ProtectionJob { passive, balloon_size, scenarios })
    }
}

impl ProtectionBench {
    /// The benchmark is called `protection`, and its jobs may have properties
    /// for each of their runs.
    pub fn desc(&self) -> (r: BenchDesc)
        ensures
            r.kind@ == "protection"@,
            r.takes_run_propsets,
    {
        BenchDesc { kind: "protection", takes_run_propsets: true }
    }

    /// Reads a job from its description.
    pub fn parse<F, P: Fn(&str) -> Result<F, String>, Q: Fn(&str) -> Result<u64, String>, A: Fn(Op<F>) -> F>(
        &self,
        spec: &JobSpec,
        parse_frac: &P,
        parse_size: &Q,
        arith: &A,
    ) -> (r: Result<ProtectionJob<F>, Error>)
        requires
            spec.props@.len() > 0,
            scenario::takes_all(*parse_frac),
            scenario::takes_all(*parse_size),
            arith::does_all(*arith),
            spec.props@.len() == 1 && is_configured(spec.props@[0]@, *parse_size) ==> reads_defaults(*parse_frac),
        ensures
            is_parsed(spec.props@, *parse_frac, *parse_size, *arith, r),
    {
        ProtectionJob::parse(spec, parse_frac, parse_size, arith)
    }
}

/// A step on the way to the first scenario.
#[derive(Clone, Copy, Debug, PartialEq, Eq, Structural)]
pub enum Setup {
    /// Find the parameters of the workload, unless they are known.
    FindHashdParams,
    /// Keep the agent's controllers out of it, but for the protection of what
    /// is critical.
    Passive,
    /// Take that many bytes of memory away.
    Balloon { size: usize },
    /// Have the test files prepared.
    PrepTestfiles,
    /// Start the agent.
    StartAgent,
}

impl<F> ProtectionJob<F> {
    /// The steps on the way to the first scenario.
    pub open spec fn setup_spec(self) -> Seq<Setup> {
        seq![Setup::FindHashdParams] + (if self.passive {
            seq![Setup::Passive]
        } else {
            seq![]
        }) + (if self.balloon_size > 0 {
            seq![Setup::Balloon { size: self.balloon_size }]
        } else {
            seq![]
        }) + seq![Setup::PrepTestfiles, Setup::StartAgent]
    }

    /// The steps on the way to the first scenario, in their order.
    pub fn setup(&self) -> (r: Vec<Setup>)
        ensures
            r@ == self.setup_spec(),
    {
        let mut steps: Vec<Setup> = Vec::new();
        steps.push(Setup::FindHashdParams);
        if self.passive {
            steps.push(Setup::Passive);
        }
        if self.balloon_size > 0 {
            steps.push(Setup::Balloon { size: self.balloon_size });
        }
        steps.push(Setup::PrepTestfiles);
        steps.push(Setup::StartAgent);
        assert(steps@ =~= self.setup_spec());
        steps
    }
}

impl<F> ScenarioResult<F> {
    /// The memory-hog result that this is.
    pub open spec fn mem_hog(&self) -> &MemHogResult<F> {
        match self {
            ScenarioResult::MemHog(mh) => mh,
        }
    }
}

impl<F> Default for ProtectionResult<F> {
    /// No results.
    fn default() -> (r: Self)
        ensures
            r.scenarios@.len() == 0,
            r.combined_mem_hog is None,
    {
        ProtectionResult { scenarios: Vec::new(), combined_mem_hog: None }
    }
}

impl<F> ProtectionResult<F> {
    /// The results of the memory-hog scenarios.
    pub open spec fn mem_hogs_spec(&self) -> Seq<&MemHogResult<F>> {
        Seq::new(self.scenarios@.len(), |i: int| self.scenarios@[i].mem_hog())
    }

    /// The results of the memory-hog scenarios, in their order.
    pub fn mem_hogs(&self) -> (r: Vec<&MemHogResult<F>>)
        ensures
            r@ == self.mem_hogs_spec(),
    {
        let mut mhs: Vec<&MemHogResult<F>> = Vec::new();
        let mut i: usize = 0;
        while i < self.scenarios.len()
            invariant
                i <= self.scenarios@.len(),
                mhs@ == self.mem_hogs_spec().take(i as int),
            decreases self.scenarios@.len() - i,
        {
            match &self.scenarios[i] {
                ScenarioResult::MemHog(mh) => {
                    mhs.push(mh);
                },
            }
            i += 1;
            assert(mhs@ =~= self.mem_hogs_spec().take(i as int));
        }
        assert(mhs@ =~= self.mem_hogs_spec());
        mhs
    }
}

impl<F: Copy> ProtectionResult<F> {
    /// Combines the results of the memory-hog scenarios, if there are any.
    pub fn combine<
        G: Fn((u64, u64)) -> Vec<Report<F>>,
        S: Fn(Vec<F>) -> (F, F),
        Q: Fn(Vec<F>, Vec<&'static str>) -> StrMap<F>,
        L: Fn(Vec<(u64, u64)>) -> [StrMap<StrMap<F>>; 2],
        A: Fn(Op<F>) -> F,
        P: Fn(F) -> bool,
    >(&mut self, src: &Source<G, S, Q, L, A, P>)
        requires
            combine::sums_fit(old(self).mem_hogs_spec()),
            readings::works(*src),
        ensures
            final(self).scenarios == old(self).scenarios,
            old(self).scenarios@.len() > 0 ==> (final(self).combined_mem_hog matches Some(cmb) && combine::is_combination(
                cmb,
                old(self).mem_hogs_spec(),
                *src,
            )),
            old(self).scenarios@.len() == 0 ==> final(self).combined_mem_hog == old(self).combined_mem_hog,
    {
        if self.scenarios.len() > 0 {
            let cmb = {
                let mhs = self.mem_hogs();
                MemHog::combine_results(&mhs, src)
            };
            self.combined_mem_hog = Some(cmb);
        }
    }
}

/// The title of a scenario, which is the `i`th of `n`.
pub open spec fn scenario_title(prefix: Seq<char>, i: nat, n: nat) -> Seq<char> {
    prefix + "Scenario "@ + text::decimal(i) + "/"@ + text::decimal(n) + " - Memory Hog"@
}

/// The title of the combined results.
pub open spec fn summary_title(prefix: Seq<char>) -> Seq<char> {
    prefix + "Memory Hog Summary"@
}

/// A title with a line under it. The line is double unless there is a prefix.
pub open spec fn title_parts<F>(title: Seq<char>, prefix: Seq<char>) -> Seq<Part<F>> {
    seq![
        Part::Text("\n"@),
        Part::Cell(PieceView::Underlined(title, if prefix.len() == 0 { "="@ } else { "-"@ }), 0),
        Part::Text("\n"@),
    ]
}

/// What is shown of a scenario and its result.
pub open spec fn scenario_parts<F>(s: Scenario<F>, r: ScenarioResult<F>, prefix: Seq<char>, i: nat, n: nat) -> Seq<
    Part<F>,
> {
    match (s, r) {
        (Scenario::MemHog(mh), ScenarioResult::MemHog(mhr)) => title_parts(scenario_title(prefix, i, n), prefix)
            + layout::params_parts(mh) + seq![Part::Text("\n"@)] + layout::result_parts(mhr, true),
    }
}

/// What is shown of the first `k` scenarios and their results.
pub open spec fn scenarios_parts<F>(
    scenarios: Seq<Scenario<F>>,
    results: Seq<ScenarioResult<F>>,
    prefix: Seq<char>,
    k: nat,
) -> Seq<Part<F>>
    decreases k,
{
    if k == 0 {
        Seq::empty()
    } else {
        scenarios_parts(scenarios, results, prefix, (k - 1) as nat) + scenario_parts(
            scenarios[k - 1],
            results[k - 1],
            prefix,
            k,
            scenarios.len(),
        )
    }
}

/// How many scenarios of a job have a result.
pub open spec fn paired<F>(job: ProtectionJob<F>, r: ProtectionResult<F>) -> nat {
    if job.scenarios@.len() < r.scenarios@.len() {
        job.scenarios@.len()
    } else {
        r.scenarios@.len()
    }
}

/// What is shown of a job and its results: in full, each scenario that has a
/// result; and then the combined results, if there are any.
pub open spec fn job_parts<F>(job: ProtectionJob<F>, r: ProtectionResult<F>, full: bool, prefix: Seq<char>) -> Seq<
    Part<F>,
> {
    (if full {
        scenarios_parts(job.scenarios@, r.scenarios@, prefix, paired(job, r))
    } else {
        Seq::empty()
    }) + (match r.combined_mem_hog {
        Some(hog) => title_parts(summary_title(prefix), prefix) + layout::result_parts(hog, full),
        None => Seq::empty(),
    })
}

/// Results have all that is shown of them.
pub open spec fn showable<F>(job: ProtectionJob<F>, r: ProtectionResult<F>, full: bool) -> bool {
    &&& full ==> forall|i: int|
        0 <= i < paired(job, r) ==> layout::showable(*(#[trigger] r.scenarios@[i]).mem_hog())
    &&& r.combined_mem_hog matches Some(hog) ==> layout::showable(hog)
}

/// A short text shows the combined results and the prefix and nothing else:
/// jobs with the same combined results are shown alike, and without combined
/// results there is nothing to show.
pub proof fn lemma_short_shows_combined<F>(
    job: ProtectionJob<F>,
    r: ProtectionResult<F>,
    job2: ProtectionJob<F>,
    r2: ProtectionResult<F>,
    prefix: Seq<char>,
)
    requires
        r.combined_mem_hog == r2.combined_mem_hog,
    ensures
        job_parts(job, r, false, prefix) == job_parts(job2, r2, false, prefix),
        r.combined_mem_hog is None ==> job_parts(job, r, false, prefix).len() == 0,
{
}

/// The short texts of jobs with the same combined results are the same. This
/// is for pieces with one text.
pub proof fn lemma_short_text_is_of_combined<'a, F: 'a, R: Fn(Piece<'a, F>) -> String>(
    job: ProtectionJob<F>,
    r: ProtectionResult<F>,
    job2: ProtectionJob<F>,
    r2: ProtectionResult<F>,
    prefix: Seq<char>,
    render: R,
    before: Seq<char>,
    out: Seq<char>,
    out2: Seq<char>,
)
    requires
        page::consistent(render),
        r.combined_mem_hog == r2.combined_mem_hog,
        layout::adds(out, before, render, job_parts(job, r, false, prefix)),
        layout::adds(out2, before, render, job_parts(job2, r2, false, prefix)),
    ensures
        out == out2,
        r.combined_mem_hog is None ==> out == before,
{
    lemma_short_shows_combined(job, r, job2, r2, prefix);
    let parts = job_parts(job, r, false, prefix);
    layout::lemma_adds_once(render, parts, before, out, out2);
    if r.combined_mem_hog is None {
        let t = choose|t: Seq<char>| #[trigger] page::reads(render, parts, t) && out == before + t;
        let texts = choose|texts: Seq<Seq<char>>| #[trigger]
            page::all_read(render, parts, texts) && t == lists::joined(texts);
        assert(texts.len() == 0);
        assert(before + t =~= before);
    }
}

impl<'a, 'r, F: Copy + 'a, R: Fn(Piece<'a, F>) -> String> Page<'r, F, R> {
    fn put_title(&mut self, title: String, prefix: &str)
        requires
            old(self).wf(),
        ensures
            final(self).grown(*old(self), title_parts(title@, prefix@)),
    {
        let line = if prefix.is_empty() {
            "="
        } else {
            "-"
        };
        self.put("\n");
        self.cell(Piece::Underlined(title, line), 0);
        self.put("\n");
        assert(self.parts@ =~= old(self).parts@ + title_parts(title@, prefix@));
    }
}

impl<F> ProtectionJob<F> {
    /// Whether results have all that is shown of them: in full, of each
    /// scenario that has a result; and always of the combined results.
    pub fn can_show(&self, result: &ProtectionResult<F>, full: bool) -> (r: bool)
        ensures
            r == showable(*self, *result, full),
    {
        if full {
            let mut i: usize = 0;
            while i < self.scenarios.len() && i < result.scenarios.len()
                invariant
                    full,
                    i <= paired(*self, *result),
                    forall|j: int|
                        0 <= j < i ==> layout::showable(*(#[trigger] result.scenarios@[j]).mem_hog()),
                decreases self.scenarios@.len() - i,
            {
                let ScenarioResult::MemHog(mh) = &result.scenarios[i];
                if !mh.is_showable() {
                    assert(!layout::showable(*result.scenarios@[i as int].mem_hog()));
                    return false;
                }
                i += 1;
            }
        }
        match &result.combined_mem_hog {
            Some(hog) => hog.is_showable(),
            None => true,
        }
    }
}

impl<F: Copy> ProtectionJob<F> {
    /// Writes the results of the job: in full, each scenario; and then the
    /// combined results, if there are any. The titles start with `prefix`.
    pub fn format_result<'a, R: Fn(Piece<'a, F>) -> String>(
        &self,
        out: &mut String,
        result: &'a ProtectionResult<F>,
        full: bool,
        prefix: &str,
        render: &R,
    )
        requires
            page::renders(*render),
            showable(*self, *result, full),
        ensures
            layout::adds(final(out)@, old(out)@, *render, job_parts(*self, *result, full, prefix@)),
    {
        let mut page = Page::new(render);
        if full {
            let mut i: usize = 0;
            while i < self.scenarios.len() && i < result.scenarios.len()
                invariant
                    i <= self.scenarios@.len(),
                    i <= result.scenarios@.len(),
                    full,
                    showable(*self, *result, full),
                    page.wf(),
                    page.render == render,
                    page.parts@ == scenarios_parts(self.scenarios@, result.scenarios@, prefix@, i as nat),
                decreases self.scenarios@.len() - i,
            {
                let ghost before = page.parts@;
                let mut title = prefix.to_owned();
                title.append("Scenario ");
                push_decimal(&mut title, i as u64 + 1);
                title.append("/");
                push_decimal(&mut title, self.scenarios.len() as u64);
                title.append(" - Memory Hog");
                assert(title@ == scenario_title(prefix@, (i + 1) as nat, self.scenarios@.len()));
                page.put_title(title, prefix);
                match (&self.scenarios[i], &result.scenarios[i]) {
                    (Scenario::MemHog(mh), ScenarioResult::MemHog(mhr)) => {
                        assert(layout::showable(*result.scenarios@[i as int].mem_hog()));
                        page.put_scenario(mh, mhr, full);
                    },
                }
                i += 1;
                assert(page.parts@ =~= before + scenario_parts(
                    self.scenarios@[i - 1],
                    result.scenarios@[i - 1],
                    prefix@,
                    i as nat,
                    self.scenarios@.len(),
                ));
            }
        }
        let ghost before = page.parts@;
        if let Some(hog_result) = &result.combined_mem_hog {
            let mut title = prefix.to_owned();
            title.append("Memory Hog Summary");
            page.put_title(title, prefix);
            page.put_result(hog_result, full);
            assert(page.parts@ =~= before + (title_parts(summary_title(prefix@), prefix@) + layout::result_parts(
                *hog_result,
                full,
            )));
        }
        assert(page.parts@ =~= job_parts(*self, *result, full, prefix@));
        out.append(page.text.as_str());
    }
}

} // verus!
