//! Scenarios and their properties.

use vstd::prelude::*;
use vstd::string::*;

use crate::arith::{self, apply, Op};
use crate::error::Error;
use crate::mem_hog::{MemHog, MemHogResult};
use crate::number::{self, parse_u32};
use crate::speed::MemHogSpeed;
use crate::strmap::{self, StrMap};
use crate::text::{self, same};

verus! {

broadcast use vstd::string::group_string_axioms;

/// How often a memory hog is run unless a property says otherwise.
pub const DFL_LOOPS: u32 = 3;

/// The load unless a property says otherwise, which is a full one.
pub const DFL_LOAD: u64 = 1;

/// A scenario of a protection job.
#[derive(Debug)]
pub enum Scenario<F> {
    MemHog(MemHog<F>),
}

/// The result of a scenario.
#[derive(Debug)]
pub enum ScenarioResult<F> {
    MemHog(MemHogResult<F>),
}

impl<F: Clone> Clone for Scenario<F> {
    /// The same scenario.
    fn clone(&self) -> (r: Self)
        ensures
            match (*self, r) {
                (Scenario::MemHog(a), Scenario::MemHog(b)) => cloned(a, b),
            },
    {
        match self {
            Scenario::MemHog(mh) => Scenario::MemHog(mh.clone()),
        }
    }
}

impl<F: Clone> Clone for ScenarioResult<F> {
    /// The same result.
    fn clone(&self) -> (r: Self)
        ensures
            match (*self, r) {
                (ScenarioResult::MemHog(a), ScenarioResult::MemHog(b)) => cloned(a, b),
            },
    {
        match self {
            ScenarioResult::MemHog(mh) => ScenarioResult::MemHog(mh.clone()),
        }
    }
}

/// `parse` takes every string.
pub open spec fn takes_all<T, P: Fn(&str) -> Result<T, String>>(parse: P) -> bool {
    forall|s: &str| call_requires(parse, (s,))
}

/// `r` is what `parse` may make of a string.
pub open spec fn parsed<T, P: Fn(&str) -> Result<T, String>>(parse: P, s: Seq<char>, r: Result<T, String>) -> bool {
    exists|t: &str| t@ == s && #[trigger] call_ensures(parse, (t,), r)
}

/// A property of a mem-hog scenario, accepted as the value of a parameter.
pub open spec fn sets<F, P: Fn(&str) -> Result<F, String>>(
    key: Seq<char>,
    v: Seq<char>,
    parse_frac: P,
    loops: u32,
    load: F,
    speed: MemHogSpeed,
) -> bool {
    if key == "loops"@ {
        number::is_u32(v) && loops == number::value(number::without_plus(v)) && loops > 0
    } else if key == "load"@ {
        parsed(parse_frac, v, Ok(load))
    } else if key == "speed"@ {
        v == speed.name()
    } else {
        false
    }
}

/// A property of a mem-hog scenario is in order.
pub open spec fn passes<F, P: Fn(&str) -> Result<F, String>>(key: Seq<char>, v: Seq<char>, parse_frac: P) -> bool {
    exists|loops: u32, load: F, speed: MemHogSpeed| #[trigger] sets(key, v, parse_frac, loops, load, speed)
}

/// What is wrong with a property of a mem-hog scenario.
pub open spec fn faults<F, P: Fn(&str) -> Result<F, String>>(
    key: Seq<char>,
    v: Seq<char>,
    parse_frac: P,
    e: Error,
) -> bool {
    if key == "loops"@ {
        if number::is_u32(v) {
            number::value(number::without_plus(v)) == 0 && e == Error::ZeroLoops
        } else {
            e matches Error::BadLoops(fault) && number::is_u32_fault(v, fault)
        }
    } else if key == "load"@ {
        e matches Error::BadLoad(why) && parsed(parse_frac, v, Err(why))
    } else if key == "speed"@ {
        e == Error::BadSpeed && forall|speed: MemHogSpeed| v != #[trigger] speed.name()
    } else {
        e matches Error::UnknownMemHogProperty(k) && k@ == key
    }
}

/// `scenario` is a property and has the value `mem-hog`.
pub open spec fn is_mem_hog(props: Map<Seq<char>, String>) -> bool {
    props.contains_key("scenario"@) && props["scenario"@]@ == "mem-hog"@
}

/// A scenario is what the properties say, with the defaults for those that
/// are not there.
pub open spec fn described<F, P: Fn(&str) -> Result<F, String>, A: Fn(Op<F>) -> F>(
    props: Map<Seq<char>, String>,
    parse_frac: P,
    arith: A,
    mh: MemHog<F>,
) -> bool {
    &&& is_mem_hog(props)
    &&& forall|k: Seq<char>| #[trigger]
        props.contains_key(k) && k != "scenario"@ ==> sets(k, props[k]@, parse_frac, mh.loops, mh.load, mh.speed)
    &&& !props.contains_key("loops"@) ==> mh.loops == DFL_LOOPS
    &&& !props.contains_key("load"@) ==> arith::gives(arith, Op::Int(DFL_LOAD), mh.load)
    &&& !props.contains_key("speed"@) ==> mh.speed == MemHogSpeed::Hog2x
    &&& mh.loops > 0
    &&& mh.main_period == (0u64, 0u64)
    &&& mh.runs@.len() == 0
}

/// An error is about the properties: about `scenario` if that is no mem-hog,
/// or else about the first of the others, in key order, that is not in order.
pub open spec fn refused<F, P: Fn(&str) -> Result<F, String>>(
    props: Map<Seq<char>, String>,
    parse_frac: P,
    e: Error,
) -> bool {
    if is_mem_hog(props) {
        exists|k: Seq<char>|
            {
                &&& #[trigger] props.contains_key(k)
                &&& k != "scenario"@
                &&& faults(k, props[k]@, parse_frac, e)
                &&& forall|j: Seq<char>| #[trigger]
                    props.contains_key(j) && j != "scenario"@ && text::precedes(j, k) ==> passes(
                        j,
                        props[j]@,
                        parse_frac,
                    )
            }
    } else {
        e == Error::BadScenario
    }
}

/// The property names differ.
proof fn lemma_names_differ()
    ensures
        "loops"@ != "load"@,
        "loops"@ != "speed"@,
        "load"@ != "speed"@,
{
    reveal_strlit("loops");
    reveal_strlit("load");
    reveal_strlit("speed");
    assert("loops"@.len() == 5 && "load"@.len() == 4 && "speed"@.len() == 5);
    assert("loops"@[0] == 'l' && "speed"@[0] == 's');
}

impl<F> Scenario<F> {
    /// Reads a scenario from its properties, where `parse_frac` reads a load.
    pub fn parse<P: Fn(&str) -> Result<F, String>, A: Fn(Op<F>) -> F>(
        props: StrMap<String>,
        parse_frac: &P,
        arith: &A,
    ) -> (r: Result<Self, Error>)
        requires
            takes_all(*parse_frac),
            arith::does_all(*arith),
        ensures
            match r {
                Ok(Scenario::MemHog(mh)) => described(props@, *parse_frac, *arith, mh),
                Err(e) => refused(props@, *parse_frac, e),
            },
    {
        let ghost given = props@;
        let mut rest = props;
        let named = match rest.remove("scenario") {
            Some(name) => same(name.as_str(), "mem-hog"),
            None => false,
        };
        if !named {
            return Err(Error::BadScenario);
        }
        assert(is_mem_hog(given));
        proof {
            lemma_names_differ();
        }
        let mut loops: u32 = DFL_LOOPS;
        let mut load: F = apply(arith, Op::Int(DFL_LOAD));
        let mut speed = MemHogSpeed::Hog2x;
        let n = rest.len();
        let ghost keys = rest.keys();
        proof {
            assert forall|j: int| 0 <= j < n implies given.contains_key(#[trigger] keys[j]) && keys[j] != "scenario"@ by {
                assert(keys.to_set().contains(keys[j]));
                assert(rest@.contains_key(keys[j]));
            }
        }
        let mut i: usize = 0;
        while i < n
            invariant
                i <= n,
                n == keys.len(),
                keys == rest.keys(),
                strmap::ascending(keys),
                takes_all(*parse_frac),
                given == props@,
                rest@ == given.remove("scenario"@),
                is_mem_hog(given),
                keys.to_set() == rest@.dom(),
                loops > 0,
                "loops"@ != "load"@,
                "loops"@ != "speed"@,
                "load"@ != "speed"@,
                forall|j: int| 0 <= j < n ==> given.contains_key(#[trigger] keys[j]) && keys[j] != "scenario"@,
                forall|j: int|
                    0 <= j < i ==> sets(#[trigger] keys[j], given[keys[j]]@, *parse_frac, loops, load, speed),
                (forall|j: int| 0 <= j < i ==> #[trigger] keys[j] != "loops"@) ==> loops == DFL_LOOPS,
                (forall|j: int| 0 <= j < i ==> #[trigger] keys[j] != "load"@) ==> arith::gives(
                    *arith,
                    Op::Int(DFL_LOAD),
                    load,
                ),
                (forall|j: int| 0 <= j < i ==> #[trigger] keys[j] != "speed"@) ==> speed == MemHogSpeed::Hog2x,
            decreases n - i,
        {
            let (k, v) = rest.at(i);
            let ghost (loops0, load0, speed0) = (loops, load, speed);
            proof {
                assert(k@ == keys[i as int]);
                assert(given[k@] == *v);
                assert forall|j: int| 0 <= j < i implies #[trigger] keys[j] != k@ by {
                    assert(text::precedes(keys[j], keys[i as int]));
                    text::lemma_precedes_irreflexive(k@);
                }
                // Whatever is wrong here, the keys before it are in order.
                assert forall|x: Seq<char>| #[trigger]
                    given.contains_key(x) && x != "scenario"@ && text::precedes(x, k@) implies passes(
                    x,
                    given[x]@,
                    *parse_frac,
                ) by {
                    assert(keys.to_set().contains(x));
                    let j = choose|j: int| 0 <= j < keys.len() && keys[j] == x;
                    if j > i {
                        assert(text::precedes(keys[i as int], keys[j]));
                        text::lemma_precedes_asymmetric(x, k@);
                    } else if j == i {
                        text::lemma_precedes_irreflexive(k@);
                    }
                    assert(sets(keys[j], given[keys[j]]@, *parse_frac, loops, load, speed));
                }
            }
            if same(k, "loops") {
                match parse_u32(v.as_str()) {
                    Ok(x) => {
                        if x == 0 {
                            let e = Error::ZeroLoops;
                            assert(faults(k@, given[k@]@, *parse_frac, e));
                            return Err(e);
                        }
                        loops = x;
                    },
                    Err(fault) => {
                        let e = Error::BadLoops(fault);
                        assert(faults(k@, given[k@]@, *parse_frac, e));
                        return Err(e);
                    },
                }
            } else if same(k, "load") {
                match parse_frac(v.as_str()) {
                    Ok(x) => {
                        load = x;
                    },
                    Err(why) => {
                        let e = Error::BadLoad(why);
                        assert(faults(k@, given[k@]@, *parse_frac, e));
                        return Err(e);
                    },
                }
            } else if same(k, "speed") {
                match MemHogSpeed::from_str(v.as_str()) {
                    Ok(x) => {
                        speed = x;
                    },
                    Err(e) => {
                        assert(faults(k@, given[k@]@, *parse_frac, e));
                        return Err(e);
                    },
                }
            } else {
                let e = Error::UnknownMemHogProperty(k.to_owned());
                assert(faults(k@, given[k@]@, *parse_frac, e));
                return Err(e);
            }
            proof {
                assert forall|j: int| 0 <= j < i + 1 implies sets(
                    #[trigger] keys[j],
                    given[keys[j]]@,
                    *parse_frac,
                    loops,
                    load,
                    speed,
                ) by {
                    if j < i {
                        assert(sets(keys[j], given[keys[j]]@, *parse_frac, loops0, load0, speed0));
                        assert(keys[j] != k@);
                    }
                }
                assert(keys[i as int] == k@);
            }
            i += 1;
        }
        let mh = MemHog { loops, load, speed, main_period: (0, 0), runs: Vec::new() };
        proof {
            assert forall|x: Seq<char>| #[trigger] given.contains_key(x) && x != "scenario"@ implies sets(
                x,
                given[x]@,
                *parse_frac,
                mh.loops,
                mh.load,
                mh.speed,
            ) by {
                assert(keys.to_set().contains(x));
                let j = choose|j: int| 0 <= j < keys.len() && keys[j] == x;
                assert(sets(keys[j], given[keys[j]]@, *parse_frac, loops, load, speed));
            }
            assert(described(given, *parse_frac, *arith, mh));
        }
        Ok(Scenario::MemHog(mh))
    }
}

} // verus!
