use protection::arith::Op;
use protection::error::{Error, NumberFault};
use protection::job::{parse_params, JobSpec, ProtectionBench, ProtectionJob, Setup};
use protection::mem_hog::MemHog;
use protection::scenario::Scenario;
use protection::speed::MemHogSpeed;
use protection::strmap::StrMap;
use protection::text::{place, push_decimal, push_right_aligned, same, Place};

fn props(pairs: &[(&str, &str)]) -> StrMap<String> {
    let mut m = StrMap::new();
    for (k, v) in pairs {
        m.insert(k.to_string(), v.to_string());
    }
    m
}

fn frac(s: &str) -> Result<f64, String> {
    match s.strip_suffix('%') {
        Some(p) => p.parse::<f64>().map(|x| x / 100.0).map_err(|e| e.to_string()),
        None => s.parse::<f64>().map_err(|e| e.to_string()),
    }
}

fn size(s: &str) -> Result<u64, String> {
    match s.strip_suffix('K') {
        Some(n) => n.parse::<u64>().map(|x| x * 1024).map_err(|e| e.to_string()),
        None => s.parse::<u64>().map_err(|e| e.to_string()),
    }
}

fn arith(op: Op<f64>) -> f64 {
    match op {
        Op::Int(n) => n as f64,
        _ => unreachable!(),
    }
}

fn scenario(pairs: &[(&str, &str)]) -> Result<MemHog<f64>, Error> {
    Scenario::parse(props(pairs), &frac, &arith).map(|s| match s {
        Scenario::MemHog(mh) => mh,
    })
}

fn job(sets: &[&[(&str, &str)]]) -> Result<ProtectionJob<f64>, Error> {
    let spec = JobSpec { props: sets.iter().map(|s| props(s)).collect() };
    ProtectionJob::parse(&spec, &frac, &size, &arith)
}

const SPEEDS: [(MemHogSpeed, &str, &str); 5] = [
    (MemHogSpeed::Hog10Pct, "10%", "mem-hog-10pct"),
    (MemHogSpeed::Hog25Pct, "25%", "mem-hog-25pct"),
    (MemHogSpeed::Hog50Pct, "50%", "mem-hog-50pct"),
    (MemHogSpeed::Hog1x, "1x", "mem-hog-1x"),
    (MemHogSpeed::Hog2x, "2x", "mem-hog-2x"),
];

#[test]
fn speeds_are_shown_and_read() {
    for (speed, name, sideload) in SPEEDS {
        assert_eq!(speed.to_string(), name);
        assert_eq!(speed.to_sideload_name(), sideload);
        assert_eq!(MemHogSpeed::from_str(name).unwrap(), speed);
    }
    for bad in ["", "10", "3x", "1X", " 1x", "10%%"] {
        assert!(matches!(MemHogSpeed::from_str(bad), Err(Error::BadSpeed)));
    }
}

#[test]
fn scenario_defaults() {
    let mh = scenario(&[("scenario", "mem-hog")]).unwrap();
    assert_eq!(mh.loops, 3);
    assert_eq!(mh.load, 1.0);
    assert_eq!(mh.speed, MemHogSpeed::Hog2x);
    assert_eq!(mh.main_period, (0, 0));
    assert!(mh.runs.is_empty());
}

#[test]
fn scenario_properties() {
    let mh = scenario(&[("speed", "50%"), ("scenario", "mem-hog"), ("loops", "+007"), ("load", "80%")]).unwrap();
    assert_eq!(mh.loops, 7);
    assert_eq!(mh.load, 0.8);
    assert_eq!(mh.speed, MemHogSpeed::Hog50Pct);
}

#[test]
fn scenario_must_be_named() {
    assert!(matches!(scenario(&[]), Err(Error::BadScenario)));
    assert!(matches!(scenario(&[("scenario", "mem-pig")]), Err(Error::BadScenario)));
    assert!(matches!(scenario(&[("scenario", "mem-pig"), ("loops", "x")]), Err(Error::BadScenario)));
}

#[test]
fn scenario_loops_errors() {
    let loops = |v| scenario(&[("scenario", "mem-hog"), ("loops", v)]).map(|mh| mh.loops);
    assert!(matches!(loops("0"), Err(Error::ZeroLoops)));
    assert!(matches!(loops("+0"), Err(Error::ZeroLoops)));
    assert!(matches!(loops(""), Err(Error::BadLoops(NumberFault::Empty))));
    assert!(matches!(loops("+"), Err(Error::BadLoops(NumberFault::InvalidDigit))));
    assert!(matches!(loops("-1"), Err(Error::BadLoops(NumberFault::InvalidDigit))));
    assert!(matches!(loops("1 "), Err(Error::BadLoops(NumberFault::InvalidDigit))));
    assert!(matches!(loops("4294967296"), Err(Error::BadLoops(NumberFault::TooLarge))));
    assert_eq!(loops("4294967295").unwrap(), u32::MAX);
    assert!(matches!(loops("99999999999x"), Err(Error::BadLoops(_))));
    for bad in ["abc", "x99999999999", "4294967295x", "+4294967295 1", "++1", "1_000", "\u{663}"] {
        assert!(matches!(loops(bad), Err(Error::BadLoops(NumberFault::InvalidDigit))));
    }
}

#[test]
fn scenario_other_errors() {
    let e = scenario(&[("scenario", "mem-hog"), ("load", "much")]).unwrap_err();
    assert!(matches!(e, Error::BadLoad(why) if why == "invalid float literal"));
    let e = scenario(&[("scenario", "mem-hog"), ("speed", "fast")]).unwrap_err();
    assert!(matches!(e, Error::BadSpeed));
    let e = scenario(&[("scenario", "mem-hog"), ("color", "red")]).unwrap_err();
    assert!(matches!(e, Error::UnknownMemHogProperty(k) if k == "color"));
}

#[test]
fn first_fault_in_key_order_is_told() {
    let e = scenario(&[("scenario", "mem-hog"), ("speed", "fast"), ("loops", "0"), ("load", "x")]).unwrap_err();
    assert!(matches!(e, Error::BadLoad(_)));
    let e = scenario(&[("scenario", "mem-hog"), ("speed", "fast"), ("loops", "0")]).unwrap_err();
    assert!(matches!(e, Error::ZeroLoops));
    let e = scenario(&[("scenario", "mem-hog"), ("a", "1"), ("load", "x")]).unwrap_err();
    assert!(matches!(e, Error::UnknownMemHogProperty(k) if k == "a"));
    let e = scenario(&[("scenario", "mem-hog"), ("zz", "1"), ("z", "1")]).unwrap_err();
    assert!(matches!(e, Error::UnknownMemHogProperty(k) if k == "z"));
}

#[test]
fn job_default_scenarios() {
    let job = job(&[&[]]).unwrap();
    assert!(!job.passive);
    assert_eq!(job.balloon_size, 0);
    let loads: Vec<(u32, f64)> = job
        .scenarios
        .iter()
        .map(|s| match s {
            Scenario::MemHog(mh) => (mh.loops, mh.load),
        })
        .collect();
    assert_eq!(loads, [(3, 1.0), (3, 0.8)]);
}

#[test]
fn job_properties() {
    let parsed = job(&[
        &[("passive", ""), ("balloon", "4K")],
        &[("scenario", "mem-hog"), ("loops", "1")],
        &[("scenario", "mem-hog"), ("loops", "2")],
        &[("scenario", "mem-hog"), ("loops", "5")],
    ])
    .unwrap();
    assert!(parsed.passive);
    assert_eq!(parsed.balloon_size, 4096);
    let loops: Vec<u32> = parsed
        .scenarios
        .iter()
        .map(|s| match s {
            Scenario::MemHog(mh) => mh.loops,
        })
        .collect();
    assert_eq!(loops, [1, 2, 5]);
    assert!(job(&[&[("passive", "true")]]).unwrap().passive);
    assert!(!job(&[&[("passive", "false")]]).unwrap().passive);
}

#[test]
fn job_errors() {
    assert!(matches!(job(&[&[("passive", "yes")]]), Err(Error::BadPassive)));
    assert!(matches!(job(&[&[("passive", "True")]]), Err(Error::BadPassive)));
    assert!(matches!(job(&[&[("balloon", "big")]]), Err(Error::BadBalloon(why)) if why == "invalid digit found in string"));
    assert!(matches!(job(&[&[("color", "red")]]), Err(Error::UnknownProperty(k)) if k == "color"));
    assert!(matches!(job(&[&[("balloon", "big"), ("passive", "yes")]]), Err(Error::BadBalloon(_))));
    assert!(matches!(job(&[&[("passive", "yes")], &[]]), Err(Error::BadPassive)));
    assert!(matches!(
        job(&[&[], &[("scenario", "mem-hog")], &[("scenario", "mem-hog"), ("loops", "0")], &[]]),
        Err(Error::ZeroLoops)
    ));
    assert!(matches!(job(&[&[], &[]]), Err(Error::BadScenario)));
}

#[test]
fn job_parameters() {
    assert_eq!(parse_params(&props(&[]), &size).unwrap(), (false, 0));
    assert_eq!(parse_params(&props(&[("balloon", "2K"), ("passive", "true")]), &size).unwrap(), (true, 2048));
    assert!(matches!(parse_params(&props(&[("passive", "no")]), &size), Err(Error::BadPassive)));
}

#[test]
fn default_loads_are_not_read_for_a_faulty_job() {
    let no_frac = |_: &str| -> Result<f64, String> { panic!("read") };
    let spec = JobSpec { props: vec![props(&[("color", "red")])] };
    let r = ProtectionJob::parse(&spec, &no_frac, &size, &arith);
    assert!(matches!(r, Err(Error::UnknownProperty(_))));
}

#[test]
fn errors_in_words() {
    let scn = |k, v| scenario(&[("scenario", "mem-hog"), (k, v)]).unwrap_err().message();
    assert_eq!(scenario(&[]).unwrap_err().message(), "\"scenario\" invalid or missing");
    assert_eq!(scn("loops", "0"), "\"loops\" can't be 0");
    for bad in ["", "x", "4294967296"] {
        assert_eq!(scn("loops", bad), bad.parse::<u32>().unwrap_err().to_string());
    }
    assert_eq!(scn("load", "much"), "invalid float literal");
    assert_eq!(scn("speed", "3x"), "\"speed\" should be one of 10%, 25%, 50%, 1x or 2x");
    assert_eq!(scn("color", "red"), "unknown mem-hog property \"color\"");
    assert_eq!(scn("a\"b\n", ""), "unknown mem-hog property \"a\\\"b\\n\"");
    let own = |k, v| job(&[&[(k, v)]]).unwrap_err().message();
    assert_eq!(own("passive", "yes"), "yes".parse::<bool>().unwrap_err().to_string());
    assert_eq!(own("balloon", "big"), "invalid digit found in string");
    assert_eq!(own("color", "red"), "unknown property key \"color\"");
    assert_eq!(Error::NoMemHogSysload.message(), "agent report doesn't contain \"mem-hog\" sysload");
    assert_eq!(Error::SwapStayedZero.message(), "swap usage stayed zero");
    assert_eq!(Error::UnknownProperty("k".to_string()).message_with("<k>"), "unknown property key <k>");
    assert_eq!(NumberFault::Empty.message(), "cannot parse integer from empty string");
}

#[test]
fn jobs_are_cloned() {
    let a = job(&[&[("passive", ""), ("balloon", "7")], &[("scenario", "mem-hog"), ("loops", "4"), ("speed", "1x")]]);
    let a = a.unwrap();
    let b = a.clone();
    assert_eq!((b.passive, b.balloon_size, b.scenarios.len()), (true, 7, 1));
    let Scenario::MemHog(mh) = &b.scenarios[0];
    assert_eq!((mh.loops, mh.load, mh.speed), (4, 1.0, MemHogSpeed::Hog1x));
}

#[test]
fn job_setup_steps() {
    let plain = job(&[&[]]).unwrap();
    assert_eq!(plain.setup(), [Setup::FindHashdParams, Setup::PrepTestfiles, Setup::StartAgent]);
    let all = job(&[&[("passive", ""), ("balloon", "10")]]).unwrap();
    assert_eq!(
        all.setup(),
        [
            Setup::FindHashdParams,
            Setup::Passive,
            Setup::Balloon { size: 10 },
            Setup::PrepTestfiles,
            Setup::StartAgent
        ]
    );
}

#[test]
fn bench_describes_and_parses() {
    let bench = ProtectionBench {};
    let desc = bench.desc();
    assert_eq!(desc.kind, "protection");
    assert!(desc.takes_run_propsets);
    let spec = JobSpec { props: vec![props(&[("passive", "")])] };
    let job = bench.parse(&spec, &frac, &size, &arith).unwrap();
    assert!(job.passive);
    assert_eq!(job.scenarios.len(), 2);
}

#[test]
fn strings_are_ordered_as_std_orders_them() {
    let words = ["", "a", "ab", "b", "load", "loops", "Z", "z", "\u{e9}", "\u{4e00}", "\u{1f600}", "\u{ffff}"];
    for a in words {
        for b in words {
            let want = if a < b {
                Place::Before
            } else if a == b {
                Place::Same
            } else {
                Place::After
            };
            assert_eq!(place(a, b), want);
            assert_eq!(same(a, b), a == b);
        }
    }
}

#[test]
fn maps_keep_their_keys_in_order() {
    let orders: [[(&str, &str); 3]; 2] = [[("b", "2"), ("a", "1"), ("c", "3")], [("c", "3"), ("b", "2"), ("a", "1")]];
    for pairs in orders {
        let mut m = props(&pairs);
        let keys: Vec<String> = (0..m.len()).map(|i| m.at(i).0.to_string()).collect();
        assert_eq!(keys, ["a", "b", "c"]);
        assert_eq!(m.get("b").unwrap(), "2");
        assert_eq!(m.insert("b".to_string(), "4".to_string()), Some("2".to_string()));
        assert_eq!(m.clone().get("b").unwrap(), "4");
        assert_eq!(m.remove("b"), Some("4".to_string()));
        assert_eq!(m.remove("b"), None);
        assert_eq!(m.get("b"), None);
        assert_eq!(m.len(), 2);
        assert_eq!(m.at(1), ("c", &"3".to_string()));
    }
}

#[test]
fn numerals_read_back() {
    for n in [1u32, 10, 4096, u32::MAX] {
        let mut s = String::new();
        push_decimal(&mut s, n as u64);
        assert_eq!(scenario(&[("scenario", "mem-hog"), ("loops", &s)]).unwrap().loops, n);
    }
}

#[test]
fn default_job_is_empty() {
    let job: ProtectionJob<f64> = ProtectionJob::default();
    assert!(!job.passive);
    assert_eq!(job.balloon_size, 0);
    assert!(job.scenarios.is_empty());
}

#[test]
fn numbers_and_columns() {
    for n in [0u64, 9, 10, 305, u64::MAX] {
        let mut s = String::new();
        push_decimal(&mut s, n);
        assert_eq!(s, n.to_string());
    }
    for (s, width) in [("", 3), ("ab", 4), ("abcd", 4), ("abcde", 4), ("\u{e9}", 2)] {
        let mut out = String::from("|");
        push_right_aligned(&mut out, s, width);
        assert_eq!(out, format!("|{:>1$}", s, width));
    }
}
