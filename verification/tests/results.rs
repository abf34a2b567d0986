use protection::arith::{pooled_stdev, sum, weighted_mean, Op};
use protection::combine::{can_combine, CombinedPcts, Replay};
use protection::job::{ProtectionJob, ProtectionResult};
use protection::layout::pcts;
use protection::mem_hog::{MemHog, MemHogResult, MemHogRun};
use protection::monitor::BanditMemHogReport;
use protection::page::Piece;
use protection::readings::{measure, Measure, Source};
use protection::report::{Report, Usage};
use protection::scenario::{Scenario, ScenarioResult};
use protection::speed::MemHogSpeed;
use protection::strmap::StrMap;
use protection::study::{base_periods, hog_periods, hog_totals, totals_fit, BaseStats, HogStats, IoTally};

fn run(t: u64, wbytes: u64, wloss: u64, mem: usize) -> MemHogRun {
    MemHogRun {
        stable_at: t,
        hog_started_at: t + 1,
        hog_ended_at: t + 9,
        first_hog_rep: BanditMemHogReport { timestamp: t as i64 + 2, wbytes: 0, wloss: 0 },
        last_hog_rep: BanditMemHogReport { timestamp: t as i64 + 8, wbytes, wloss },
        last_hog_mem: mem,
    }
}

fn table(scale: f64) -> StrMap<f64> {
    let mut m = StrMap::new();
    for p in pcts() {
        m.insert(p.to_string(), p.parse::<f64>().unwrap() * scale);
    }
    m
}

fn iolat(x: f64) -> StrMap<StrMap<f64>> {
    let mut inner = StrMap::new();
    inner.insert("50".to_string(), x);
    let mut m = StrMap::new();
    m.insert("99".to_string(), inner);
    m
}

fn base() -> BaseStats<f64> {
    BaseStats { base_rps: 100.0, base_rps_stdev: 3.0, base_lat: 0.5, base_lat_stdev: 0.25 }
}

fn stats() -> HogStats<f64> {
    HogStats {
        work_isol_pcts: table(0.01),
        work_isol: 0.75,
        work_isol_stdev: 0.125,
        lat_impact_pcts: table(0.02),
        lat_impact: 0.5,
        lat_impact_stdev: 0.0625,
        iolat_pcts: [iolat(1.0), iolat(2.0)],
        vrate: 90.0,
        vrate_stdev: 2.0,
        io: IoTally { io_usage: 6.0, io_unused: 3.0, hog_io_usage: 4.0 },
    }
}

fn arith(op: Op<f64>) -> f64 {
    match op {
        Op::Int(n) => n as f64,
        Op::Add(a, b) => a + b,
        Op::Sub(a, b) => a - b,
        Op::Mul(a, b) => a * b,
        Op::Div(a, b) => a / b,
        Op::Min(a, b) => a.min(b),
        Op::Max(a, b) => a.max(b),
        Op::Square(a) => a.powi(2),
        Op::Sqrt(a) => a.sqrt(),
    }
}

fn positive(x: f64) -> bool {
    x > 0.0
}

fn result(runs: Vec<MemHogRun>, main_period: (u64, u64)) -> MemHogResult<f64> {
    let mut r = MemHog::study_stats(&runs, main_period, base(), stats(), &arith, &positive);
    r.runs = runs;
    r
}

/// One report for each second of the period.
fn reports((start, end): (u64, u64)) -> Vec<Report<f64>> {
    (start..end)
        .map(|t| {
            let mut rep = report(0.5, Some(0.25));
            rep.hashd_rps = t as f64;
            rep.hashd_lat = t as f64 / 100.0;
            rep
        })
        .collect()
}

fn summary(xs: Vec<f64>) -> (f64, f64) {
    let n = xs.len() as f64;
    let mean = xs.iter().sum::<f64>() / n;
    let variance = xs.iter().map(|x| (x - mean).powi(2)).sum::<f64>() / n;
    (mean, variance.sqrt())
}

fn percentiles(mut xs: Vec<f64>, names: Vec<&'static str>) -> StrMap<f64> {
    xs.sort_by(|a, b| a.partial_cmp(b).unwrap());
    let mut m = StrMap::new();
    for name in names {
        let i = (xs.len() - 1) * name.parse::<usize>().unwrap() / 100;
        m.insert(name.to_string(), xs[i]);
    }
    m
}

fn io_lat(periods: Vec<(u64, u64)>) -> [StrMap<StrMap<f64>>; 2] {
    [iolat(periods.len() as f64), iolat(periods[0].0 as f64)]
}

fn source<'s, G>(
    reports: &'s G,
) -> Source<
    's,
    G,
    impl Fn(Vec<f64>) -> (f64, f64),
    impl Fn(Vec<f64>, Vec<&'static str>) -> StrMap<f64>,
    impl Fn(Vec<(u64, u64)>) -> [StrMap<StrMap<f64>>; 2],
    impl Fn(Op<f64>) -> f64,
    impl Fn(f64) -> bool,
> {
    Source {
        reports,
        summary: &summary,
        percentiles: &percentiles,
        io_lat: &io_lat,
        arith: &arith,
        positive: &positive,
        root: "root",
        hog_svc: "hog",
    }
}

fn combined_pcts() -> CombinedPcts<f64> {
    CombinedPcts { work_isol_pcts: table(0.03), lat_impact_pcts: table(0.04), iolat_pcts: [iolat(3.0), iolat(4.0)] }
}

#[test]
fn periods_of_runs() {
    let runs = vec![run(10, 0, 0, 0), run(30, 0, 0, 0)];
    assert_eq!(base_periods(&runs), [(10, 11), (30, 31)]);
    assert_eq!(hog_periods(&runs), [(12, 18), (32, 38)]);
}

#[test]
fn times_before_the_epoch_wrap() {
    let mut r = run(10, 0, 0, 0);
    r.first_hog_rep.timestamp = -1;
    assert_eq!(hog_periods(&vec![r]), [(u64::MAX, 18)]);
}

#[test]
fn totals_of_runs() {
    assert_eq!(hog_totals(&vec![]), (0, 0));
    assert_eq!(hog_totals(&vec![run(0, 500, 7, 100), run(0, 50, 8, 100), run(0, 100, 1, 0)]), (500, 16));
}

#[test]
fn studied_runs() {
    let runs = vec![run(10, 500, 30, 100), run(30, 200, 20, 200)];
    let r = MemHog::study_stats(&runs, (1, 99), base(), stats(), &arith, &positive);
    assert_eq!(r.base_rps, 100.0);
    assert_eq!(r.base_lat_stdev, 0.25);
    assert_eq!(r.work_isol_pcts.get("50"), Some(&0.5));
    assert_eq!(r.lat_impact_pcts.get("50"), Some(&1.0));
    assert_eq!(r.iolat_pcts[1].get("99").unwrap().get("50"), Some(&2.0));
    assert_eq!(r.main_period, (1, 99));
    assert_eq!(r.hog_periods, [(12, 18), (32, 38)]);
    assert_eq!((r.hog_bytes, r.hog_lost_bytes), (400, 50));
    assert_eq!(r.hog_io_loss, 0.5);
    assert_eq!(r.work_csv, 6.0 / 6.5);
    assert!(r.runs.is_empty());
}

#[test]
fn measures_of_reports() {
    let rep = report(0.5, None);
    assert_eq!(measure(&rep, Measure::Rps), 80.0);
    assert_eq!(measure(&rep, Measure::Lat), 0.25);
    assert_eq!(measure(&rep, Measure::Vrate), 50.0);
}

#[test]
fn baseline_is_of_hold_periods() {
    let runs = vec![run(10, 0, 0, 0), run(30, 0, 0, 0)];
    let base = MemHog::base_stats(&runs, &reports, &summary);
    assert_eq!((base.base_rps, base.base_rps_stdev), (20.0, 10.0));
    assert_eq!(base.base_lat, 0.2);
    let elsewhere = |p: (u64, u64)| if p == (10, 11) || p == (30, 31) { reports(p) } else { Vec::new() };
    let same = MemHog::base_stats(&runs, &elsewhere, &summary);
    assert_eq!((same.base_rps, same.base_lat_stdev), (base.base_rps, base.base_lat_stdev));
    let doubled = |p: (u64, u64)| reports((p.0, p.1 + 1));
    assert_eq!(MemHog::base_stats(&runs, &doubled, &summary).base_rps, 20.5);
}

#[test]
fn studied_reports() {
    let runs = vec![run(10, 500, 30, 100), run(30, 200, 20, 200)];
    let hog = MemHog { loops: 2, load: 1.0, speed: MemHogSpeed::Hog2x, main_period: (1, 99), runs: runs.clone() };
    let r = hog.result(&source(&reports));
    assert_eq!((r.base_rps, r.base_lat), (20.0, 0.2));
    // The hogs' reports are those of seconds 12 to 17 and 32 to 37.
    let isols: Vec<f64> = (12..18).map(|t| t as f64 / 20.0).chain(vec![1.0; 6]).collect();
    assert_eq!((r.work_isol, r.work_isol_stdev), summary(isols));
    assert_eq!(r.work_isol_pcts.get("00"), Some(&0.6));
    assert_eq!(r.work_isol_pcts.get("100"), Some(&1.0));
    assert_eq!(r.lat_impact_pcts.get("00"), Some(&0.0));
    assert!((r.lat_impact_pcts.get("100").unwrap() - 0.85).abs() < 1e-9);
    assert_eq!((r.vrate, r.vrate_stdev), (50.0, 0.0));
    assert_eq!((r.io_usage, r.io_unused, r.hog_io_usage), (3.0, 3.0, 1.5));
    assert_eq!(r.iolat_pcts[0].get("99").unwrap().get("50"), Some(&2.0));
    assert_eq!(r.iolat_pcts[1].get("99").unwrap().get("50"), Some(&12.0));
    assert_eq!((r.hog_bytes, r.hog_lost_bytes), (400, 50));
    assert_eq!(r.hog_io_loss, 50.0 * (1.5 / 400.0));
    assert_eq!(r.main_period, (1, 99));
    assert_eq!(r.runs, runs);
    assert!(MemHog::study(&runs, (1, 99), &source(&reports)).runs.is_empty());
}

#[test]
fn studied_values_are_in_range() {
    let runs = vec![run(10, 500, 0, 100), run(30, 200, 0, 100)];
    let held = |p: (u64, u64)| p.1 == p.0 + 1;
    // Nothing is lost: throughput stays over the baseline and latency under it.
    let calm = |p: (u64, u64)| {
        let mut reps = reports(p);
        for rep in reps.iter_mut() {
            (rep.hashd_rps, rep.hashd_lat) = if held(p) { (50.0, 0.5) } else { (60.0, 0.25) };
        }
        reps
    };
    let r = MemHog::study(&runs, (1, 99), &source(&calm));
    assert_eq!((r.work_isol, r.lat_impact), (1.0, 0.0));
    assert_eq!((r.work_isol_pcts.get("00"), r.lat_impact_pcts.get("100")), (Some(&1.0), Some(&0.0)));
    assert_eq!(r.work_csv, 1.0);
    // All is lost.
    let wild = |p: (u64, u64)| {
        let mut reps = reports(p);
        for rep in reps.iter_mut() {
            (rep.hashd_rps, rep.hashd_lat) = if held(p) { (50.0, 0.5) } else { (0.0, 1e9) };
        }
        reps
    };
    let r = MemHog::study(&vec![run(10, 500, 1000, 100)], (1, 99), &source(&wild));
    assert_eq!((r.work_isol, r.lat_impact), (0.0, 1.0));
    assert_eq!((r.work_isol_pcts.get("100"), r.lat_impact_pcts.get("00")), (Some(&0.0), Some(&1.0)));
    assert!(0.0 < r.work_csv && r.work_csv < 1.0);
    // Nothing is left over, or nothing is used.
    let busy = |p: (u64, u64)| p.0..p.1;
    let full = |p: (u64, u64)| busy(p).map(|_| report(1.0, Some(0.5))).collect::<Vec<_>>();
    assert_eq!(MemHog::study(&vec![run(10, 500, 1000, 100)], (1, 99), &source(&full)).work_csv, 1.0);
    let idle = |p: (u64, u64)| busy(p).map(|_| report(0.0, None)).collect::<Vec<_>>();
    assert_eq!(MemHog::study(&vec![run(10, 500, 1000, 100)], (1, 99), &source(&idle)).work_csv, 0.0);
}

#[test]
fn totals_are_checked() {
    assert!(totals_fit(&vec![]));
    assert!(totals_fit(&vec![run(0, u64::MAX, u64::MAX, 0), run(0, 5, 0, 9)]));
    assert!(!totals_fit(&vec![run(0, u64::MAX, 0, 0), run(0, 1, 0, 0)]));
    assert!(!totals_fit(&vec![run(0, 0, u64::MAX, 0), run(0, 0, 1, 0)]));
}

#[test]
fn sums_and_means() {
    assert_eq!(sum(&vec![], &arith), 0.0);
    assert_eq!(sum(&vec![1.5, 2.0, 4.0], &arith), 7.5);
    assert_eq!(weighted_mean(&vec![(10.0, 3), (50.0, 1)], 4, &arith), 20.0);
    assert_eq!(pooled_stdev(&vec![(3.0, 2), (6.0, 1)], 6, &arith), 3.0);
    assert_eq!(pooled_stdev(&vec![(3.0, 2), (3.0, 1)], 3, &arith), 3.0);
    assert_eq!(pooled_stdev(&vec![], 0, &arith), 0.0);
}

#[test]
fn isolation_and_impact() {
    assert_eq!(MemHog::calc_work_isol(50.0, 100.0, &arith), 0.5);
    assert_eq!(MemHog::calc_work_isol(150.0, 100.0, &arith), 1.0);
    assert_eq!(MemHog::calc_lat_impact(0.75, 0.5, &arith), 0.5);
    assert_eq!(MemHog::calc_lat_impact(0.25, 0.5, &arith), 0.0);
    assert_eq!(MemHog::work_isol_of(&report(0.5, None), 200.0, &arith), 0.4);
    assert_eq!(MemHog::lat_impact_of(&report(0.5, None), 0.1, &arith), 1.0);
    assert_eq!(MemHog::lat_impact_of(&report(0.5, None), 0.5, &arith), 0.0);
}

#[test]
fn isolation_grows_with_throughput() {
    let isol: Vec<f64> =
        [0.0, 1.0, 99.0, 100.0, 101.0, 1e300].iter().map(|rps| MemHog::calc_work_isol(*rps, 100.0, &arith)).collect();
    assert!(isol.windows(2).all(|w| 0.0 <= w[0] && w[0] <= w[1] && w[1] <= 1.0));
    assert_eq!(isol.iter().position(|x| *x == 1.0), Some(3));
    assert_eq!(MemHog::calc_work_isol(f64::NAN, 0.0, &arith), 1.0);
}

#[test]
fn impact_grows_with_latency() {
    let impact: Vec<f64> =
        [0.0, 0.5, 1.0, 1.25, 2.0, 2.5, 1e300].iter().map(|lat| MemHog::calc_lat_impact(*lat, 1.0, &arith)).collect();
    assert_eq!(impact, [0.0, 0.0, 0.0, 0.25, 1.0, 1.0, 1.0]);
    assert_eq!(MemHog::calc_lat_impact(f64::NAN, 1.0, &arith), 0.0);
    assert_eq!(MemHog::calc_lat_impact(1.0, 0.0, &arith), 1.0);
}

fn report(root_util: f64, hog_util: Option<f64>) -> Report<f64> {
    let usage = |io_util| Usage { mem_bytes: 0, swap_bytes: 0, swap_free: 0, mem_pressures: (0.0, 0.0), io_util };
    let mut usages = StrMap::new();
    usages.insert("root".to_string(), usage(root_util));
    if let Some(util) = hog_util {
        usages.insert("hog".to_string(), usage(util));
    }
    Report { usages, sysloads: StrMap::new(), hashd_rps: 80.0, hashd_lat: 0.25, vrate: 50.0 }
}

#[test]
fn io_costs_are_added_up() {
    let mut io = IoTally::new(&arith);
    assert_eq!((io.io_usage, io.io_unused, io.hog_io_usage), (0.0, 0.0, 0.0));
    io.add_report(&report(0.75, Some(0.5)), "root", "hog", &arith);
    assert_eq!((io.io_usage, io.io_unused, io.hog_io_usage), (0.375, 0.125, 0.25));
    io.add_report(&report(1.5, None), "root", "hog", &arith);
    assert_eq!((io.io_usage, io.io_unused, io.hog_io_usage), (1.125, 0.125, 0.25));
}

#[test]
fn nothing_used_conserves_nothing() {
    let mut s = stats();
    s.io.io_usage = 0.0;
    let r = MemHog::study_stats(&vec![run(10, 500, 30, 100)], (1, 99), base(), s, &arith, &positive);
    assert_eq!(r.work_csv, 0.0);
}

#[test]
fn combined_results() {
    let mut a = result(vec![run(10, 500, 30, 100), run(30, 200, 20, 200), run(50, 300, 0, 0)], (5, 60));
    let mut b = result(vec![run(70, 900, 1, 0)], (65, 80));
    a.base_rps = 10.0;
    b.base_rps = 50.0;
    a.vrate_stdev = 4.0;
    b.vrate_stdev = 1000.0;
    let c = MemHog::combine_stats(&vec![&a, &b], combined_pcts(), &arith);
    assert_eq!(c.base_rps, 20.0);
    assert_eq!(c.vrate, 90.0);
    assert_eq!(c.vrate_stdev, 4.0);
    assert_eq!(c.base_rps_stdev, 3.0);
    assert_eq!(c.io_usage, 12.0);
    assert_eq!(c.hog_io_usage, 8.0);
    assert_eq!(c.main_period, (0, 80));
    assert_eq!(c.hog_periods, [(12, 18), (32, 38), (52, 58), (72, 78)]);
    assert_eq!((c.hog_bytes, c.hog_lost_bytes), (1600, 51));
    assert_eq!(c.work_isol_pcts.get("100"), Some(&3.0));
    assert_eq!(c.lat_impact_pcts.get("100"), Some(&4.0));
    assert_eq!(c.iolat_pcts[0].get("99").unwrap().get("50"), Some(&3.0));
    assert!(c.runs.is_empty());
}

#[test]
fn combining_agrees_with_studying_all_runs() {
    let first = vec![run(10, 500, 30, 100), run(30, 200, 20, 200)];
    let second = vec![run(70, 900, 1, 0)];
    let (a, b) = (result(first.clone(), (0, 0)), result(second.clone(), (0, 0)));
    let c = MemHog::combine_stats(&vec![&a, &b], combined_pcts(), &arith);
    let all = result([first, second].concat(), (0, 0));
    assert_eq!((c.hog_bytes, c.hog_lost_bytes), (all.hog_bytes, all.hog_lost_bytes));
    assert_eq!(c.hog_periods, all.hog_periods);
}

#[test]
fn single_runs_have_no_spread_to_pool() {
    let a = result(vec![run(10, 5, 0, 0)], (0, 9));
    let b = result(vec![run(20, 5, 0, 0)], (0, 8));
    let c = MemHog::combine_stats(&vec![&a, &b], combined_pcts(), &arith);
    assert_eq!(c.base_rps_stdev, 0.0);
    assert_eq!(c.main_period, (0, 9));
}

#[test]
fn spread_is_pooled_by_degrees_of_freedom() {
    let a = result(vec![run(10, 5, 0, 0), run(20, 5, 0, 0)], (0, 9));
    let b = result(vec![], (0, 8));
    let c = MemHog::combine_stats(&vec![&a, &b], combined_pcts(), &arith);
    assert_eq!(c.base_rps_stdev, 3.0);
    let d = MemHog::combine_stats(&vec![&a, &b, &b, &a], combined_pcts(), &arith);
    assert_eq!(d.base_rps_stdev, 3.0);
}

#[test]
fn combining_one_result_gives_it_back() {
    let a = result(vec![run(10, 500, 30, 100), run(30, 200, 20, 200)], (5, 60));
    let c = MemHog::combine_stats(&vec![&a], combined_pcts(), &arith);
    assert_eq!(c.hog_periods, a.hog_periods);
    assert_eq!((c.hog_bytes, c.hog_lost_bytes), (a.hog_bytes, a.hog_lost_bytes));
    assert_eq!((c.io_usage, c.hog_io_loss), (a.io_usage, a.hog_io_loss));
    assert_eq!((c.base_rps, c.base_rps_stdev), (a.base_rps, a.base_rps_stdev));
    assert_eq!((c.lat_impact, c.lat_impact_stdev), (a.lat_impact, a.lat_impact_stdev));
    assert_eq!(c.main_period, (0, 60));
    let mut one = result(vec![run(10, 500, 30, 100)], (5, 60));
    (one.io_usage, one.io_unused) = (0.1, 0.7);
    let c = MemHog::combine_stats(&vec![&one], combined_pcts(), &arith);
    assert_eq!((c.io_usage, c.io_unused, c.hog_periods, c.hog_bytes), (0.1, 0.7, one.hog_periods, one.hog_bytes));
}

#[test]
fn order_of_results_does_not_matter() {
    let mut a = result(vec![run(10, 500, 30, 100), run(30, 200, 20, 200), run(50, 300, 0, 0)], (5, 60));
    let b = result(vec![run(70, 900, 1, 0), run(90, 10, 1, 0)], (65, 95));
    a.base_rps = 20.0;
    a.vrate_stdev = 8.0;
    let c = MemHog::combine_stats(&vec![&a, &b], combined_pcts(), &arith);
    let d = MemHog::combine_stats(&vec![&b, &a], combined_pcts(), &arith);
    assert_eq!((c.hog_bytes, c.hog_lost_bytes, c.main_period), (d.hog_bytes, d.hog_lost_bytes, d.main_period));
    assert_eq!((c.base_rps, c.vrate_stdev, c.io_usage), (d.base_rps, d.vrate_stdev, d.io_usage));
    let (mut x, mut y) = (c.hog_periods, d.hog_periods);
    assert_ne!(x, y);
    x.sort();
    y.sort();
    assert_eq!(x, y);
}

#[test]
fn combined_percentiles_are_read_again() {
    let mut a = result(vec![run(10, 5, 0, 0)], (0, 9));
    let mut b = result(vec![run(30, 5, 0, 0)], (0, 9));
    (a.base_rps, a.base_lat) = (24.0, 0.12);
    (b.base_rps, b.base_lat) = (64.0, 1.0);
    // The hogs' reports are those of seconds 12 to 17 and 32 to 37.
    let c = MemHog::combine_results(&vec![&a, &b], &source(&reports));
    assert_eq!(c.work_isol_pcts.get("00"), Some(&0.5));
    assert_eq!(c.work_isol_pcts.get("100"), Some(&(17.0 / 24.0)));
    assert_eq!(c.lat_impact_pcts.get("00"), Some(&0.0));
    assert!((c.lat_impact_pcts.get("100").unwrap() - 5.0 / 12.0).abs() < 1e-9);
    assert_eq!(c.iolat_pcts[0].get("99").unwrap().get("50"), Some(&2.0));
    assert_eq!(c.base_rps, 44.0);
}

#[test]
fn sums_are_checked() {
    let mut a = result(vec![run(10, 5, 0, 0)], (0, 9));
    assert!(can_combine(&vec![&a, &a]));
    a.hog_bytes = u64::MAX;
    assert!(can_combine(&vec![&a]));
    assert!(!can_combine(&vec![&a, &a]));
    a.hog_bytes = 0;
    a.hog_lost_bytes = u64::MAX / 2 + 1;
    assert!(!can_combine(&vec![&a, &a]));
}

#[test]
fn replays_carry_their_baseline() {
    let mut a = result(vec![run(10, 5, 0, 0), run(20, 5, 0, 0)], (0, 9));
    let mut b = result(vec![run(30, 5, 0, 0)], (0, 9));
    a.base_rps = 1.0;
    b.base_rps = 2.0;
    b.base_lat = 3.0;
    let replays: Vec<(f64, f64, (u64, u64))> = MemHog::replays(&vec![&a, &b])
        .into_iter()
        .map(|Replay { base_rps, base_lat, period }| (base_rps, base_lat, period))
        .collect();
    assert_eq!(replays, [(1.0, 0.5, (12, 18)), (1.0, 0.5, (22, 28)), (2.0, 3.0, (32, 38))]);
}

#[test]
fn job_results_are_combined() {
    let mut r: ProtectionResult<f64> = ProtectionResult::default();
    r.combine(&source(&reports));
    assert!(r.combined_mem_hog.is_none());
    r.scenarios.push(ScenarioResult::MemHog(result(vec![run(10, 5, 2, 0)], (0, 9))));
    r.scenarios.push(ScenarioResult::MemHog(result(vec![run(20, 7, 3, 0)], (0, 19))));
    assert_eq!(r.mem_hogs().len(), 2);
    assert_eq!(r.mem_hogs()[1].hog_bytes, 7);
    r.combine(&source(&reports));
    let c = r.combined_mem_hog.as_ref().unwrap();
    assert_eq!((c.hog_bytes, c.hog_lost_bytes), (12, 5));
    assert_eq!(r.scenarios.len(), 2);
}

#[test]
fn scenarios_run_in_order() {
    let mut done: ProtectionResult<f64> = ProtectionResult::default();
    let job = job(3);
    let mut next = job.next_scenario(&done);
    for i in 0..3u64 {
        assert_eq!(next, Some(i as usize));
        let r = ScenarioResult::MemHog(result(vec![run(i, i, 0, 0)], (0, 0)));
        next = job.proceed::<String>(&mut done, Ok(r)).unwrap();
    }
    assert_eq!(next, None);
    let bytes: Vec<u64> = done.mem_hogs().iter().map(|mh| mh.hog_bytes).collect();
    assert_eq!(bytes, [0, 1, 2]);
    assert!(done.combined_mem_hog.is_none());
}

#[test]
fn first_error_ends_the_job() {
    let mut done: ProtectionResult<f64> = ProtectionResult::default();
    let job = job(3);
    done.record(ScenarioResult::MemHog(result(vec![], (0, 0))));
    assert_eq!(job.proceed(&mut done, Err("swap usage stayed zero")), Err("swap usage stayed zero"));
    assert_eq!(done.scenarios.len(), 1);
}

#[test]
fn results_are_cloned() {
    let r = ProtectionResult { scenarios: vec![ScenarioResult::MemHog(shown())], combined_mem_hog: Some(shown()) };
    let c = r.clone();
    let (a, b) = (r.mem_hogs()[0], c.mem_hogs()[0]);
    assert_eq!(a.runs, b.runs);
    assert_eq!(a.hog_periods, b.hog_periods);
    assert_eq!((a.base_rps, a.hog_io_loss, a.hog_bytes), (b.base_rps, b.hog_io_loss, b.hog_bytes));
    assert_eq!(b.work_isol_pcts.get("50"), Some(&0.5));
    assert_eq!(c.combined_mem_hog.unwrap().iolat_pcts[1].get("99").unwrap().get("50"), Some(&2.0));
}

#[test]
fn default_result_holds_nothing() {
    let r: MemHogResult<f64> = MemHogResult::default();
    assert_eq!((r.base_rps, r.vrate_stdev, r.io_usage, r.work_csv), (0.0, 0.0, 0.0, 0.0));
    assert_eq!((r.main_period, r.hog_bytes, r.hog_lost_bytes), ((0, 0), 0, 0));
    assert_eq!((r.work_isol_pcts.len(), r.iolat_pcts[1].len()), (0, 0));
    assert!(r.hog_periods.is_empty() && r.runs.is_empty());
    assert!(!r.is_showable());
}

fn render(piece: Piece<f64>) -> String {
    match piece {
        Piece::Duration(x) => format!("{}s", x),
        Piece::Size(n) => format!("{}B", n),
        Piece::Fixed(x, decimals) => format!("{:.*}", decimals, x),
        Piece::Plain(x) => format!("{}", x),
        Piece::Percentile(p) => format!("p{}", p),
        Piece::Underlined(s, c) => format!("{}\n{}", s, c.repeat(s.len())),
        Piece::IoLatTable(t, title) => format!("<{} {}>\n", title, t.get("99").unwrap().get("50").unwrap()),
        Piece::IoLatSummary(t) => format!("<{} {}>\n", t[0].len(), t[1].get("99").unwrap().get("50").unwrap()),
        _ => unreachable!(),
    }
}

const INFO: &str = "Info: baseline_rps=100.00:3.00 baseline_lat=0.5s:0.25s vrate=90.00:2.00
      io_usage=6.0 io_unused=3.0 hog_io_usage=4.0 hog_io_loss=0.5
      hog_bytes=400B hog_lost_bytes=50B

";

const IOLAT: &str = "IO Latency Distribution:

<READ 1>

<WRITE 2>

";

const DIGEST: &str = "<1 2>

Work Isolation and Request Latency Impact Distributions:

             p00   p01   p05   p10   p16   p25   p50   p75   p84   p90   p95   p99  p100
Work Isol   0.00  0.01  0.05  0.10  0.16  0.25  0.50  0.75  0.84  0.90  0.95  0.99  1.00 
Lat Impact  0.00  0.02  0.10  0.20  0.32  0.50  1.00  1.50  1.68  1.80  1.90  1.98  2.00 

Result: work_isol=0.750:0.125 lat_impact=0.500:0.062 work_csv=0.923
";

fn shown() -> MemHogResult<f64> {
    result(vec![run(10, 500, 30, 100), run(30, 200, 20, 200)], (1, 99))
}

#[test]
fn params_and_info_are_laid_out() {
    let hog: MemHog<f64> =
        MemHog { loops: 12, load: 0.8, speed: MemHogSpeed::Hog25Pct, main_period: (0, 0), runs: vec![] };
    let mut out = String::from("> ");
    hog.format_params(&mut out, &render);
    assert_eq!(out, "> Params: loops=12 load=0.8 speed=25%\n");
    let mut out = String::new();
    MemHog::format_info(&mut out, &shown(), &render);
    assert_eq!(out, INFO);
}

#[test]
fn results_are_laid_out() {
    let r = shown();
    let mut short = String::new();
    MemHog::format_result(&mut short, &r, false, &render);
    assert_eq!(short, DIGEST);
    let mut full = String::new();
    MemHog::format_result(&mut full, &r, true, &render);
    assert_eq!(full, format!("{}{}{}", INFO, IOLAT, DIGEST));
    assert!(full.ends_with(&short));
    assert!(!short.contains("Info:"));
}

fn job(n: u32) -> ProtectionJob<f64> {
    let scenarios = (1..=n)
        .map(|loops| {
            Scenario::MemHog(MemHog {
                loops,
                load: 1.0,
                speed: MemHogSpeed::Hog2x,
                main_period: (0, 0),
                runs: vec![],
            })
        })
        .collect();
    ProtectionJob { passive: false, balloon_size: 0, scenarios }
}

#[test]
fn job_results_are_laid_out() {
    let r = ProtectionResult {
        scenarios: vec![ScenarioResult::MemHog(shown()), ScenarioResult::MemHog(shown())],
        combined_mem_hog: Some(shown()),
    };
    let mut out = String::new();
    job(3).format_result(&mut out, &r, true, "", &render);
    let scenario = |i: u32| {
        format!(
            "\nScenario {}/3 - Memory Hog\n{}\nParams: loops={} load=1 speed=2x\n\n{}{}{}",
            i,
            "=".repeat(25),
            i,
            INFO,
            IOLAT,
            DIGEST
        )
    };
    let summary = format!("\nMemory Hog Summary\n{}\n{}{}{}", "=".repeat(18), INFO, IOLAT, DIGEST);
    assert_eq!(out, format!("{}{}{}", scenario(1), scenario(2), summary));
}

#[test]
fn job_results_are_laid_out_in_short() {
    let mut r = ProtectionResult { scenarios: vec![ScenarioResult::MemHog(shown())], combined_mem_hog: Some(shown()) };
    let mut out = String::new();
    job(1).format_result(&mut out, &r, false, "[x] ", &render);
    assert_eq!(out, format!("\n[x] Memory Hog Summary\n{}\n{}", "-".repeat(22), DIGEST));
    r.combined_mem_hog = None;
    let mut out = String::new();
    job(1).format_result(&mut out, &r, false, "", &render);
    assert_eq!(out, "");
}

#[test]
fn short_texts_show_combined_results_only() {
    let blank = || ScenarioResult::MemHog(MemHogResult::default());
    let mut r = ProtectionResult { scenarios: vec![blank(), blank()], combined_mem_hog: Some(shown()) };
    assert!(job(2).can_show(&r, false));
    assert!(!job(2).can_show(&r, true));
    assert!(job(0).can_show(&r, true));
    let (mut a, mut b) = (String::new(), String::new());
    job(2).format_result(&mut a, &r, false, "", &render);
    r.scenarios = vec![ScenarioResult::MemHog(shown())];
    job(5).format_result(&mut b, &r, false, "", &render);
    assert_eq!(a, b);
    assert!(job(1).can_show(&r, true));
    r.combined_mem_hog = Some(MemHogResult::default());
    assert!(!job(1).can_show(&r, false));
}
