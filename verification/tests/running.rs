use protection::arith::Op;
use protection::error::Error;
use protection::mem_hog::{MemHog, MemHogRun};
use protection::monitor::{hog_report_path, sighting, BanditMemHogReport, HogMonitor, Sighting};
use protection::page::Piece;
use protection::report::{ws_status, Report, SliceNames, Sysload, Usage, WorkloadMon};
use protection::session::{Action, Event, HogSession, Phase};
use protection::speed::MemHogSpeed;
use protection::strmap::StrMap;

fn rep(timestamp: i64) -> BanditMemHogReport {
    BanditMemHogReport { timestamp, wbytes: 1000 * timestamp as u64, wloss: timestamp as u64 }
}

fn seen(swap_bytes: u64, mem_bytes: u64, timestamp: i64) -> Option<Sighting> {
    Some(Sighting { swap_bytes, mem_bytes, rep: rep(timestamp) })
}

fn usage(mem_bytes: u64, swap_bytes: u64, swap_free: u64, pressure: f64) -> Usage<f64> {
    Usage { mem_bytes, swap_bytes, swap_free, mem_pressures: (9.0, pressure), io_util: 0.0 }
}

fn report(swap_free: u64) -> Report<f64> {
    let mut usages = StrMap::new();
    usages.insert("-.slice".to_string(), usage(300, 25, swap_free, 0.0));
    usages.insert("workload.slice".to_string(), usage(200, 20, 0, 0.5));
    usages.insert("system.slice".to_string(), usage(100, 5, 0, 0.25));
    usages.insert("hog.service".to_string(), usage(77, 7, 0, 0.0));
    let mut sysloads = StrMap::new();
    sysloads.insert("mem-hog".to_string(), Sysload { scr_path: "/scratch/hog".to_string() });
    Report { usages, sysloads, hashd_rps: 10.0, hashd_lat: 0.125, vrate: 100.0 }
}

fn render(piece: Piece<f64>) -> String {
    match piece {
        Piece::Pct(x) => format!("{}", x * 100.0),
        Piece::PctDashed(x) if x == 0.0 => "-".to_string(),
        Piece::PctDashed(x) => format!("{}", x * 100.0),
        Piece::Duration(x) => format!("{}ms", x * 1000.0),
        Piece::Size(n) => format!("{}B", n),
        _ => unreachable!(),
    }
}

fn arith(op: Op<f64>) -> f64 {
    match op {
        Op::Int(n) => n as f64,
        Op::Div(a, b) => a / b,
        _ => unreachable!(),
    }
}

fn slices() -> SliceNames {
    SliceNames {
        root: "-.slice".to_string(),
        work: "workload.slice".to_string(),
        sys: "system.slice".to_string(),
    }
}

fn mem_hog(loops: u32) -> MemHog<f64> {
    MemHog { loops, load: 0.8, speed: MemHogSpeed::Hog1x, main_period: (0, 0), runs: vec![] }
}

#[test]
fn status_line() {
    let mon = WorkloadMon { hashd_load: 0.75 };
    let (stop, line) = ws_status(&mon, &report(75), &slices(), &arith, &render).unwrap();
    assert!(!stop);
    assert_eq!(
        line,
        "load:  75% lat:125ms swap:  25% w/s mem: 200B/ 100B swap:  20B/   5B memp:  50%/  25%"
    );
}

#[test]
fn status_line_without_swap() {
    let mon = WorkloadMon { hashd_load: 1.0 };
    let mut rep = report(0);
    rep.usages.insert("-.slice".to_string(), usage(300, 0, 0, 0.0));
    let (stop, line) = ws_status(&mon, &rep, &slices(), &arith, &render).unwrap();
    assert!(!stop);
    assert!(line.starts_with("load: 100% lat:125ms swap:   -% w/s mem:"));
}

#[test]
fn status_line_is_of_what_it_shows() {
    let mon = WorkloadMon { hashd_load: 0.75 };
    let (_, line) = ws_status(&mon, &report(75), &slices(), &arith, &render).unwrap();
    let mut other = report(75);
    other.usages.insert("-.slice".to_string(), usage(1, 25, 75, 8.0));
    other.usages.insert("user.slice".to_string(), usage(2, 3, 4, 5.0));
    other.sysloads.remove("mem-hog");
    other.hashd_rps = 99.0;
    other.vrate = 1.0;
    assert_eq!(ws_status(&mon, &other, &slices(), &arith, &render).unwrap().1, line);
    other.usages.insert("-.slice".to_string(), usage(1, 50, 50, 8.0));
    assert_ne!(ws_status(&mon, &other, &slices(), &arith, &render).unwrap().1, line);
}

#[test]
fn swap_usages() {
    assert_eq!(usage(0, 25, 75, 0.0).swap_usage(&arith), 0.25);
    assert_eq!(usage(0, 0, 75, 0.0).swap_usage(&arith), 0.0);
    assert_eq!(usage(0, 0, 0, 0.0).swap_usage(&arith), 0.0);
}

#[test]
fn reports_are_checked_for_slices() {
    let mut rep = report(75);
    assert!(rep.has_slices(&slices()));
    rep.usages.insert("-.slice".to_string(), usage(0, 1, u64::MAX, 0.0));
    assert!(!rep.has_slices(&slices()));
    rep.usages.insert("-.slice".to_string(), usage(0, 1, u64::MAX - 1, 0.0));
    assert!(rep.has_slices(&slices()));
    rep.usages.remove("system.slice");
    assert!(!rep.has_slices(&slices()));
}

#[test]
fn hog_report_paths() {
    assert_eq!(hog_report_path(&report(0)).unwrap(), "/scratch/hog/report.json");
    let mut rep = report(0);
    rep.sysloads.remove("mem-hog");
    assert!(matches!(hog_report_path(&rep), Err(Error::NoMemHogSysload)));
}

#[test]
fn sightings_need_both_reports() {
    let agent = report(0);
    assert_eq!(sighting(&agent, "hog.service", Some(rep(3))), seen(7, 77, 3));
    assert_eq!(sighting(&agent, "hog.service", None), None);
    assert_eq!(sighting(&agent, "other.service", Some(rep(3))), None);
}

#[test]
fn monitor_waits_for_swap() {
    let mut m = HogMonitor::new();
    for s in [None, seen(0, 10, 1), seen(0, 20, 2)] {
        m.observe(s, false);
        assert_eq!(m.first_hog_rep, None);
        assert!(m.mem_rec.is_empty());
    }
    m.observe(seen(1, 30, 3), false);
    assert_eq!(m.first_hog_rep, Some(rep(3)));
    assert!(m.mem_rec.is_empty());
    assert!(!m.has_average());
    m.observe(None, false);
    m.observe(seen(0, 40, 4), false);
    m.observe(seen(9, 50, 5), false);
    assert_eq!(m.first_hog_rep, Some(rep(3)));
    assert_eq!(Vec::from(m.mem_rec.clone()), [50, 40]);
    assert!(m.has_average());
    assert_eq!(m.last_hog_mem(), 45);
}

#[test]
fn monitor_does_not_wait_in_a_test_run() {
    let mut m = HogMonitor::new();
    m.observe(seen(0, 10, 1), true);
    assert_eq!(m.first_hog_rep, Some(rep(1)));
}

#[test]
fn monitor_keeps_the_latest_sizes() {
    let mut m = HogMonitor::new();
    m.observe(seen(1, 0, 0), false);
    for i in 1..=8 {
        m.observe(seen(1, i * i, i as i64), false);
    }
    assert_eq!(Vec::from(m.mem_rec.clone()), [64, 49, 36, 25, 16]);
    assert_eq!(m.last_hog_mem(), 38);
}

#[test]
fn averages_that_do_not_fit() {
    let mut m = HogMonitor::new();
    m.observe(seen(1, 0, 0), false);
    m.observe(seen(1, u64::MAX, 0), false);
    assert!(m.has_average());
    m.observe(seen(1, 1, 0), false);
    assert!(!m.has_average());
}

fn round(hog: &mut MemHog<f64>, session: &mut HogSession, t: u64) -> Action {
    let mut step = |event| hog.advance(session, event).unwrap();
    assert_eq!(step(Event::WarmedUp { now: t }), Action::Hold { secs: 15 });
    assert_eq!(step(Event::Held { now: t + 15 }), Action::StartHog { speed: MemHogSpeed::Hog1x });
    assert_eq!(step(Event::HogStarted), Action::Watch { secs: 600 });
    assert_eq!(step(Event::Status { seen: seen(0, 5, 100) }), Action::KeepWatching);
    assert_eq!(step(Event::Status { seen: seen(1, 6, 101) }), Action::KeepWatching);
    assert_eq!(step(Event::Status { seen: seen(1, 7 + t, 102) }), Action::KeepWatching);
    assert_eq!(step(Event::WatchOver), Action::ReadLastReport);
    assert_eq!(step(Event::LastReport { rep: rep(103) }), Action::StopHog);
    step(Event::HogStopped { now: t + 20 })
}

fn run_at(t: u64) -> MemHogRun {
    MemHogRun {
        stable_at: t,
        hog_started_at: t + 15,
        hog_ended_at: t + 20,
        first_hog_rep: rep(101),
        last_hog_rep: rep(103),
        last_hog_mem: 7 + t as usize,
    }
}

#[test]
fn scenario_seen_through() {
    let mut hog = mem_hog(2);
    hog.runs.push(run_at(1));
    let mut session = HogSession::new(false);
    assert_eq!(hog.advance(&mut session, Event::Started { now: 50 }).unwrap(), Action::WarmUp);
    assert_eq!(round(&mut hog, &mut session, 100), Action::WarmUp);
    assert_eq!(round(&mut hog, &mut session, 200), Action::NoteEnd);
    assert_eq!(hog.advance(&mut session, Event::Ended { now: 221 }).unwrap(), Action::Done);
    assert_eq!(session.phase, Phase::Done);
    assert_eq!(hog.main_period, (50, 221));
    assert_eq!(hog.runs, [run_at(1), run_at(100), run_at(200)]);
    assert_eq!(hog.load, 0.8);
}

#[test]
fn scenario_without_loops() {
    let mut hog = mem_hog(0);
    let mut session = HogSession::new(false);
    assert_eq!(hog.advance(&mut session, Event::Started { now: 5 }).unwrap(), Action::NoteEnd);
    assert_eq!(hog.advance(&mut session, Event::Ended { now: 6 }).unwrap(), Action::Done);
    assert_eq!(hog.main_period, (5, 6));
    assert!(hog.runs.is_empty());
}

#[test]
fn scenario_whose_hog_never_swaps() {
    let mut hog = mem_hog(2);
    let mut session = HogSession::new(false);
    hog.advance(&mut session, Event::Started { now: 50 }).unwrap();
    round(&mut hog, &mut session, 100);
    hog.advance(&mut session, Event::WarmedUp { now: 200 }).unwrap();
    hog.advance(&mut session, Event::Held { now: 215 }).unwrap();
    hog.advance(&mut session, Event::HogStarted).unwrap();
    hog.advance(&mut session, Event::Status { seen: seen(0, 5, 100) }).unwrap();
    assert!(matches!(hog.advance(&mut session, Event::WatchOver), Err(Error::SwapStayedZero)));
    assert_eq!(session.phase, Phase::Failed);
    assert_eq!(hog.runs, [run_at(100)]);
}

#[test]
fn test_runs_are_short() {
    let mut hog = mem_hog(1);
    let mut session = HogSession::new(true);
    hog.advance(&mut session, Event::Started { now: 1 }).unwrap();
    hog.advance(&mut session, Event::WarmedUp { now: 2 }).unwrap();
    hog.advance(&mut session, Event::Held { now: 3 }).unwrap();
    assert_eq!(hog.advance(&mut session, Event::HogStarted).unwrap(), Action::Watch { secs: 10 });
    hog.advance(&mut session, Event::Status { seen: seen(0, 5, 100) }).unwrap();
    assert_eq!(hog.advance(&mut session, Event::WatchOver).unwrap(), Action::ReadLastReport);
}
