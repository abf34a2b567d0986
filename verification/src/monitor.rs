//! Watching a memory hog.

use std::collections::VecDeque;

use vstd::prelude::*;
use vstd::string::*;

use crate::error::Error;
use crate::exact;
use crate::report::Report;

verus! {

broadcast use vstd::string::group_string_axioms;

/// How many of the latest memory sizes are averaged.
pub const MEM_AVG_PERIOD: usize = 5;

/// A report of the memory hog itself.
#[derive(Clone, Copy, Debug, PartialEq, Eq, Structural)]
pub struct BanditMemHogReport {
    /// When it was written, in seconds since the epoch.
    pub timestamp: i64,
    /// How many bytes the hog has written.
    pub wbytes: u64,
    /// How many bytes it would have liked to write and could not.
    pub wloss: u64,
}

/// What is seen of a running memory hog at one time.
#[derive(Clone, Copy, Debug, PartialEq, Eq, Structural)]
pub struct Sighting {
    pub swap_bytes: u64,
    pub mem_bytes: u64,
    pub rep: BanditMemHogReport,
}

/// What has been seen of a memory hog: its report from when it was first seen
/// to swap, and its latest memory sizes since, the newest first.
#[derive(Debug)]
pub struct HogMonitor {
    pub first_hog_rep: Option<BanditMemHogReport>,
    pub mem_rec: VecDeque<usize>,
}

/// The state of a [`HogMonitor`].
pub struct MonitorView {
    pub first: Option<BanditMemHogReport>,
    pub mems: Seq<usize>,
}

impl View for HogMonitor {
    type V = MonitorView;

    open spec fn view(&self) -> MonitorView {
        MonitorView { first: self.first_hog_rep, mems: self.mem_rec@ }
    }
}

/// A memory size as it is recorded.
pub open spec fn recorded(mem_bytes: u64) -> usize {
    mem_bytes as usize
}

/// The newest sizes of a list that has the newest first, as many as are
/// averaged.
pub open spec fn latest(mems: Seq<usize>) -> Seq<usize> {
    if mems.len() <= MEM_AVG_PERIOD {
        mems
    } else {
        mems.take(MEM_AVG_PERIOD as int)
    }
}

/// The sum of memory sizes.
pub open spec fn total(mems: Seq<usize>) -> nat
    decreases mems.len(),
{
    if mems.len() == 0 {
        0
    } else {
        total(mems.drop_last()) + mems.last() as nat
    }
}

impl MonitorView {
    /// Nothing seen.
    pub open spec fn empty() -> Self {
        MonitorView { first: None, mems: Seq::empty() }
    }

    /// No sizes are kept from before the first report, and never more than are
    /// averaged.
    pub open spec fn wf(self) -> bool {
        &&& self.mems.len() <= MEM_AVG_PERIOD
        &&& self.first is None ==> self.mems.len() == 0
    }

    /// The state after looking once more. The first report is taken once the
    /// hog swaps; in a test run, at once. Sizes are recorded from then on.
    pub open spec fn after(self, seen: Option<Sighting>, test: bool) -> Self {
        match (seen, self.first) {
            (None, _) => self,
            (Some(s), None) => if s.swap_bytes > 0 || test {
                MonitorView { first: Some(s.rep), ..self }
            } else {
                self
            },
            (Some(s), Some(_)) => MonitorView { mems: latest(seq![recorded(s.mem_bytes)] + self.mems), ..self },
        }
    }

    /// The average of the recorded sizes can be told: there is one, and their
    /// sum fits.
    pub open spec fn averages(self) -> bool {
        self.mems.len() > 0 && total(self.mems) <= usize::MAX
    }

    /// The average of the recorded sizes, rounded down.
    pub open spec fn average(self) -> int {
        total(self.mems) as int / self.mems.len() as int
    }
}

/// The path of the memory hog's own report.
pub fn hog_report_path<F>(rep: &Report<F>) -> (r: Result<String, Error>)
    ensures
        match r {
            Ok(path) => rep.sysloads@.contains_key("mem-hog"@) && path@ == rep.sysloads@["mem-hog"@].scr_path@
                + "/report.json"@,
            Err(e) => !rep.sysloads@.contains_key("mem-hog"@) && e == Error::NoMemHogSysload,
        },
{
    match rep.sysloads.get("mem-hog") {
        Some(sl) => {
            let mut path = sl.scr_path.clone();
            path.append("/report.json");
            Ok(path)
        },
        None => Err(Error::NoMemHogSysload),
    }
}

/// What a report of the agent and one of the hog let see of the hog, whose
/// service has the given name.
pub open spec fn sighting_of<F>(rep: Report<F>, svc: Seq<char>, hog_rep: Option<BanditMemHogReport>) -> Option<
    Sighting,
> {
    match hog_rep {
        Some(r) if rep.usages@.contains_key(svc) => Some(
            Sighting { swap_bytes: rep.usages@[svc].swap_bytes, mem_bytes: rep.usages@[svc].mem_bytes, rep: r },
        ),
        _ => None,
    }
}

/// Tells what a report of the agent and one of the hog let see of the hog,
/// whose service has the given name. Without both there is nothing to see.
pub fn sighting<F>(rep: &Report<F>, svc: &str, hog_rep: Option<BanditMemHogReport>) -> (r: Option<Sighting>)
    ensures
        r == sighting_of(*rep, svc@, hog_rep),
{
    match (rep.usages.get(svc), hog_rep) {
        (Some(usage), Some(mh_rep)) => Some(
            Sighting { swap_bytes: usage.swap_bytes, mem_bytes: usage.mem_bytes, rep: mh_rep },
        ),
        _ => None,
    }
}

impl HogMonitor {
    /// A monitor that has seen nothing.
    pub fn new() -> (r: Self)
        ensures
            r@ == MonitorView::empty(),
    {
        HogMonitor { first_hog_rep: None, mem_rec: VecDeque::new() }
    }

    /// Takes in what is seen of the hog, if anything is.
    pub fn observe(&mut self, seen: Option<Sighting>, test: bool)
        ensures
            final(self)@ == old(self)@.after(seen, test),
            old(self)@.wf() ==> final(self)@.wf(),
    {
        if let Some(s) = seen {
            if self.first_hog_rep.is_none() {
                if s.swap_bytes > 0 || test {
                    self.first_hog_rep = Some(s.rep);
                }
            } else {
                let mem = s.mem_bytes as usize;
                self.mem_rec.push_front(mem);
                assert(self.mem_rec@ =~= seq![recorded(s.mem_bytes)] + old(self).mem_rec@);
                self.mem_rec.truncate(MEM_AVG_PERIOD);
                assert(self.mem_rec@ =~= latest(seq![recorded(s.mem_bytes)] + old(self).mem_rec@));
            }
        }
    }

    /// Whether the average of the recorded sizes can be told.
    pub fn has_average(&self) -> (r: bool)
        ensures
            r == self@.averages(),
    {
        if self.mem_rec.len() == 0 {
            return false;
        }
        let mut sum: usize = 0;
        let mut i: usize = 0;
        while i < self.mem_rec.len()
            invariant
                i <= self.mem_rec@.len(),
                sum == total(self.mem_rec@.take(i as int)),
            decreases self.mem_rec@.len() - i,
        {
            proof {
                assert(self.mem_rec@.take(i + 1).drop_last() =~= self.mem_rec@.take(i as int));
                lemma_total_grows(self.mem_rec@, i + 1);
            }
            match sum.checked_add(self.mem_rec[i]) {
                Some(s) => {
                    sum = s;
                },
                None => {
                    return false;
                },
            }
            i += 1;
        }
        assert(self.mem_rec@.take(i as int) =~= self.mem_rec@);
        true
    }

    /// The average of the recorded sizes, rounded down.
    pub fn last_hog_mem(&self) -> (r: usize)
        requires
            self@.averages(),
        ensures
            r == self@.average(),
    {
        let mut sum: usize = 0;
        let mut i: usize = 0;
        while i < self.mem_rec.len()
            invariant
                i <= self.mem_rec@.len(),
                sum == total(self.mem_rec@.take(i as int)),
                self@.averages(),
            decreases self.mem_rec@.len() - i,
        {
            proof {
                assert(self.mem_rec@.take(i + 1).drop_last() =~= self.mem_rec@.take(i as int));
                lemma_total_grows(self.mem_rec@, i + 1);
            }
            sum += self.mem_rec[i];
            i += 1;
        }
        assert(self.mem_rec@.take(i as int) =~= self.mem_rec@);
        sum / self.mem_rec.len()
    }
}

/// The first sizes of a list sum up to no more than all of them.
proof fn lemma_total_grows(mems: Seq<usize>, n: int)
    requires
        0 <= n <= mems.len(),
    ensures
        total(mems.take(n)) <= total(mems),
    decreases mems.len(),
{
    if n == mems.len() {
        assert(mems.take(n) =~= mems);
    } else {
        lemma_total_grows(mems.drop_last(), n);
        assert(mems.drop_last().take(n) =~= mems.take(n));
    }
}

/// The state of a monitor that has looked at the hog time and again.
pub open spec fn watched(history: Seq<Option<Sighting>>, test: bool) -> MonitorView
    decreases history.len(),
{
    if history.len() == 0 {
        MonitorView::empty()
    } else {
        watched(history.drop_last(), test).after(history.last(), test)
    }
}

/// What is seen has the first report taken.
pub open spec fn arms(seen: Option<Sighting>, test: bool) -> bool {
    seen matches Some(s) && (s.swap_bytes > 0 || test)
}

/// The memory sizes seen, the newest first.
pub open spec fn sizes(history: Seq<Option<Sighting>>) -> Seq<usize>
    decreases history.len(),
{
    if history.len() == 0 {
        Seq::empty()
    } else {
        match history.last() {
            Some(s) => seq![recorded(s.mem_bytes)] + sizes(history.drop_last()),
            None => sizes(history.drop_last()),
        }
    }
}

/// A hog that never swaps leaves no report, and nothing is recorded.
pub proof fn lemma_watched_without_swap(history: Seq<Option<Sighting>>, test: bool)
    requires
        forall|i: int| 0 <= i < history.len() ==> !arms(#[trigger] history[i], test),
    ensures
        watched(history, test) == MonitorView::empty(),
    decreases history.len(),
{
    if history.len() > 0 {
        let h = history.drop_last();
        assert forall|i: int| 0 <= i < h.len() implies !arms(#[trigger] h[i], test) by {
            assert(h[i] == history[i]);
        }
        lemma_watched_without_swap(h, test);
        assert(!arms(history[history.len() - 1], test));
    }
}

/// The first report is the one from when the hog was first seen to swap and
/// stays so, and what is recorded are the latest memory sizes since then, never
/// more of them than are averaged, the newest first.
pub proof fn lemma_watched(history: Seq<Option<Sighting>>, test: bool, n: int)
    requires
        0 <= n < history.len(),
        arms(history[n], test),
        forall|i: int| 0 <= i < n ==> !arms(#[trigger] history[i], test),
    ensures
        watched(history, test) == (MonitorView {
            first: Some(history[n]->0.rep),
            mems: latest(sizes(history.skip(n + 1))),
        }),
        watched(history, test).wf(),
    decreases history.len(),
{
    let h = history.drop_last();
    if n == history.len() - 1 {
        assert forall|i: int| 0 <= i < h.len() implies !arms(#[trigger] h[i], test) by {
            assert(h[i] == history[i]);
        }
        lemma_watched_without_swap(h, test);
        assert(history.skip(n + 1) =~= Seq::<Option<Sighting>>::empty());
    } else {
        assert forall|i: int| 0 <= i < n implies !arms(#[trigger] h[i], test) by {
            assert(h[i] == history[i]);
        }
        assert(h[n] == history[n]);
        lemma_watched(h, test, n);
        assert(history.skip(n + 1).drop_last() =~= h.skip(n + 1));
        assert(history.skip(n + 1).last() == history.last());
        let older = sizes(h.skip(n + 1));
        if let Some(s) = history.last() {
            let x = recorded(s.mem_bytes);
            assert(latest(seq![x] + latest(older)) =~= latest(seq![x] + older));
        }
    }
}

/// Looking and seeing nothing changes nothing.
pub proof fn lemma_nothing_seen(history: Seq<Option<Sighting>>, test: bool)
    ensures
        watched(history.push(None), test) == watched(history, test),
{
    assert(history.push(None).drop_last() =~= history);
}

/// What one more sighting does. Until the hog is seen to swap, nothing is taken
/// down; in a test run, that is not waited for. The report of that sighting is
/// the first report. From the next sighting on, each memory size is put before
/// the ones that were recorded, of which the newest four are kept.
pub proof fn lemma_one_more_sighting(history: Seq<Option<Sighting>>, s: Sighting, test: bool)
    ensures
        ({
            let m = watched(history, test);
            let n = watched(history.push(Some(s)), test);
            &&& m.first is None && s.swap_bytes == 0 && !test ==> n == m
            &&& m.first is None && (s.swap_bytes > 0 || test) ==> n.first == Some(s.rep) && n.mems == m.mems
            &&& m.first is Some ==> {
                &&& n.first == m.first
                &&& n.mems.len() == (if m.mems.len() < 5 { m.mems.len() + 1 } else { 5 })
                &&& s.mem_bytes <= usize::MAX ==> n.mems[0] == s.mem_bytes
                &&& forall|i: int| 0 < i < n.mems.len() ==> #[trigger] n.mems[i] == m.mems[i - 1]
            }
        }),
{
    assert(history.push(Some(s)).drop_last() =~= history);
}

/// The average can be told if, and only if, there is a size and the sum of the
/// sizes fits.
pub proof fn lemma_averages(m: MonitorView)
    ensures
        m.averages() <==> m.mems.len() > 0 && exact::total(m.mems, |x: usize| x as real) <= (usize::MAX as real),
{
    lemma_total_is_sum(m.mems);
}

/// The average is the sum of the recorded sizes divided by their number, rounded
/// down.
pub proof fn lemma_average(m: MonitorView)
    requires
        m.averages(),
    ensures
        (m.average() as real) * (m.mems.len() as real) <= exact::total(m.mems, |x: usize| x as real),
        exact::total(m.mems, |x: usize| x as real) < (m.average() as real + 1 as real) * (m.mems.len() as real),
{
    lemma_total_is_sum(m.mems);
    let t = total(m.mems) as int;
    let n = m.mems.len() as int;
    let a = t / n;
    assert(a * n <= t < (a + 1) * n) by (nonlinear_arith)
        requires
            n > 0,
            a == t / n,
    ;
    assert((a as real) * (n as real) == (a * n) as real) by (nonlinear_arith);
    assert((a as real + 1 as real) * (n as real) == ((a + 1) * n) as real) by (nonlinear_arith);
}

/// The sum of sizes, as real numbers.
proof fn lemma_total_is_sum(mems: Seq<usize>)
    ensures
        total(mems) as real == exact::total(mems, |x: usize| x as real),
    decreases mems.len(),
{
    if mems.len() > 0 {
        lemma_total_is_sum(mems.drop_last());
    }
}

/// There is something to see of a hog if, and only if, there is a report of the
/// hog and the agent's report has a usage for its service. What is seen is what
/// these two say.
pub proof fn lemma_sighting<F>(rep: Report<F>, svc: Seq<char>, hog_rep: Option<BanditMemHogReport>)
    ensures
        sighting_of(rep, svc, hog_rep) is Some <==> hog_rep is Some && rep.usages@.contains_key(svc),
        sighting_of(rep, svc, hog_rep) matches Some(s) ==> {
            &&& hog_rep == Some(s.rep)
            &&& s.mem_bytes == rep.usages@[svc].mem_bytes
            &&& s.swap_bytes == rep.usages@[svc].swap_bytes
        },
{
}

/// A sum of sizes lies between as many times the least and as many times the
/// greatest of them.
proof fn lemma_total_bounds(mems: Seq<usize>, lo: int, hi: int)
    requires
        forall|i: int| 0 <= i < mems.len() ==> lo <= #[trigger] mems[i] <= hi,
    ensures
        lo * mems.len() <= total(mems) <= hi * mems.len(),
    decreases mems.len(),
{
    if mems.len() > 0 {
        let m = mems.drop_last();
        assert forall|i: int| 0 <= i < m.len() implies lo <= #[trigger] m[i] <= hi by {
            assert(m[i] == mems[i]);
        }
        lemma_total_bounds(m, lo, hi);
        let n = m.len() as int;
        assert(lo * (n + 1) == lo * n + lo && hi * (n + 1) == hi * n + hi) by (nonlinear_arith);
        assert(lo <= mems[mems.len() - 1] <= hi);
    }
}

/// The average lies between the least and the greatest of the recorded sizes.
pub proof fn lemma_average_bounds(m: MonitorView, lo: int, hi: int)
    requires
        m.averages(),
        forall|i: int| 0 <= i < m.mems.len() ==> lo <= #[trigger] m.mems[i] <= hi,
    ensures
        lo <= m.average() <= hi,
{
    lemma_total_bounds(m.mems, lo, hi);
    let n = m.mems.len() as int;
    let t = total(m.mems) as int;
    assert(lo <= t / n <= hi) by (nonlinear_arith)
        requires
            n > 0,
            lo * n <= t <= hi * n,
    ;
}

} // verus!
