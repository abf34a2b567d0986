//! The memory-hog scenario: its parameters, its runs and its results.

use vstd::prelude::*;

use crate::lists;
use crate::monitor::BanditMemHogReport;
use crate::speed::MemHogSpeed;
use crate::strmap::StrMap;

verus! {

/// One run of a memory hog. Times are in seconds since the epoch.
#[derive(Clone, Copy, Debug, PartialEq, Eq, Structural)]
pub struct MemHogRun {
    /// When the workload had reached its load.
    pub stable_at: u64,
    pub hog_started_at: u64,
    pub hog_ended_at: u64,
    /// From when the hog was first seen to swap.
    pub first_hog_rep: BanditMemHogReport,
    pub last_hog_rep: BanditMemHogReport,
    /// How much physical memory the hog had at the end, in bytes.
    pub last_hog_mem: usize,
}

/// A memory-hog scenario and what it has recorded.
#[derive(Debug)]
pub struct MemHog<F> {
    /// How often the hog is run.
    pub loops: u32,
    /// The load of the workload, as a ratio.
    pub load: F,
    pub speed: MemHogSpeed,
    /// When the first run began and the last one ended.
    pub main_period: (u64, u64),
    pub runs: Vec<MemHogRun>,
}

/// The results of a memory-hog scenario.
#[derive(Debug)]
pub struct MemHogResult<F> {
    pub base_rps: F,
    pub base_rps_stdev: F,
    pub base_lat: F,
    pub base_lat_stdev: F,
    /// By percentile.
    pub work_isol_pcts: StrMap<F>,
    pub work_isol: F,
    pub work_isol_stdev: F,
    /// By percentile.
    pub lat_impact_pcts: StrMap<F>,
    pub lat_impact: F,
    pub lat_impact_stdev: F,
    pub work_csv: F,
    /// The distributions of read and write latencies.
    pub iolat_pcts: [StrMap<StrMap<F>>; 2],
    pub main_period: (u64, u64),
    /// For each run, from its first report of the hog to its last one.
    pub hog_periods: Vec<(u64, u64)>,
    pub vrate: F,
    pub vrate_stdev: F,
    pub io_usage: F,
    pub io_unused: F,
    pub hog_io_usage: F,
    pub hog_io_loss: F,
    /// How many bytes the hogs put out to swap.
    pub hog_bytes: u64,
    /// How many bytes the hogs were kept from writing.
    pub hog_lost_bytes: u64,
    pub runs: Vec<MemHogRun>,
}

impl<F: Clone> Clone for MemHog<F> {
    /// The same scenario, with the same runs.
    fn clone(&self) -> (r: Self)
        ensures
            r.loops == self.loops,
            cloned(self.load, r.load),
            r.speed == self.speed,
            r.main_period == self.main_period,
            r.runs@ == self.runs@,
    {
        let runs = self.runs.clone();
        assert(runs@ =~= self.runs@);
        MemHog { loops: self.loops, load: self.load.clone(), speed: self.speed, main_period: self.main_period, runs }
    }
}

/// A result has clones of the quantities of another one, and what is made of
/// whole numbers as it is there.
pub open spec fn is_clone<F: Clone>(a: MemHogResult<F>, b: MemHogResult<F>) -> bool {
    &&& cloned(a.base_rps, b.base_rps)
    &&& cloned(a.base_rps_stdev, b.base_rps_stdev)
    &&& cloned(a.base_lat, b.base_lat)
    &&& cloned(a.base_lat_stdev, b.base_lat_stdev)
    &&& cloned(a.work_isol_pcts, b.work_isol_pcts)
    &&& cloned(a.work_isol, b.work_isol)
    &&& cloned(a.work_isol_stdev, b.work_isol_stdev)
    &&& cloned(a.lat_impact_pcts, b.lat_impact_pcts)
    &&& cloned(a.lat_impact, b.lat_impact)
    &&& cloned(a.lat_impact_stdev, b.lat_impact_stdev)
    &&& cloned(a.work_csv, b.work_csv)
    &&& cloned(a.iolat_pcts[0], b.iolat_pcts[0])
    &&& cloned(a.iolat_pcts[1], b.iolat_pcts[1])
    &&& b.main_period == a.main_period
    &&& b.hog_periods@ == a.hog_periods@
    &&& cloned(a.vrate, b.vrate)
    &&& cloned(a.vrate_stdev, b.vrate_stdev)
    &&& cloned(a.io_usage, b.io_usage)
    &&& cloned(a.io_unused, b.io_unused)
    &&& cloned(a.hog_io_usage, b.hog_io_usage)
    &&& cloned(a.hog_io_loss, b.hog_io_loss)
    &&& b.hog_bytes == a.hog_bytes
    &&& b.hog_lost_bytes == a.hog_lost_bytes
    &&& b.runs@ == a.runs@
}

impl<F: Clone> Clone for MemHogResult<F> {
    /// The same result.
    fn clone(&self) -> (r: Self)
        ensures
            is_clone(*self, r),
    {
        let runs = self.runs.clone();
        assert(runs@ =~= self.runs@);
        MemHogResult {
            base_rps: self.base_rps.clone(),
            base_rps_stdev: self.base_rps_stdev.clone(),
            base_lat: self.base_lat.clone(),
            base_lat_stdev: self.base_lat_stdev.clone(),
            work_isol_pcts: self.work_isol_pcts.clone(),
            work_isol: self.work_isol.clone(),
            work_isol_stdev: self.work_isol_stdev.clone(),
            lat_impact_pcts: self.lat_impact_pcts.clone(),
            lat_impact: self.lat_impact.clone(),
            lat_impact_stdev: self.lat_impact_stdev.clone(),
            work_csv: self.work_csv.clone(),
            iolat_pcts: [self.iolat_pcts[0].clone(), self.iolat_pcts[1].clone()],
            main_period: self.main_period,
            hog_periods: lists::copied(&self.hog_periods),
            vrate: self.vrate.clone(),
            vrate_stdev: self.vrate_stdev.clone(),
            io_usage: self.io_usage.clone(),
            io_unused: self.io_unused.clone(),
            hog_io_usage: self.hog_io_usage.clone(),
            hog_io_loss: self.hog_io_loss.clone(),
            hog_bytes: self.hog_bytes,
            hog_lost_bytes: self.hog_lost_bytes,
            runs,
        }
    }
}

/// A result holds nothing: its quantities are defaults, its tables and lists
/// are empty, and its whole numbers are zero.
pub open spec fn is_blank<F: Default>(r: MemHogResult<F>) -> bool {
    &&& call_ensures(F::default, (), r.base_rps)
    &&& call_ensures(F::default, (), r.base_rps_stdev)
    &&& call_ensures(F::default, (), r.base_lat)
    &&& call_ensures(F::default, (), r.base_lat_stdev)
    &&& r.work_isol_pcts@ == Map::<Seq<char>, F>::empty()
    &&& call_ensures(F::default, (), r.work_isol)
    &&& call_ensures(F::default, (), r.work_isol_stdev)
    &&& r.lat_impact_pcts@ == Map::<Seq<char>, F>::empty()
    &&& call_ensures(F::default, (), r.lat_impact)
    &&& call_ensures(F::default, (), r.lat_impact_stdev)
    &&& call_ensures(F::default, (), r.work_csv)
    &&& r.iolat_pcts[0]@ == Map::<Seq<char>, StrMap<F>>::empty()
    &&& r.iolat_pcts[1]@ == Map::<Seq<char>, StrMap<F>>::empty()
    &&& r.main_period == (0u64, 0u64)
    &&& r.hog_periods@.len() == 0
    &&& call_ensures(F::default, (), r.vrate)
    &&& call_ensures(F::default, (), r.vrate_stdev)
    &&& call_ensures(F::default, (), r.io_usage)
    &&& call_ensures(F::default, (), r.io_unused)
    &&& call_ensures(F::default, (), r.hog_io_usage)
    &&& call_ensures(F::default, (), r.hog_io_loss)
    &&& r.hog_bytes == 0
    &&& r.hog_lost_bytes == 0
    &&& r.runs@.len() == 0
}

impl<F: Default> Default for MemHogResult<F> {
    /// A result that holds nothing.
    fn default() -> (r: Self)
        ensures
            is_blank(r),
    {
        MemHogResult {
            base_rps: F::default(),
            base_rps_stdev: F::default(),
            base_lat: F::default(),
            base_lat_stdev: F::default(),
            work_isol_pcts: StrMap::new(),
            work_isol: F::default(),
            work_isol_stdev: F::default(),
            lat_impact_pcts: StrMap::new(),
            lat_impact: F::default(),
            lat_impact_stdev: F::default(),
            work_csv: F::default(),
            iolat_pcts: [StrMap::new(), StrMap::new()],
            main_period: (0, 0),
            hog_periods: Vec::new(),
            vrate: F::default(),
            vrate_stdev: F::default(),
            io_usage: F::default(),
            io_unused: F::default(),
            hog_io_usage: F::default(),
            hog_io_loss: F::default(),
            hog_bytes: 0,
            hog_lost_bytes: 0,
            runs: Vec::new(),
        }
    }
}

/// Cloning a quantity gives the quantity.
pub open spec fn clones_exactly<F: Clone>() -> bool {
    forall|x: F, y: F| #[trigger] cloned(x, y) ==> x == y
}

/// A table of clones is the table, if cloning a quantity gives the quantity.
proof fn lemma_table_clone<F: Clone>(a: StrMap<F>, b: StrMap<F>)
    requires
        cloned(a, b),
        clones_exactly::<F>(),
    ensures
        b@ == a@,
{
    assert forall|k: Seq<char>| #[trigger] a@.contains_key(k) implies a@[k] == b@[k] by {
        assert(cloned(a@[k], b@[k]));
    }
    assert(b@ =~= a@);
}

/// Results have the same in each field.
pub open spec fn same_result<F>(a: MemHogResult<F>, b: MemHogResult<F>) -> bool {
    &&& b.base_rps == a.base_rps
    &&& b.base_rps_stdev == a.base_rps_stdev
    &&& b.base_lat == a.base_lat
    &&& b.base_lat_stdev == a.base_lat_stdev
    &&& b.work_isol == a.work_isol
    &&& b.work_isol_stdev == a.work_isol_stdev
    &&& b.lat_impact == a.lat_impact
    &&& b.lat_impact_stdev == a.lat_impact_stdev
    &&& b.work_csv == a.work_csv
    &&& b.vrate == a.vrate
    &&& b.vrate_stdev == a.vrate_stdev
    &&& b.io_usage == a.io_usage
    &&& b.io_unused == a.io_unused
    &&& b.hog_io_usage == a.hog_io_usage
    &&& b.hog_io_loss == a.hog_io_loss
    &&& b.main_period == a.main_period
    &&& b.hog_bytes == a.hog_bytes
    &&& b.hog_lost_bytes == a.hog_lost_bytes
    &&& b.work_isol_pcts@ == a.work_isol_pcts@
    &&& b.lat_impact_pcts@ == a.lat_impact_pcts@
    &&& b.iolat_pcts[0]@.dom() == a.iolat_pcts[0]@.dom()
    &&& b.iolat_pcts[1]@.dom() == a.iolat_pcts[1]@.dom()
    &&& forall|k: Seq<char>| #[trigger]
        a.iolat_pcts[0]@.contains_key(k) ==> b.iolat_pcts[0]@[k]@ == a.iolat_pcts[0]@[k]@
    &&& forall|k: Seq<char>| #[trigger]
        a.iolat_pcts[1]@.contains_key(k) ==> b.iolat_pcts[1]@[k]@ == a.iolat_pcts[1]@[k]@
    &&& b.hog_periods@ == a.hog_periods@
    &&& b.runs@ == a.runs@
}

/// A clone of a result has the same in each field, if cloning a quantity gives
/// the quantity.
pub proof fn lemma_result_clone<F: Clone>(a: MemHogResult<F>, b: MemHogResult<F>)
    requires
        cloned(a, b),
        clones_exactly::<F>(),
    ensures
        same_result(a, b),
{
    lemma_table_clone(a.work_isol_pcts, b.work_isol_pcts);
    lemma_table_clone(a.lat_impact_pcts, b.lat_impact_pcts);
    assert forall|k: Seq<char>| #[trigger] a.iolat_pcts[0]@.contains_key(k) implies b.iolat_pcts[0]@[k]@
        == a.iolat_pcts[0]@[k]@ by {
        lemma_table_clone(a.iolat_pcts[0]@[k], b.iolat_pcts[0]@[k]);
    }
    assert forall|k: Seq<char>| #[trigger] a.iolat_pcts[1]@.contains_key(k) implies b.iolat_pcts[1]@[k]@
        == a.iolat_pcts[1]@[k]@ by {
        lemma_table_clone(a.iolat_pcts[1]@[k], b.iolat_pcts[1]@[k]);
    }
}

} // verus!
