//! The agent's reports, and the status line of a running workload.

use vstd::prelude::*;
use vstd::string::*;

use crate::arith::{self, apply, Op};
use crate::error::Error;
use crate::page::{self, Page, Part, Piece, PieceView};
use crate::strmap::StrMap;

verus! {

broadcast use vstd::string::group_string_axioms;

/// What a slice or a service uses.
#[derive(Debug)]
pub struct Usage<F> {
    pub mem_bytes: u64,
    pub swap_bytes: u64,
    pub swap_free: u64,
    /// Some and full memory pressure.
    pub mem_pressures: (F, F),
    /// The share of the device's IO capacity, at the current vrate.
    pub io_util: F,
}

/// A synthetic load that the agent runs.
#[derive(Debug)]
pub struct Sysload {
    /// The directory that it writes its reports to.
    pub scr_path: String,
}

/// A report of the agent.
#[derive(Debug)]
pub struct Report<F> {
    /// By slice or service.
    pub usages: StrMap<Usage<F>>,
    /// By name.
    pub sysloads: StrMap<Sysload>,
    /// The throughput of the workload, in requests per second.
    pub hashd_rps: F,
    /// The control latency of the workload.
    pub hashd_lat: F,
    /// How much of the modelled IO capacity is given out, in percent.
    pub vrate: F,
}

/// What a monitor knows of the workload.
#[derive(Debug)]
pub struct WorkloadMon<F> {
    /// The load of the workload, as a ratio.
    pub hashd_load: F,
}

/// The names of the slices that a status line shows.
#[derive(Debug)]
pub struct SliceNames {
    /// The whole machine.
    pub root: String,
    /// The workload.
    pub work: String,
    /// The system services.
    pub sys: String,
}

impl<F> Usage<F> {
    /// How much swap there is.
    pub open spec fn swap_total(self) -> int {
        self.swap_bytes + self.swap_free
    }

    /// `x` is the share of the swap that is used, and zero on a machine without
    /// swap.
    pub open spec fn is_swap_usage<A: Fn(Op<F>) -> F>(self, arith: A, x: F) -> bool {
        if self.swap_total() == 0 {
            arith::gives(arith, Op::Int(0), x)
        } else {
            exists|used: F, total: F|
                {
                    &&& #[trigger] arith::gives(arith, Op::Int(self.swap_bytes), used)
                    &&& #[trigger] arith::gives(arith, Op::Int(self.swap_total() as u64), total)
                    &&& arith::gives(arith, Op::Div(used, total), x)
                }
        }
    }
}

impl<F: Copy> Usage<F> {
    /// The share of the swap that is used, and zero on a machine without swap.
    pub fn swap_usage<A: Fn(Op<F>) -> F>(&self, arith: &A) -> (x: F)
        requires
            self.swap_total() <= u64::MAX,
            arith::does_all(*arith),
        ensures
            self.is_swap_usage(*arith, x),
    {
        let swap_total: u64 = self.swap_bytes + self.swap_free;
        if swap_total == 0 {
            apply(arith, Op::Int(0))
        } else {
            let used = apply(arith, Op::Int(self.swap_bytes));
            let total = apply(arith, Op::Int(swap_total));
            apply(arith, Op::Div(used, total))
        }
    }
}

impl<F> Report<F> {
    /// The report has a usage for each of the slices, and how much swap there
    /// is on the whole machine fits in 64 bits.
    pub open spec fn covers(self, slices: SliceNames) -> bool {
        &&& self.usages@.contains_key(slices.root@)
        &&& self.usages@.contains_key(slices.work@)
        &&& self.usages@.contains_key(slices.sys@)
        &&& self.usages@[slices.root@].swap_total() <= u64::MAX
    }

    /// Whether the report has a usage for each of the slices, and how much swap
    /// there is on the whole machine fits in 64 bits.
    pub fn has_slices(&self, slices: &SliceNames) -> (r: bool)
        ensures
            r == self.covers(*slices),
    {
        match (
            self.usages.get(slices.root.as_str()),
            self.usages.get(slices.work.as_str()),
            self.usages.get(slices.sys.as_str()),
        ) {
            (Some(root), Some(_), Some(_)) => root.swap_free <= u64::MAX - root.swap_bytes,
            _ => false,
        }
    }
}

/// The parts of a status line, where `swap` is the share of the swap that is
/// used.
pub open spec fn ws_status_parts<F>(mon: WorkloadMon<F>, rep: Report<F>, slices: SliceNames, swap: F) -> Seq<
    Part<F>,
> {
    let work = rep.usages@[slices.work@];
    let sys = rep.usages@[slices.sys@];
    seq![
        Part::Text("load:"@),
        Part::Cell(PieceView::Pct(mon.hashd_load), 4),
        Part::Text("% lat:"@),
        Part::Cell(PieceView::Duration(rep.hashd_lat), 5),
        Part::Text(" swap:"@),
        Part::Cell(PieceView::PctDashed(swap), 4),
        Part::Text("%"@),
        Part::Text(" w/s mem:"@),
        Part::Cell(PieceView::Size(work.mem_bytes), 5),
        Part::Text("/"@),
        Part::Cell(PieceView::Size(sys.mem_bytes), 5),
        Part::Text(" swap:"@),
        Part::Cell(PieceView::Size(work.swap_bytes), 5),
        Part::Text("/"@),
        Part::Cell(PieceView::Size(sys.swap_bytes), 5),
        Part::Text(" memp:"@),
        Part::Cell(PieceView::Pct(work.mem_pressures.1), 4),
        Part::Text("%/"@),
        Part::Cell(PieceView::Pct(sys.mem_pressures.1), 4),
        Part::Text("%"@),
    ]
}

/// A status line shows what a report and a monitor say.
pub open spec fn is_status<'a, F: 'a, A: Fn(Op<F>) -> F, R: Fn(Piece<'a, F>) -> String>(
    mon: WorkloadMon<F>,
    rep: Report<F>,
    slices: SliceNames,
    arith: A,
    render: R,
    line: Seq<char>,
) -> bool {
    exists|swap: F| #[trigger]
        rep.usages@[slices.root@].is_swap_usage(arith, swap) && page::reads(
            render,
            ws_status_parts(mon, rep, slices, swap),
            line,
        )
}

/// What a status line shows is the same of two reports: the load, the latency,
/// the machine's swap, and the memory, the swap and the full memory pressure
/// of the workload and of the system.
pub open spec fn shows_same<F>(
    mon: WorkloadMon<F>,
    rep: Report<F>,
    slices: SliceNames,
    mon2: WorkloadMon<F>,
    rep2: Report<F>,
    slices2: SliceNames,
) -> bool {
    let (root, root2) = (rep.usages@[slices.root@], rep2.usages@[slices2.root@]);
    let (work, work2) = (rep.usages@[slices.work@], rep2.usages@[slices2.work@]);
    let (sys, sys2) = (rep.usages@[slices.sys@], rep2.usages@[slices2.sys@]);
    &&& mon.hashd_load == mon2.hashd_load
    &&& rep.hashd_lat == rep2.hashd_lat
    &&& root.swap_bytes == root2.swap_bytes
    &&& root.swap_free == root2.swap_free
    &&& work.mem_bytes == work2.mem_bytes
    &&& sys.mem_bytes == sys2.mem_bytes
    &&& work.swap_bytes == work2.swap_bytes
    &&& sys.swap_bytes == sys2.swap_bytes
    &&& work.mem_pressures.1 == work2.mem_pressures.1
    &&& sys.mem_pressures.1 == sys2.mem_pressures.1
}

/// What a call may come to does not depend on what a status line does not show,
/// whatever the operations and the renderer do.
pub proof fn lemma_status_may_be_the_same<'a, F: 'a, A: Fn(Op<F>) -> F, R: Fn(Piece<'a, F>) -> String>(
    mon: WorkloadMon<F>,
    rep: Report<F>,
    slices: SliceNames,
    mon2: WorkloadMon<F>,
    rep2: Report<F>,
    slices2: SliceNames,
    arith: A,
    render: R,
    line: Seq<char>,
)
    requires
        shows_same(mon, rep, slices, mon2, rep2, slices2),
    ensures
        is_status(mon, rep, slices, arith, render, line) == is_status(mon2, rep2, slices2, arith, render, line),
{
    let root = rep.usages@[slices.root@];
    let root2 = rep2.usages@[slices2.root@];
    assert forall|swap: F| #[trigger] root.is_swap_usage(arith, swap) == root2.is_swap_usage(arith, swap) by {
    }
    assert forall|swap: F| #[trigger]
        root2.is_swap_usage(arith, swap) == root.is_swap_usage(arith, swap) by {
    }
    assert forall|swap: F|
        ws_status_parts(mon, rep, slices, swap) == #[trigger] ws_status_parts(mon2, rep2, slices2, swap) by {
        assert(ws_status_parts(mon, rep, slices, swap) =~= ws_status_parts(mon2, rep2, slices2, swap));
    }
}

/// Status lines are equal if what they show is, whatever else the reports say.
/// This is for operations with one outcome and pieces with one text.
pub proof fn lemma_status_is_of_what_it_shows<'a, F: 'a, A: Fn(Op<F>) -> F, R: Fn(Piece<'a, F>) -> String>(
    mon: WorkloadMon<F>,
    rep: Report<F>,
    slices: SliceNames,
    mon2: WorkloadMon<F>,
    rep2: Report<F>,
    slices2: SliceNames,
    arith: A,
    render: R,
    line: Seq<char>,
    line2: Seq<char>,
)
    requires
        arith::consistent(arith),
        page::consistent(render),
        shows_same(mon, rep, slices, mon2, rep2, slices2),
        is_status(mon, rep, slices, arith, render, line),
        is_status(mon2, rep2, slices2, arith, render, line2),
    ensures
        line == line2,
{
    let root = rep.usages@[slices.root@];
    let root2 = rep2.usages@[slices2.root@];
    let swap = choose|swap: F| #[trigger]
        root.is_swap_usage(arith, swap) && page::reads(render, ws_status_parts(mon, rep, slices, swap), line);
    let swap2 = choose|swap: F| #[trigger]
        root2.is_swap_usage(arith, swap) && page::reads(render, ws_status_parts(mon2, rep2, slices2, swap), line2);
    assert(swap == swap2);
    assert(ws_status_parts(mon, rep, slices, swap) =~= ws_status_parts(mon2, rep2, slices2, swap2));
    page::lemma_reads_once(render, ws_status_parts(mon, rep, slices, swap), line, line2);
}

/// The status of a running workload: that it is to go on, and a line that
/// shows its load and latency, the machine's use of swap, and what the
/// workload and the system use.
pub fn ws_status<'a, F: Copy + 'a, A: Fn(Op<F>) -> F, R: Fn(Piece<'a, F>) -> String>(
    mon: &WorkloadMon<F>,
    rep: &Report<F>,
    slices: &SliceNames,
    arith: &A,
    render: &R,
) -> (r: Result<(bool, String), Error>)
    requires
        arith::does_all(*arith),
        page::renders(*render),
        rep.covers(*slices),
    ensures
        r matches Ok((stop, line)) && !stop && is_status(*mon, *rep, *slices, *arith, *render, line@),
{
    let root = rep.usages.get(slices.root.as_str()).unwrap();
    let work = rep.usages.get(slices.work.as_str()).unwrap();
    let sys = rep.usages.get(slices.sys.as_str()).unwrap();
    let swap = root.swap_usage(arith);
    let mut page = Page::new(render);
    page.put("load:");
    page.cell(Piece::Pct(mon.hashd_load), 4);
    page.put("% lat:");
    page.cell(Piece::Duration(rep.hashd_lat), 5);
    page.put(" swap:");
    page.cell(Piece::PctDashed(swap), 4);
    page.put("%");
    page.put(" w/s mem:");
    page.cell(Piece::Size(work.mem_bytes), 5);
    page.put("/");
    page.cell(Piece::Size(sys.mem_bytes), 5);
    page.put(" swap:");
    page.cell(Piece::Size(work.swap_bytes), 5);
    page.put("/");
    page.cell(Piece::Size(sys.swap_bytes), 5);
    page.put(" memp:");
    page.cell(Piece::Pct(work.mem_pressures.1), 4);
    page.put("%/");
    page.cell(Piece::Pct(sys.mem_pressures.1), 4);
    page.put("%");
    assert(page.parts@ =~= ws_status_parts(*mon, *rep, *slices, swap));
    Ok((false, page.text))
}

} // verus!
