//! What can be told from what is shown.

use vstd::prelude::*;
use vstd::string::*;

use crate::arith::Op;
use crate::exact;
use crate::exact_study;
use crate::job::{self, ProtectionJob, ProtectionResult};
use crate::layout;
use crate::lists;
use crate::mem_hog::{MemHog, MemHogResult};
use crate::number;
use crate::page::{self, Part, Piece, PieceView};
use crate::report::{self, Report, SliceNames, WorkloadMon};
use crate::scenario::{Scenario, ScenarioResult};
use crate::speed;
use crate::text;

verus! {

broadcast use vstd::string::group_string_axioms;

/// The parameters of two scenarios are shown alike if, and only if, they are
/// the same: the loops, the load and the speed.
pub proof fn lemma_params_tell<F>(a: MemHog<F>, b: MemHog<F>)
    ensures
        layout::params_parts(a) == layout::params_parts(b) <==> a.loops == b.loops && a.load == b.load && a.speed
            == b.speed,
{
    let (x, y) = (layout::params_parts(a), layout::params_parts(b));
    if x == y {
        assert(x[1] == y[1] && x[3] == y[3] && x[5] == y[5]);
        number::lemma_decimal_reads_back(a.loops);
        number::lemma_decimal_reads_back(b.loops);
        assert(text::decimal(a.loops as nat) == text::decimal(b.loops as nat));
        speed::lemma_speed_names_distinct(a.speed, b.speed);
    }
}

/// What the info shows.
pub open spec fn same_info<F>(a: MemHogResult<F>, b: MemHogResult<F>) -> bool {
    &&& a.base_rps == b.base_rps && a.base_rps_stdev == b.base_rps_stdev
    &&& a.base_lat == b.base_lat && a.base_lat_stdev == b.base_lat_stdev
    &&& a.vrate == b.vrate && a.vrate_stdev == b.vrate_stdev
    &&& a.io_usage == b.io_usage && a.io_unused == b.io_unused
    &&& a.hog_io_usage == b.hog_io_usage && a.hog_io_loss == b.hog_io_loss
    &&& a.hog_bytes == b.hog_bytes && a.hog_lost_bytes == b.hog_lost_bytes
}

/// The infos of two results are the same if, and only if, their baselines,
/// vrates, costs and bytes are.
pub proof fn lemma_info_tells<F>(a: MemHogResult<F>, b: MemHogResult<F>)
    ensures
        layout::info_parts(a) == layout::info_parts(b) <==> same_info(a, b),
{
    let (x, y) = (layout::info_parts(a), layout::info_parts(b));
    if x == y {
        assert(x[1] == y[1] && x[3] == y[3] && x[5] == y[5] && x[7] == y[7] && x[9] == y[9] && x[11] == y[11]);
        assert(x[13] == y[13] && x[15] == y[15] && x[17] == y[17] && x[19] == y[19] && x[21] == y[21] && x[23]
            == y[23]);
    }
}

/// Tables have the same value for each percentile that is shown.
pub open spec fn same_pcts<F>(a: Map<Seq<char>, F>, b: Map<Seq<char>, F>) -> bool {
    forall|i: int| 0 <= i < layout::pcts_spec().len() ==> a[#[trigger] layout::pcts_spec()[i]] == b[layout::pcts_spec()[i]]
}

/// A row has one column for each percentile, in order, and tells its value.
pub proof fn lemma_row<F>(table: Map<Seq<char>, F>, n: nat)
    requires
        n <= layout::pcts_spec().len(),
    ensures
        layout::row_parts(table, n).len() == 2 * n,
        forall|i: int|
            0 <= i < n ==> #[trigger] layout::row_parts(table, n)[2 * i] == Part::Cell(
                PieceView::Fixed(table[layout::pcts_spec()[i]], 2),
                5,
            ),
        forall|i: int| 0 <= i < n ==> #[trigger] layout::row_parts(table, n)[2 * i + 1] == Part::<F>::Text(" "@),
    decreases n,
{
    if n > 0 {
        let m = (n - 1) as nat;
        lemma_row(table, m);
        let prior = layout::row_parts(table, m);
        let row = layout::row_parts(table, n);
        assert forall|i: int| 0 <= i < n implies #[trigger] row[2 * i] == Part::Cell(
            PieceView::Fixed(table[layout::pcts_spec()[i]], 2),
            5,
        ) by {
            if i < m {
                assert(row[2 * i] == prior[2 * i]);
            }
        }
        assert forall|i: int| 0 <= i < n implies #[trigger] row[2 * i + 1] == Part::<F>::Text(" "@) by {
            if i < m {
                assert(row[2 * i + 1] == prior[2 * i + 1]);
            }
        }
    }
}

/// The heading has one column for each percentile, in order and as wide as
/// those of a row, and tells its name.
pub proof fn lemma_heading<F>(n: nat)
    requires
        0 < n <= layout::pcts_spec().len(),
    ensures
        layout::heading_parts::<F>(n).len() + 1 == 2 * n,
        forall|i: int|
            0 <= i < n ==> #[trigger] layout::heading_parts::<F>(n)[2 * i] == Part::<F>::Cell(
                PieceView::Percentile(layout::pcts_spec()[i]),
                5,
            ),
        forall|i: int| 0 <= i < n - 1 ==> #[trigger] layout::heading_parts::<F>(n)[2 * i + 1] == Part::<F>::Text(" "@),
    decreases n,
{
    if n > 1 {
        let m = (n - 1) as nat;
        lemma_heading::<F>(m);
        let prior = layout::heading_parts::<F>(m);
        let heading = layout::heading_parts::<F>(n);
        assert forall|i: int| 0 <= i < n implies #[trigger] heading[2 * i] == Part::<F>::Cell(
            PieceView::Percentile(layout::pcts_spec()[i]),
            5,
        ) by {
            if i < m {
                assert(heading[2 * i] == prior[2 * i]);
            }
        }
        assert forall|i: int| 0 <= i < n - 1 implies #[trigger] heading[2 * i + 1] == Part::<F>::Text(" "@) by {
            if i < m - 1 {
                assert(heading[2 * i + 1] == prior[2 * i + 1]);
            }
        }
    }
}

/// The number of a string of two digits.
proof fn lemma_two_digits(s: Seq<char>)
    requires
        s.len() == 2,
        '0' <= s[0] && s[0] <= '9',
        '0' <= s[1] && s[1] <= '9',
    ensures
        number::is_digits(s),
        number::value(s) == 10 * (s[0] as int - '0' as int) + (s[1] as int - '0' as int),
{
    reveal_with_fuel(number::value, 3);
}

/// The percentiles that are shown are in order, from the least value to the
/// greatest, and lie evenly about the median: for each there is one as far from
/// the other end.
pub proof fn lemma_pcts()
    ensures
        forall|i: int| 0 <= i < layout::pcts_spec().len() ==> number::is_digits(#[trigger] layout::pcts_spec()[i]),
        number::value(layout::pcts_spec().first()) == 0,
        number::value(layout::pcts_spec().last()) == 100,
        forall|i: int, j: int|
            0 <= i < j < layout::pcts_spec().len() ==> number::value(#[trigger] layout::pcts_spec()[i]) < number::value(
                #[trigger] layout::pcts_spec()[j],
            ),
        forall|i: int|
            0 <= i < layout::pcts_spec().len() ==> number::value(#[trigger] layout::pcts_spec()[i]) + number::value(
                layout::pcts_spec()[layout::pcts_spec().len() - 1 - i],
            ) == 100,
{
    reveal_strlit("00");
    reveal_strlit("01");
    reveal_strlit("05");
    reveal_strlit("10");
    reveal_strlit("16");
    reveal_strlit("25");
    reveal_strlit("50");
    reveal_strlit("75");
    reveal_strlit("84");
    reveal_strlit("90");
    reveal_strlit("95");
    reveal_strlit("99");
    reveal_strlit("100");
    lemma_two_digits("00"@);
    lemma_two_digits("01"@);
    lemma_two_digits("05"@);
    lemma_two_digits("10"@);
    lemma_two_digits("16"@);
    lemma_two_digits("25"@);
    lemma_two_digits("50"@);
    lemma_two_digits("75"@);
    lemma_two_digits("84"@);
    lemma_two_digits("90"@);
    lemma_two_digits("95"@);
    lemma_two_digits("99"@);
    assert("100"@.drop_last() =~= "10"@);
    number::lemma_one_digit_more("10"@, '0');
    assert("100"@ =~= "10"@.push('0'));
    let p = layout::pcts_spec();
    let v = |i: int| number::value(p[i]) as int;
    assert(v(0) == 0 && v(1) == 1 && v(2) == 5 && v(3) == 10 && v(4) == 16 && v(5) == 25 && v(6) == 50);
    assert(v(7) == 75 && v(8) == 84 && v(9) == 90 && v(10) == 95 && v(11) == 99 && v(12) == 100);
}

/// Rows are the same if, and only if, the tables have the same values for the
/// percentiles that are shown.
proof fn lemma_row_tells<F>(a: Map<Seq<char>, F>, b: Map<Seq<char>, F>)
    ensures
        layout::row_parts(a, layout::pcts_spec().len()) == layout::row_parts(b, layout::pcts_spec().len())
            <==> same_pcts(a, b),
{
    let n = layout::pcts_spec().len();
    let (x, y) = (layout::row_parts(a, n), layout::row_parts(b, n));
    lemma_row(a, n);
    lemma_row(b, n);
    if x == y {
        assert forall|i: int| 0 <= i < n implies a[#[trigger] layout::pcts_spec()[i]] == b[layout::pcts_spec()[i]] by {
            assert(x[2 * i] == y[2 * i]);
        }
    }
    if same_pcts(a, b) {
        assert forall|k: int| 0 <= k < x.len() implies x[k] == y[k] by {
            let i = k / 2;
            assert(a[layout::pcts_spec()[i]] == b[layout::pcts_spec()[i]]);
            if k % 2 == 0 {
                assert(k == 2 * i);
                assert(x[2 * i] == y[2 * i]);
            } else {
                assert(k == 2 * i + 1);
                assert(x[2 * i + 1] == y[2 * i + 1]);
            }
        }
        assert(x =~= y);
    }
}

/// What is always shown of a result.
pub open spec fn same_digest<F>(a: MemHogResult<F>, b: MemHogResult<F>) -> bool {
    &&& a.iolat_pcts == b.iolat_pcts
    &&& same_pcts(a.work_isol_pcts@, b.work_isol_pcts@)
    &&& same_pcts(a.lat_impact_pcts@, b.lat_impact_pcts@)
    &&& a.work_isol == b.work_isol && a.work_isol_stdev == b.work_isol_stdev
    &&& a.lat_impact == b.lat_impact && a.lat_impact_stdev == b.lat_impact_stdev
    &&& a.work_csv == b.work_csv
}

/// Two results are shown alike if, and only if, what is to be shown of them is
/// the same. That is always the IO latencies, the percentiles of work isolation
/// and latency impact, and the means and deviations of these with the work
/// conservation; in full, it is the info too.
pub proof fn lemma_result_tells<F>(a: MemHogResult<F>, b: MemHogResult<F>, full: bool)
    ensures
        layout::result_parts(a, full) == layout::result_parts(b, full) <==> same_digest(a, b) && (full ==> same_info(
            a,
            b,
        )),
{
    let n = layout::pcts_spec().len();
    lemma_info_tells(a, b);
    lemma_row_tells(a.work_isol_pcts@, b.work_isol_pcts@);
    lemma_row_tells(a.lat_impact_pcts@, b.lat_impact_pcts@);
    lemma_row(a.work_isol_pcts@, n);
    lemma_row(b.work_isol_pcts@, n);
    lemma_row(a.lat_impact_pcts@, n);
    lemma_row(b.lat_impact_pcts@, n);
    let (da, db) = (layout::digest_parts(a), layout::digest_parts(b));
    let h = layout::heading_parts::<F>(n).len() as int;
    let w = 2 * n as int;
    if layout::result_parts(a, full) == layout::result_parts(b, full) {
        if full {
            let (x, y) = (layout::result_parts(a, true), layout::result_parts(b, true));
            assert(layout::info_parts(a) =~= x.take(25) && layout::info_parts(b) =~= y.take(25));
            assert(da =~= x.skip(30) && db =~= y.skip(30));
        }
        assert(da == db);
        assert(da[0] == db[0]);
        assert(layout::row_parts(a.work_isol_pcts@, n) =~= da.subrange(h + 5, h + 5 + w));
        assert(layout::row_parts(b.work_isol_pcts@, n) =~= db.subrange(h + 5, h + 5 + w));
        assert(layout::row_parts(a.lat_impact_pcts@, n) =~= da.subrange(h + 7 + w, h + 7 + 2 * w));
        assert(layout::row_parts(b.lat_impact_pcts@, n) =~= db.subrange(h + 7 + w, h + 7 + 2 * w));
        let (ba, bb) = (layout::bottom_parts(a), layout::bottom_parts(b));
        assert(ba =~= da.skip(h + 8 + 2 * w) && bb =~= db.skip(h + 8 + 2 * w));
        assert(ba[1] == bb[1] && ba[3] == bb[3] && ba[5] == bb[5] && ba[7] == bb[7] && ba[9] == bb[9]);
    }
}

/// A result can be shown if, and only if, both of its tables have each of the
/// percentiles: with one of them missing it can't be, whatever else there is.
pub proof fn lemma_showable<F>(r: MemHogResult<F>)
    ensures
        layout::showable(r) <==> forall|i: int|
            0 <= i < layout::pcts_spec().len() ==> r.work_isol_pcts@.contains_key(#[trigger] layout::pcts_spec()[i])
                && r.lat_impact_pcts@.contains_key(layout::pcts_spec()[i]),
{
    if layout::showable(r) {
        assert forall|i: int| 0 <= i < layout::pcts_spec().len() implies r.work_isol_pcts@.contains_key(
            #[trigger] layout::pcts_spec()[i],
        ) && r.lat_impact_pcts@.contains_key(layout::pcts_spec()[i]) by {
        }
    }
}

/// A job can be shown if its combined results can be, if there are any, and, in
/// full, if that holds of the result of each scenario too. Results without a
/// scenario don't matter.
pub proof fn lemma_job_showable<F>(job: ProtectionJob<F>, r: ProtectionResult<F>)
    ensures
        job::showable(job, r, false) <==> (r.combined_mem_hog matches Some(hog) ==> layout::showable(hog)),
        job::showable(job, r, true) <==> job::showable(job, r, false) && forall|i: int|
            0 <= i < r.scenarios@.len() && i < job.scenarios@.len() ==> (
            #[trigger] r.scenarios@[i] matches ScenarioResult::MemHog(hog) && layout::showable(hog)),
{
    if job::showable(job, r, true) {
        assert forall|i: int| 0 <= i < r.scenarios@.len() && i < job.scenarios@.len() implies (
        #[trigger] r.scenarios@[i] matches ScenarioResult::MemHog(hog) && layout::showable(hog)) by {
            assert(layout::showable(*r.scenarios@[i].mem_hog()));
        }
    }
}

/// What is shown of one scenario in full: its title with its place, underlined,
/// its parameters, an empty line, and what a full `format_result` writes of its
/// result.
pub open spec fn section<F>(job: ProtectionJob<F>, r: ProtectionResult<F>, prefix: Seq<char>, i: int) -> Seq<Part<F>> {
    match (job.scenarios@[i], r.scenarios@[i]) {
        (Scenario::MemHog(mh), ScenarioResult::MemHog(mhr)) => seq![
            Part::Text("\n"@),
            Part::Cell(
                PieceView::Underlined(
                    prefix + "Scenario "@ + text::decimal((i + 1) as nat) + "/"@ + text::decimal(job.scenarios@.len())
                        + " - Memory Hog"@,
                    if prefix == Seq::<char>::empty() { "="@ } else { "-"@ },
                ),
                0,
            ),
            Part::Text("\n"@),
        ] + layout::params_parts(mh) + seq![Part::Text("\n"@)] + layout::result_parts(mhr, true),
    }
}

/// What is shown of combined results: a title, underlined, and what
/// `format_result` writes of the result.
pub open spec fn summary<F>(hog: MemHogResult<F>, full: bool, prefix: Seq<char>) -> Seq<Part<F>> {
    seq![
        Part::Text("\n"@),
        Part::Cell(
            PieceView::Underlined(
                prefix + "Memory Hog Summary"@,
                if prefix == Seq::<char>::empty() { "="@ } else { "-"@ },
            ),
            0,
        ),
        Part::Text("\n"@),
    ] + layout::result_parts(hog, full)
}

/// A full text of a job shows every scenario that has a result, each once and
/// in order, and then the combined results, if there are any; a short text
/// shows the latter only.
pub proof fn lemma_job_shows_each<F>(job: ProtectionJob<F>, r: ProtectionResult<F>, full: bool, prefix: Seq<char>)
    ensures
        ({
            let n = if job.scenarios@.len() <= r.scenarios@.len() { job.scenarios@.len() } else { r.scenarios@.len() };
            let sections = Seq::new(if full { n } else { 0 }, |i: int| section(job, r, prefix, i));
            job::job_parts(job, r, full, prefix) == lists::joined(sections) + (match r.combined_mem_hog {
                Some(hog) => summary(hog, full, prefix),
                None => Seq::empty(),
            })
        }),
{
    let n = if job.scenarios@.len() <= r.scenarios@.len() { job.scenarios@.len() } else { r.scenarios@.len() };
    let sections = Seq::new(if full { n } else { 0 }, |i: int| section(job, r, prefix, i));
    assert((prefix.len() == 0) <==> prefix =~= Seq::<char>::empty());
    if full {
        lemma_sections(job, r, prefix, n);
    } else {
        assert(lists::joined(sections) =~= Seq::<Part<F>>::empty());
    }
    if let Some(hog) = r.combined_mem_hog {
        assert(job::title_parts(job::summary_title(prefix), prefix) + layout::result_parts(hog, full) =~= summary(
            hog,
            full,
            prefix,
        ));
    }
    assert(job::job_parts(job, r, full, prefix) =~= lists::joined(sections) + (match r.combined_mem_hog {
        Some(hog) => summary(hog, full, prefix),
        None => Seq::empty(),
    }));
}

/// The first scenarios, one behind the other.
proof fn lemma_sections<F>(job: ProtectionJob<F>, r: ProtectionResult<F>, prefix: Seq<char>, k: nat)
    requires
        k <= job.scenarios@.len(),
        k <= r.scenarios@.len(),
    ensures
        job::scenarios_parts(job.scenarios@, r.scenarios@, prefix, k) == lists::joined(
            Seq::new(k, |i: int| section(job, r, prefix, i)),
        ),
    decreases k,
{
    let sections = Seq::new(k, |i: int| section(job, r, prefix, i));
    if k == 0 {
        assert(lists::joined(sections) =~= Seq::<Part<F>>::empty());
    } else {
        let prior = Seq::new((k - 1) as nat, |i: int| section(job, r, prefix, i));
        lemma_sections(job, r, prefix, (k - 1) as nat);
        assert(sections.drop_last() =~= prior);
        assert((prefix.len() == 0) <==> prefix =~= Seq::<char>::empty());
        assert(job::scenario_parts(
            job.scenarios@[k - 1],
            r.scenarios@[k - 1],
            prefix,
            k,
            job.scenarios@.len(),
        ) =~= section(job, r, prefix, k - 1));
    }
}

/// Status lines are laid out alike if, and only if, what they show is the same:
/// the load, the latency, the share of the swap that is used, and the memory,
/// the swap and the full memory pressure of the workload and of the system.
pub proof fn lemma_status_tells<F>(
    mon: WorkloadMon<F>,
    rep: Report<F>,
    slices: SliceNames,
    swap: F,
    mon2: WorkloadMon<F>,
    rep2: Report<F>,
    slices2: SliceNames,
    swap2: F,
)
    ensures
        ({
            let (work, work2) = (rep.usages@[slices.work@], rep2.usages@[slices2.work@]);
            let (sys, sys2) = (rep.usages@[slices.sys@], rep2.usages@[slices2.sys@]);
            report::ws_status_parts(mon, rep, slices, swap) == report::ws_status_parts(mon2, rep2, slices2, swap2)
                <==> {
                &&& mon.hashd_load == mon2.hashd_load
                &&& rep.hashd_lat == rep2.hashd_lat
                &&& swap == swap2
                &&& work.mem_bytes == work2.mem_bytes && sys.mem_bytes == sys2.mem_bytes
                &&& work.swap_bytes == work2.swap_bytes && sys.swap_bytes == sys2.swap_bytes
                &&& work.mem_pressures.1 == work2.mem_pressures.1 && sys.mem_pressures.1 == sys2.mem_pressures.1
            }
        }),
{
    let x = report::ws_status_parts(mon, rep, slices, swap);
    let y = report::ws_status_parts(mon2, rep2, slices2, swap2);
    if x == y {
        assert(x[1] == y[1] && x[3] == y[3] && x[5] == y[5] && x[8] == y[8] && x[10] == y[10] && x[12] == y[12]);
        assert(x[14] == y[14] && x[16] == y[16] && x[18] == y[18]);
    }
}

/// A report covers slices if, and only if, it has a usage for each of them and
/// how much swap the whole machine has fits, be it none.
pub proof fn lemma_covers<F>(rep: Report<F>, slices: SliceNames)
    ensures
        rep.covers(slices) <==> {
            &&& rep.usages@.contains_key(slices.root@)
            &&& rep.usages@.contains_key(slices.work@)
            &&& rep.usages@.contains_key(slices.sys@)
            &&& rep.usages@[slices.root@].swap_bytes + rep.usages@[slices.root@].swap_free <= u64::MAX
        },
{
}

/// The swap that a status line shows is the share that is used of the whole
/// machine's swap: times all of it, it is the used part.
pub proof fn lemma_status_swap<'a, F: 'a, A: Fn(Op<F>) -> F, R: Fn(Piece<'a, F>) -> String>(
    mon: WorkloadMon<F>,
    rep: Report<F>,
    slices: SliceNames,
    arith: A,
    render: R,
    line: Seq<char>,
    val: spec_fn(F) -> real,
)
    requires
        exact::is_exact(arith, val),
        rep.covers(slices),
        report::is_status(mon, rep, slices, arith, render, line),
    ensures
        exists|swap: F|
            {
                let root = rep.usages@[slices.root@];
                &&& val(swap) * (root.swap_bytes as real + root.swap_free as real) == root.swap_bytes as real
                &&& 0 as real <= val(swap) <= 1 as real
                &&& root.swap_bytes == 0 ==> val(swap) == 0 as real
                &&& page::reads(render, #[trigger] report::ws_status_parts(mon, rep, slices, swap), line)
            },
{
    let root = rep.usages@[slices.root@];
    let swap = choose|swap: F| #[trigger]
        root.is_swap_usage(arith, swap) && page::reads(
            render,
            report::ws_status_parts(mon, rep, slices, swap),
            line,
        );
    exact_study::lemma_swap_usage(arith, val, root, swap);
    assert(page::reads(render, report::ws_status_parts(mon, rep, slices, swap), line));
}

/// A string in a column has the width of the column, or its own length if that
/// is more. It ends with the string, and there are spaces before that.
pub proof fn lemma_right_aligned(s: Seq<char>, width: nat)
    ensures
        text::right_aligned(s, width).len() == (if s.len() >= width { s.len() } else { width }),
        text::right_aligned(s, width).skip(text::right_aligned(s, width).len() - s.len()) == s,
        forall|i: int|
            0 <= i < text::right_aligned(s, width).len() - s.len() ==> #[trigger] text::right_aligned(s, width)[i] == ' ',
{
    assert(text::right_aligned(s, width).skip(text::right_aligned(s, width).len() - s.len()) =~= s);
}

} // verus!
