//! What is written, word for word.

use vstd::prelude::*;
use vstd::string::*;

use crate::layout;
use crate::lists;
use crate::mem_hog::{MemHog, MemHogResult};
use crate::page::{self, Part, Piece, PieceView};
use crate::report::{self, Report, SliceNames, WorkloadMon};
use crate::text;

verus! {

broadcast use vstd::string::group_string_axioms;

/// What a piece in a column is made of.
proof fn lemma_cell<'a, F: 'a, R: Fn(Piece<'a, F>) -> String>(
    render: R,
    piece: PieceView<F>,
    width: nat,
    text: Seq<char>,
) -> (t: Seq<char>)
    requires
        page::part_reads(render, Part::Cell(piece, width), text),
    ensures
        page::rendered(render, piece, t),
        text == text::right_aligned(t, width),
        width == 0 ==> text == t,
{
    let t = choose|t: Seq<char>| #[trigger]
        page::rendered(render, piece, t) && text == text::right_aligned(t, width);
    if width == 0 {
        assert(text =~= t);
    }
    t
}

/// What `format_params` writes: the loops as a numeral, the load as it is, and
/// the name of the speed.
pub proof fn lemma_params_text<'a, F: 'a, R: Fn(Piece<'a, F>) -> String>(
    render: R,
    mh: MemHog<F>,
    text: Seq<char>,
)
    requires
        page::reads(render, layout::params_parts(mh), text),
    ensures
        exists|ts: Seq<Seq<char>>|
            {
                &&& #[trigger] ts.len() == 1
                &&& page::rendered(render, PieceView::Plain(mh.load), ts[0])
                &&& text == "Params: loops="@ + text::decimal(mh.loops as nat) + " load="@ + ts[0]
                    + " speed="@ + mh.speed.name() + "\n"@
            },
{
    let parts = layout::params_parts(mh);
    let texts = choose|texts: Seq<Seq<char>>| #[trigger]
        page::all_read(render, parts, texts) && text == lists::joined(texts);
    assert(page::part_reads(render, parts[0], texts[0]));
    assert(page::part_reads(render, parts[1], texts[1]));
    assert(page::part_reads(render, parts[2], texts[2]));
    assert(page::part_reads(render, parts[3], texts[3]));
    assert(page::part_reads(render, parts[4], texts[4]));
    assert(page::part_reads(render, parts[5], texts[5]));
    assert(page::part_reads(render, parts[6], texts[6]));
    let t0 = lemma_cell(render, PieceView::Plain(mh.load), 0, texts[3]);
    let ts = seq![t0];
    reveal_with_fuel(lists::joined, 8);
    assert(ts.len() == 1);
    assert(text =~= "Params: loops="@ + text::decimal(mh.loops as nat) + " load="@ + ts[0] + " speed="@
        + mh.speed.name() + "\n"@);
}

/// The bottom line: means and deviations of work isolation and latency impact,
/// and the work conservation, each with three decimal places.
pub proof fn lemma_bottom_text<'a, F: 'a, R: Fn(Piece<'a, F>) -> String>(
    render: R,
    r: MemHogResult<F>,
    text: Seq<char>,
)
    requires
        page::reads(render, layout::bottom_parts(r), text),
    ensures
        exists|ts: Seq<Seq<char>>|
            {
                &&& #[trigger] ts.len() == 5
                &&& page::rendered(render, PieceView::Fixed(r.work_isol, 3), ts[0])
                &&& page::rendered(render, PieceView::Fixed(r.work_isol_stdev, 3), ts[1])
                &&& page::rendered(render, PieceView::Fixed(r.lat_impact, 3), ts[2])
                &&& page::rendered(render, PieceView::Fixed(r.lat_impact_stdev, 3), ts[3])
                &&& page::rendered(render, PieceView::Fixed(r.work_csv, 3), ts[4])
                &&& text == "\nResult: work_isol="@ + ts[0] + ":"@ + ts[1] + " lat_impact="@ + ts[2] + ":"@
                    + ts[3] + " work_csv="@ + ts[4] + "\n"@
            },
{
    let parts = layout::bottom_parts(r);
    let texts = choose|texts: Seq<Seq<char>>| #[trigger]
        page::all_read(render, parts, texts) && text == lists::joined(texts);
    assert(page::part_reads(render, parts[0], texts[0]));
    assert(page::part_reads(render, parts[1], texts[1]));
    assert(page::part_reads(render, parts[2], texts[2]));
    assert(page::part_reads(render, parts[3], texts[3]));
    assert(page::part_reads(render, parts[4], texts[4]));
    assert(page::part_reads(render, parts[5], texts[5]));
    assert(page::part_reads(render, parts[6], texts[6]));
    assert(page::part_reads(render, parts[7], texts[7]));
    assert(page::part_reads(render, parts[8], texts[8]));
    assert(page::part_reads(render, parts[9], texts[9]));
    assert(page::part_reads(render, parts[10], texts[10]));
    let t0 = lemma_cell(render, PieceView::Fixed(r.work_isol, 3), 0, texts[1]);
    let t1 = lemma_cell(render, PieceView::Fixed(r.work_isol_stdev, 3), 0, texts[3]);
    let t2 = lemma_cell(render, PieceView::Fixed(r.lat_impact, 3), 0, texts[5]);
    let t3 = lemma_cell(render, PieceView::Fixed(r.lat_impact_stdev, 3), 0, texts[7]);
    let t4 = lemma_cell(render, PieceView::Fixed(r.work_csv, 3), 0, texts[9]);
    let ts = seq![t0, t1, t2, t3, t4];
    reveal_with_fuel(lists::joined, 12);
    assert(ts.len() == 5);
    assert(text =~= "\nResult: work_isol="@ + ts[0] + ":"@ + ts[1] + " lat_impact="@ + ts[2] + ":"@ + ts[3]
        + " work_csv="@ + ts[4] + "\n"@);
}

/// What `format_info` writes: the baseline and the vrate, each with its
/// deviation, the IO costs with one decimal place, and the sizes.
pub proof fn lemma_info_text<'a, F: 'a, R: Fn(Piece<'a, F>) -> String>(
    render: R,
    r: MemHogResult<F>,
    text: Seq<char>,
)
    requires
        page::reads(render, layout::info_parts(r), text),
    ensures
        exists|ts: Seq<Seq<char>>|
            {
                &&& #[trigger] ts.len() == 12
                &&& page::rendered(render, PieceView::Fixed(r.base_rps, 2), ts[0])
                &&& page::rendered(render, PieceView::Fixed(r.base_rps_stdev, 2), ts[1])
                &&& page::rendered(render, PieceView::Duration(r.base_lat), ts[2])
                &&& page::rendered(render, PieceView::Duration(r.base_lat_stdev), ts[3])
                &&& page::rendered(render, PieceView::Fixed(r.vrate, 2), ts[4])
                &&& page::rendered(render, PieceView::Fixed(r.vrate_stdev, 2), ts[5])
                &&& page::rendered(render, PieceView::Fixed(r.io_usage, 1), ts[6])
                &&& page::rendered(render, PieceView::Fixed(r.io_unused, 1), ts[7])
                &&& page::rendered(render, PieceView::Fixed(r.hog_io_usage, 1), ts[8])
                &&& page::rendered(render, PieceView::Fixed(r.hog_io_loss, 1), ts[9])
                &&& page::rendered(render, PieceView::Size(r.hog_bytes), ts[10])
                &&& page::rendered(render, PieceView::Size(r.hog_lost_bytes), ts[11])
                &&& text == "Info: baseline_rps="@ + ts[0] + ":"@ + ts[1] + " baseline_lat="@ + ts[2] + ":"@
                    + ts[3] + " vrate="@ + ts[4] + ":"@ + ts[5] + "\n      io_usage="@ + ts[6]
                    + " io_unused="@ + ts[7] + " hog_io_usage="@ + ts[8] + " hog_io_loss="@ + ts[9]
                    + "\n      hog_bytes="@ + ts[10] + " hog_lost_bytes="@ + ts[11] + "\n\n"@
            },
{
    let parts = layout::info_parts(r);
    let texts = choose|texts: Seq<Seq<char>>| #[trigger]
        page::all_read(render, parts, texts) && text == lists::joined(texts);
    assert(page::part_reads(render, parts[0], texts[0]));
    assert(page::part_reads(render, parts[1], texts[1]));
    assert(page::part_reads(render, parts[2], texts[2]));
    assert(page::part_reads(render, parts[3], texts[3]));
    assert(page::part_reads(render, parts[4], texts[4]));
    assert(page::part_reads(render, parts[5], texts[5]));
    assert(page::part_reads(render, parts[6], texts[6]));
    assert(page::part_reads(render, parts[7], texts[7]));
    assert(page::part_reads(render, parts[8], texts[8]));
    assert(page::part_reads(render, parts[9], texts[9]));
    assert(page::part_reads(render, parts[10], texts[10]));
    assert(page::part_reads(render, parts[11], texts[11]));
    assert(page::part_reads(render, parts[12], texts[12]));
    assert(page::part_reads(render, parts[13], texts[13]));
    assert(page::part_reads(render, parts[14], texts[14]));
    assert(page::part_reads(render, parts[15], texts[15]));
    assert(page::part_reads(render, parts[16], texts[16]));
    assert(page::part_reads(render, parts[17], texts[17]));
    assert(page::part_reads(render, parts[18], texts[18]));
    assert(page::part_reads(render, parts[19], texts[19]));
    assert(page::part_reads(render, parts[20], texts[20]));
    assert(page::part_reads(render, parts[21], texts[21]));
    assert(page::part_reads(render, parts[22], texts[22]));
    assert(page::part_reads(render, parts[23], texts[23]));
    assert(page::part_reads(render, parts[24], texts[24]));
    let t0 = lemma_cell(render, PieceView::Fixed(r.base_rps, 2), 0, texts[1]);
    let t1 = lemma_cell(render, PieceView::Fixed(r.base_rps_stdev, 2), 0, texts[3]);
    let t2 = lemma_cell(render, PieceView::Duration(r.base_lat), 0, texts[5]);
    let t3 = lemma_cell(render, PieceView::Duration(r.base_lat_stdev), 0, texts[7]);
    let t4 = lemma_cell(render, PieceView::Fixed(r.vrate, 2), 0, texts[9]);
    let t5 = lemma_cell(render, PieceView::Fixed(r.vrate_stdev, 2), 0, texts[11]);
    let t6 = lemma_cell(render, PieceView::Fixed(r.io_usage, 1), 0, texts[13]);
    let t7 = lemma_cell(render, PieceView::Fixed(r.io_unused, 1), 0, texts[15]);
    let t8 = lemma_cell(render, PieceView::Fixed(r.hog_io_usage, 1), 0, texts[17]);
    let t9 = lemma_cell(render, PieceView::Fixed(r.hog_io_loss, 1), 0, texts[19]);
    let t10 = lemma_cell(render, PieceView::Size(r.hog_bytes), 0, texts[21]);
    let t11 = lemma_cell(render, PieceView::Size(r.hog_lost_bytes), 0, texts[23]);
    let ts = seq![t0, t1, t2, t3, t4, t5, t6, t7, t8, t9, t10, t11];
    reveal_with_fuel(lists::joined, 26);
    assert(ts.len() == 12);
    assert(text =~= "Info: baseline_rps="@ + ts[0] + ":"@ + ts[1] + " baseline_lat="@ + ts[2] + ":"@ + ts[3]
        + " vrate="@ + ts[4] + ":"@ + ts[5] + "\n      io_usage="@ + ts[6] + " io_unused="@ + ts[7]
        + " hog_io_usage="@ + ts[8] + " hog_io_loss="@ + ts[9] + "\n      hog_bytes="@ + ts[10]
        + " hog_lost_bytes="@ + ts[11] + "\n\n"@);
}

/// The distributions of IO latencies: the table of the reads and then that of the
/// writes.
pub proof fn lemma_iolat_text<'a, F: 'a, R: Fn(Piece<'a, F>) -> String>(
    render: R,
    r: MemHogResult<F>,
    text: Seq<char>,
)
    requires
        page::reads(render, layout::iolat_parts(r), text),
    ensures
        exists|ts: Seq<Seq<char>>|
            {
                &&& #[trigger] ts.len() == 2
                &&& page::rendered(render, PieceView::IoLatTable(r.iolat_pcts[0], "READ"@), ts[0])
                &&& page::rendered(render, PieceView::IoLatTable(r.iolat_pcts[1], "WRITE"@), ts[1])
                &&& text == "IO Latency Distribution:\n\n"@ + ts[0] + "\n"@ + ts[1] + "\n"@
            },
{
    let parts = layout::iolat_parts(r);
    let texts = choose|texts: Seq<Seq<char>>| #[trigger]
        page::all_read(render, parts, texts) && text == lists::joined(texts);
    assert(page::part_reads(render, parts[0], texts[0]));
    assert(page::part_reads(render, parts[1], texts[1]));
    assert(page::part_reads(render, parts[2], texts[2]));
    assert(page::part_reads(render, parts[3], texts[3]));
    assert(page::part_reads(render, parts[4], texts[4]));
    let t0 = lemma_cell(render, PieceView::IoLatTable(r.iolat_pcts[0], "READ"@), 0, texts[1]);
    let t1 = lemma_cell(render, PieceView::IoLatTable(r.iolat_pcts[1], "WRITE"@), 0, texts[3]);
    let ts = seq![t0, t1];
    reveal_with_fuel(lists::joined, 6);
    assert(ts.len() == 2);
    assert(text =~= "IO Latency Distribution:\n\n"@ + ts[0] + "\n"@ + ts[1] + "\n"@);
}

/// A status line, where `swap` is the share of the swap that is used.
pub proof fn lemma_status_text<'a, F: 'a, R: Fn(Piece<'a, F>) -> String>(
    render: R,
    mon: WorkloadMon<F>,
    rep: Report<F>,
    slices: SliceNames,
    swap: F,
    text: Seq<char>,
)
    requires
        page::reads(render, report::ws_status_parts(mon, rep, slices, swap), text),
    ensures
        exists|ts: Seq<Seq<char>>|
            {
                &&& #[trigger] ts.len() == 9
                &&& page::rendered(render, PieceView::Pct(mon.hashd_load), ts[0])
                &&& page::rendered(render, PieceView::Duration(rep.hashd_lat), ts[1])
                &&& page::rendered(render, PieceView::PctDashed(swap), ts[2])
                &&& page::rendered(render, PieceView::Size(rep.usages@[slices.work@].mem_bytes), ts[3])
                &&& page::rendered(render, PieceView::Size(rep.usages@[slices.sys@].mem_bytes), ts[4])
                &&& page::rendered(render, PieceView::Size(rep.usages@[slices.work@].swap_bytes), ts[5])
                &&& page::rendered(render, PieceView::Size(rep.usages@[slices.sys@].swap_bytes), ts[6])
                &&& page::rendered(render, PieceView::Pct(rep.usages@[slices.work@].mem_pressures.1), ts[7])
                &&& page::rendered(render, PieceView::Pct(rep.usages@[slices.sys@].mem_pressures.1), ts[8])
                &&& text == "load:"@ + text::right_aligned(ts[0], 4) + "% lat:"@
                    + text::right_aligned(ts[1], 5) + " swap:"@ + text::right_aligned(ts[2], 4) + "%"@
                    + " w/s mem:"@ + text::right_aligned(ts[3], 5) + "/"@ + text::right_aligned(ts[4], 5)
                    + " swap:"@ + text::right_aligned(ts[5], 5) + "/"@ + text::right_aligned(ts[6], 5)
                    + " memp:"@ + text::right_aligned(ts[7], 4) + "%/"@ + text::right_aligned(ts[8], 4) + "%"@
            },
{
    let parts = report::ws_status_parts(mon, rep, slices, swap);
    let texts = choose|texts: Seq<Seq<char>>| #[trigger]
        page::all_read(render, parts, texts) && text == lists::joined(texts);
    assert(page::part_reads(render, parts[0], texts[0]));
    assert(page::part_reads(render, parts[1], texts[1]));
    assert(page::part_reads(render, parts[2], texts[2]));
    assert(page::part_reads(render, parts[3], texts[3]));
    assert(page::part_reads(render, parts[4], texts[4]));
    assert(page::part_reads(render, parts[5], texts[5]));
    assert(page::part_reads(render, parts[6], texts[6]));
    assert(page::part_reads(render, parts[7], texts[7]));
    assert(page::part_reads(render, parts[8], texts[8]));
    assert(page::part_reads(render, parts[9], texts[9]));
    assert(page::part_reads(render, parts[10], texts[10]));
    assert(page::part_reads(render, parts[11], texts[11]));
    assert(page::part_reads(render, parts[12], texts[12]));
    assert(page::part_reads(render, parts[13], texts[13]));
    assert(page::part_reads(render, parts[14], texts[14]));
    assert(page::part_reads(render, parts[15], texts[15]));
    assert(page::part_reads(render, parts[16], texts[16]));
    assert(page::part_reads(render, parts[17], texts[17]));
    assert(page::part_reads(render, parts[18], texts[18]));
    assert(page::part_reads(render, parts[19], texts[19]));
    let t0 = lemma_cell(render, PieceView::Pct(mon.hashd_load), 4, texts[1]);
    let t1 = lemma_cell(render, PieceView::Duration(rep.hashd_lat), 5, texts[3]);
    let t2 = lemma_cell(render, PieceView::PctDashed(swap), 4, texts[5]);
    let t3 = lemma_cell(render, PieceView::Size(rep.usages@[slices.work@].mem_bytes), 5, texts[8]);
    let t4 = lemma_cell(render, PieceView::Size(rep.usages@[slices.sys@].mem_bytes), 5, texts[10]);
    let t5 = lemma_cell(render, PieceView::Size(rep.usages@[slices.work@].swap_bytes), 5, texts[12]);
    let t6 = lemma_cell(render, PieceView::Size(rep.usages@[slices.sys@].swap_bytes), 5, texts[14]);
    let t7 = lemma_cell(render, PieceView::Pct(rep.usages@[slices.work@].mem_pressures.1), 4, texts[16]);
    let t8 = lemma_cell(render, PieceView::Pct(rep.usages@[slices.sys@].mem_pressures.1), 4, texts[18]);
    let ts = seq![t0, t1, t2, t3, t4, t5, t6, t7, t8];
    reveal_with_fuel(lists::joined, 21);
    assert(ts.len() == 9);
    assert(text =~= "load:"@ + text::right_aligned(ts[0], 4) + "% lat:"@ + text::right_aligned(ts[1], 5)
        + " swap:"@ + text::right_aligned(ts[2], 4) + "%"@ + " w/s mem:"@ + text::right_aligned(ts[3], 5)
        + "/"@ + text::right_aligned(ts[4], 5) + " swap:"@ + text::right_aligned(ts[5], 5) + "/"@
        + text::right_aligned(ts[6], 5) + " memp:"@ + text::right_aligned(ts[7], 4) + "%/"@
        + text::right_aligned(ts[8], 4) + "%"@);
}

/// What two texts in a row look like.
proof fn lemma_two_texts<'a, F: 'a, R: Fn(Piece<'a, F>) -> String>(
    render: R,
    a: Seq<char>,
    b: Seq<char>,
    text: Seq<char>,
)
    requires
        page::reads(render, seq![Part::<F>::Text(a), Part::<F>::Text(b)], text),
    ensures
        text == a + b,
{
    let parts = seq![Part::<F>::Text(a), Part::<F>::Text(b)];
    let texts = choose|texts: Seq<Seq<char>>| #[trigger]
        page::all_read(render, parts, texts) && text == lists::joined(texts);
    assert(page::part_reads(render, parts[0], texts[0]));
    assert(page::part_reads(render, parts[1], texts[1]));
    reveal_with_fuel(lists::joined, 3);
    assert(text =~= a + b);
}

/// What a short `format_result` writes: the digest of the IO latencies, a title,
/// the names of the percentiles, under them a row of work isolations and one of
/// latency impacts, and the bottom line.
pub proof fn lemma_short_text<'a, F: 'a, R: Fn(Piece<'a, F>) -> String>(render: R, r: MemHogResult<F>, text: Seq<char>)
    requires
        page::reads(render, layout::result_parts(r, false), text),
    ensures
        exists|digest: Seq<char>, names: Seq<char>, isols: Seq<char>, impacts: Seq<char>, bottom: Seq<char>|
            {
                &&& #[trigger] page::rendered(render, PieceView::IoLatSummary(r.iolat_pcts), digest)
                &&& #[trigger] page::reads(render, layout::heading_parts::<F>(layout::pcts_spec().len()), names)
                &&& #[trigger] page::reads(
                    render,
                    layout::row_parts(r.work_isol_pcts@, layout::pcts_spec().len()),
                    isols,
                )
                &&& #[trigger] page::reads(
                    render,
                    layout::row_parts(r.lat_impact_pcts@, layout::pcts_spec().len()),
                    impacts,
                )
                &&& #[trigger] page::reads(render, layout::bottom_parts(r), bottom)
                &&& text == digest + "\nWork Isolation and Request Latency Impact Distributions:\n\n"@
                    + "           "@ + names + "\n"@ + "Work Isol  "@ + isols + "\n"@ + "Lat Impact "@ + impacts
                    + "\n"@ + bottom
            },
{
    let n = layout::pcts_spec().len();
    let top = seq![
        Part::Cell(PieceView::IoLatSummary(r.iolat_pcts), 0),
        Part::Text("\nWork Isolation and Request Latency Impact Distributions:\n\n"@),
        Part::Text("           "@),
    ];
    let heading = layout::heading_parts::<F>(n);
    let between = seq![Part::<F>::Text("\n"@), Part::<F>::Text("Work Isol  "@)];
    let row = layout::row_parts(r.work_isol_pcts@, n);
    let between2 = seq![Part::<F>::Text("\n"@), Part::<F>::Text("Lat Impact "@)];
    let row2 = layout::row_parts(r.lat_impact_pcts@, n);
    let end = seq![Part::<F>::Text("\n"@)];
    let last = layout::bottom_parts(r);
    let (a, bottom) = page::lemma_reads_split(
        render,
        top + heading + between + row + between2 + row2 + end,
        last,
        text,
    );
    let (b, newline) = page::lemma_reads_split(render, top + heading + between + row + between2 + row2, end, a);
    let (c, impacts) = page::lemma_reads_split(render, top + heading + between + row + between2, row2, b);
    let (d, label2) = page::lemma_reads_split(render, top + heading + between + row, between2, c);
    let (e, isols) = page::lemma_reads_split(render, top + heading + between, row, d);
    let (f, label) = page::lemma_reads_split(render, top + heading, between, e);
    let (first, names) = page::lemma_reads_split(render, top, heading, f);
    lemma_two_texts::<F, R>(render, "\n"@, "Work Isol  "@, label);
    lemma_two_texts::<F, R>(render, "\n"@, "Lat Impact "@, label2);
    page::lemma_part_looks(render, Part::<F>::Text("\n"@), newline);
    let texts = choose|texts: Seq<Seq<char>>| #[trigger]
        page::all_read(render, top, texts) && first == lists::joined(texts);
    assert(page::part_reads(render, top[0], texts[0]));
    assert(page::part_reads(render, top[1], texts[1]));
    assert(page::part_reads(render, top[2], texts[2]));
    let digest = lemma_cell(render, PieceView::IoLatSummary(r.iolat_pcts), 0, texts[0]);
    reveal_with_fuel(lists::joined, 4);
    assert(first =~= digest + "\nWork Isolation and Request Latency Impact Distributions:\n\n"@ + "           "@);
    assert(text =~= digest + "\nWork Isolation and Request Latency Impact Distributions:\n\n"@ + "           "@ + names
        + "\n"@ + "Work Isol  "@ + isols + "\n"@ + "Lat Impact "@ + impacts + "\n"@ + bottom);
}

} // verus!
