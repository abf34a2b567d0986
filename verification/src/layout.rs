//! How the results of a memory-hog scenario are laid out.

use vstd::prelude::*;
use vstd::string::*;

use crate::lists;
use crate::mem_hog::{MemHog, MemHogResult};
use crate::page::{self, Page, Part, Piece, PieceView};
use crate::strmap::StrMap;
use crate::text::{self, push_decimal};

verus! {

broadcast use vstd::string::group_string_axioms;

/// The percentiles that are shown.
pub open spec fn pcts_spec() -> Seq<Seq<char>> {
    seq![
        "00"@,
        "01"@,
        "05"@,
        "10"@,
        "16"@,
        "25"@,
        "50"@,
        "75"@,
        "84"@,
        "90"@,
        "95"@,
        "99"@,
        "100"@,
    ]
}

/// The percentiles that are shown.
pub fn pcts() -> (r: Vec<&'static str>)
    ensures
        r@.map_values(|s: &'static str| s@) == pcts_spec(),
{
    let r: Vec<&'static str> = vec!["00", "01", "05", "10", "16", "25", "50", "75", "84", "90", "95", "99", "100"];
    assert(r@.map_values(|s: &'static str| s@) =~= pcts_spec());
    r
}

/// A table has a value for each percentile that is shown.
pub open spec fn has_pcts<F>(table: Map<Seq<char>, F>) -> bool {
    forall|i: int| 0 <= i < pcts_spec().len() ==> table.contains_key(#[trigger] pcts_spec()[i])
}

/// A result has all that is shown of it.
pub open spec fn showable<F>(r: MemHogResult<F>) -> bool {
    has_pcts(r.work_isol_pcts@) && has_pcts(r.lat_impact_pcts@)
}

/// Whether a table has a value for each percentile that is shown.
pub fn has_all_pcts<F>(table: &StrMap<F>) -> (r: bool)
    ensures
        r == has_pcts(table@),
{
    let names = pcts();
    let mut i: usize = 0;
    while i < names.len()
        invariant
            i <= names@.len(),
            names@.map_values(|s: &'static str| s@) == pcts_spec(),
            forall|j: int| 0 <= j < i ==> table@.contains_key(#[trigger] pcts_spec()[j]),
        decreases names@.len() - i,
    {
        assert(names@.map_values(|s: &'static str| s@)[i as int] == names@[i as int]@);
        if table.get(names[i]).is_none() {
            assert(!table@.contains_key(pcts_spec()[i as int]));
            return false;
        }
        i += 1;
    }
    assert(names@.map_values(|s: &'static str| s@).len() == i);
    true
}

/// The parameters of a scenario.
pub open spec fn params_parts<F>(mh: MemHog<F>) -> Seq<Part<F>> {
    seq![
        Part::Text("Params: loops="@),
        Part::Text(text::decimal(mh.loops as nat)),
        Part::Text(" load="@),
        Part::Cell(PieceView::Plain(mh.load), 0),
        Part::Text(" speed="@),
        Part::Text(mh.speed.name()),
        Part::Text("\n"@),
    ]
}

/// The baseline, the IO costs and the sizes.
pub open spec fn info_parts<F>(r: MemHogResult<F>) -> Seq<Part<F>> {
    seq![
        Part::Text("Info: baseline_rps="@),
        Part::Cell(PieceView::Fixed(r.base_rps, 2), 0),
        Part::Text(":"@),
        Part::Cell(PieceView::Fixed(r.base_rps_stdev, 2), 0),
        Part::Text(" baseline_lat="@),
        Part::Cell(PieceView::Duration(r.base_lat), 0),
        Part::Text(":"@),
        Part::Cell(PieceView::Duration(r.base_lat_stdev), 0),
        Part::Text(" vrate="@),
        Part::Cell(PieceView::Fixed(r.vrate, 2), 0),
        Part::Text(":"@),
        Part::Cell(PieceView::Fixed(r.vrate_stdev, 2), 0),
        Part::Text("\n      io_usage="@),
        Part::Cell(PieceView::Fixed(r.io_usage, 1), 0),
        Part::Text(" io_unused="@),
        Part::Cell(PieceView::Fixed(r.io_unused, 1), 0),
        Part::Text(" hog_io_usage="@),
        Part::Cell(PieceView::Fixed(r.hog_io_usage, 1), 0),
        Part::Text(" hog_io_loss="@),
        Part::Cell(PieceView::Fixed(r.hog_io_loss, 1), 0),
        Part::Text("\n      hog_bytes="@),
        Part::Cell(PieceView::Size(r.hog_bytes), 0),
        Part::Text(" hog_lost_bytes="@),
        Part::Cell(PieceView::Size(r.hog_lost_bytes), 0),
        Part::Text("\n\n"@),
    ]
}

/// The distributions of IO latencies.
pub open spec fn iolat_parts<F>(r: MemHogResult<F>) -> Seq<Part<F>> {
    seq![
        Part::Text("IO Latency Distribution:\n\n"@),
        Part::Cell(PieceView::IoLatTable(r.iolat_pcts[0], "READ"@), 0),
        Part::Text("\n"@),
        Part::Cell(PieceView::IoLatTable(r.iolat_pcts[1], "WRITE"@), 0),
        Part::Text("\n"@),
    ]
}

/// The headings of the first `n` percentile columns.
pub open spec fn heading_parts<F>(n: nat) -> Seq<Part<F>>
    decreases n,
{
    if n == 0 {
        Seq::empty()
    } else {
        let cell = Part::Cell(PieceView::Percentile(pcts_spec()[n - 1]), 5);
        if n == 1 {
            seq![cell]
        } else {
            heading_parts((n - 1) as nat).push(Part::Text(" "@)).push(cell)
        }
    }
}

/// The first `n` percentile columns of a table.
pub open spec fn row_parts<F>(table: Map<Seq<char>, F>, n: nat) -> Seq<Part<F>>
    decreases n,
{
    if n == 0 {
        Seq::empty()
    } else {
        row_parts(table, (n - 1) as nat).push(
            Part::Cell(PieceView::Fixed(table[pcts_spec()[n - 1]], 2), 5),
        ).push(Part::Text(" "@))
    }
}

/// The bottom line.
pub open spec fn bottom_parts<F>(r: MemHogResult<F>) -> Seq<Part<F>> {
    seq![
        Part::Text("\nResult: work_isol="@),
        Part::Cell(PieceView::Fixed(r.work_isol, 3), 0),
        Part::Text(":"@),
        Part::Cell(PieceView::Fixed(r.work_isol_stdev, 3), 0),
        Part::Text(" lat_impact="@),
        Part::Cell(PieceView::Fixed(r.lat_impact, 3), 0),
        Part::Text(":"@),
        Part::Cell(PieceView::Fixed(r.lat_impact_stdev, 3), 0),
        Part::Text(" work_csv="@),
        Part::Cell(PieceView::Fixed(r.work_csv, 3), 0),
        Part::Text("\n"@),
    ]
}

/// What is always shown of a result.
pub open spec fn digest_parts<F>(r: MemHogResult<F>) -> Seq<Part<F>> {
    let n = pcts_spec().len();
    seq![
        Part::Cell(PieceView::IoLatSummary(r.iolat_pcts), 0),
        Part::Text("\nWork Isolation and Request Latency Impact Distributions:\n\n"@),
        Part::Text("           "@),
    ] + heading_parts(n) + seq![Part::Text("\n"@), Part::Text("Work Isol  "@)] + row_parts(r.work_isol_pcts@, n)
        + seq![Part::Text("\n"@), Part::Text("Lat Impact "@)] + row_parts(r.lat_impact_pcts@, n) + seq![
        Part::Text("\n"@),
    ] + bottom_parts(r)
}

/// What is shown of a result.
pub open spec fn result_parts<F>(r: MemHogResult<F>, full: bool) -> Seq<Part<F>> {
    if full {
        info_parts(r) + iolat_parts(r) + digest_parts(r)
    } else {
        digest_parts(r)
    }
}

/// The text of the distributions of IO latencies: a title, and the tables of
/// the reads and of the writes, each with an empty line behind it.
pub open spec fn are_iolat_tables<'a, F: 'a, R: Fn(Piece<'a, F>) -> String>(
    render: R,
    r: MemHogResult<F>,
    text: Seq<char>,
) -> bool {
    exists|read: Seq<char>, write: Seq<char>|
        {
            &&& #[trigger] page::rendered(render, PieceView::IoLatTable(r.iolat_pcts[0], "READ"@), read)
            &&& #[trigger] page::rendered(render, PieceView::IoLatTable(r.iolat_pcts[1], "WRITE"@), write)
            &&& text == "IO Latency Distribution:\n\n"@ + read + "\n"@ + write + "\n"@
        }
}

/// What the distributions of IO latencies look like.
proof fn lemma_iolat_text<'a, F: 'a, R: Fn(Piece<'a, F>) -> String>(render: R, r: MemHogResult<F>, text: Seq<char>)
    requires
        page::reads(render, iolat_parts(r), text),
    ensures
        are_iolat_tables(render, r, text),
{
    let parts = iolat_parts(r);
    let texts = choose|texts: Seq<Seq<char>>| #[trigger]
        page::all_read(render, parts, texts) && text == lists::joined(texts);
    assert(page::part_reads(render, parts[0], texts[0]));
    assert(page::part_reads(render, parts[1], texts[1]));
    assert(page::part_reads(render, parts[2], texts[2]));
    assert(page::part_reads(render, parts[3], texts[3]));
    assert(page::part_reads(render, parts[4], texts[4]));
    let read = choose|t: Seq<char>| #[trigger]
        page::rendered(render, PieceView::IoLatTable(r.iolat_pcts[0], "READ"@), t) && texts[1]
            == text::right_aligned(t, 0);
    let write = choose|t: Seq<char>| #[trigger]
        page::rendered(render, PieceView::IoLatTable(r.iolat_pcts[1], "WRITE"@), t) && texts[3]
            == text::right_aligned(t, 0);
    assert(texts[1] =~= read);
    assert(texts[3] =~= write);
    reveal_with_fuel(lists::joined, 6);
    assert(texts.len() == 5);
    assert(text =~= "IO Latency Distribution:\n\n"@ + read + "\n"@ + write + "\n"@);
}

/// A full text of a result is made of an info text of it, the tables of IO
/// latencies and a short text of it. This holds of every renderer.
pub proof fn lemma_full_text<'a, F: 'a, R: Fn(Piece<'a, F>) -> String>(
    render: R,
    r: MemHogResult<F>,
    before: Seq<char>,
    full: Seq<char>,
)
    requires
        adds(full, before, render, result_parts(r, true)),
    ensures
        exists|info: Seq<char>, tables: Seq<char>, short: Seq<char>|
            {
                &&& #[trigger] page::reads(render, info_parts(r), info)
                &&& #[trigger] are_iolat_tables(render, r, tables)
                &&& #[trigger] page::reads(render, result_parts(r, false), short)
                &&& full == before + (info + tables + short)
            },
{
    let text = choose|t: Seq<char>| #[trigger]
        page::reads(render, result_parts(r, true), t) && full == before + t;
    let (details, short) = page::lemma_reads_split(render, info_parts(r) + iolat_parts(r), digest_parts(r), text);
    let (info, tables) = page::lemma_reads_split(render, info_parts(r), iolat_parts(r), details);
    lemma_iolat_text(render, r, tables);
    assert(page::reads(render, result_parts(r, false), short));
}

/// The full text of a result starts with what `format_info` writes. Behind that
/// are the tables of IO latencies, and it ends with what a short
/// `format_result` writes. This is for pieces with one text.
pub proof fn lemma_full_is_info_tables_short<'a, F: 'a, R: Fn(Piece<'a, F>) -> String>(
    render: R,
    r: MemHogResult<F>,
    full: Seq<char>,
    info: Seq<char>,
    short: Seq<char>,
)
    requires
        page::consistent(render),
        adds(full, Seq::empty(), render, result_parts(r, true)),
        adds(info, Seq::empty(), render, info_parts(r)),
        adds(short, Seq::empty(), render, result_parts(r, false)),
    ensures
        exists|tables: Seq<char>| #[trigger]
            are_iolat_tables(render, r, tables) && full == info + tables + short,
{
    let none = Seq::<char>::empty();
    lemma_full_text(render, r, none, full);
    let (info2, tables, short2) = choose|info2: Seq<char>, tables: Seq<char>, short2: Seq<char>|
        {
            &&& #[trigger] page::reads(render, info_parts(r), info2)
            &&& #[trigger] are_iolat_tables(render, r, tables)
            &&& #[trigger] page::reads(render, result_parts(r, false), short2)
            &&& full == none + (info2 + tables + short2)
        };
    assert(none + (info2 + tables + short2) =~= info2 + tables + short2);
    assert(none + info2 =~= info2 && none + short2 =~= short2);
    assert(adds(info2, none, render, info_parts(r)) && adds(short2, none, render, result_parts(r, false)));
    lemma_adds_once(render, info_parts(r), none, info, info2);
    lemma_adds_once(render, result_parts(r, false), none, short, short2);
}

/// Parts of the heading: the names of percentiles, with spaces between them.
proof fn lemma_heading_parts<F>(n: nat)
    requires
        n <= pcts_spec().len(),
    ensures
        forall|i: int|
            0 <= i < heading_parts::<F>(n).len() ==> (#[trigger] heading_parts::<F>(n)[i] == Part::<F>::Text(" "@)
                || heading_parts::<F>(n)[i] matches Part::Cell(PieceView::Percentile(_), _)),
    decreases n,
{
    if n > 1 {
        lemma_heading_parts::<F>((n - 1) as nat);
    }
}

/// Parts of a row: numbers in columns, with spaces behind them.
proof fn lemma_row_parts<F>(table: Map<Seq<char>, F>, n: nat)
    ensures
        forall|i: int|
            0 <= i < row_parts(table, n).len() ==> (#[trigger] row_parts(table, n)[i] == Part::<F>::Text(" "@)
                || (row_parts(table, n)[i] matches Part::Cell(PieceView::Fixed(_, _), width) && width == 5)),
    decreases n,
{
    if n > 0 {
        lemma_row_parts(table, (n - 1) as nat);
    }
}

/// A label that is only in the info.
spec fn is_info_label(s: Seq<char>) -> bool {
    ||| s == "Info: baseline_rps="@
    ||| s == " baseline_lat="@
    ||| s == " vrate="@
    ||| s == "\n      io_usage="@
    ||| s == " io_unused="@
    ||| s == " hog_io_usage="@
    ||| s == " hog_io_loss="@
    ||| s == "\n      hog_bytes="@
    ||| s == " hog_lost_bytes="@
    ||| s == "\n\n"@
}

/// What is only in the info: labels, durations, sizes, and numbers with less
/// than three decimal places that stand in no column.
spec fn is_of_info<F>(part: Part<F>) -> bool {
    match part {
        Part::Text(s) => is_info_label(s),
        Part::Cell(PieceView::Fixed(_, places), width) => places < 3 && width == 0,
        Part::Cell(PieceView::Duration(_), _) => true,
        Part::Cell(PieceView::Size(_), _) => true,
        _ => false,
    }
}

/// No text that a short result is made of is one of the info's labels.
proof fn lemma_labels_differ()
    ensures
        !is_info_label("\nWork Isolation and Request Latency Impact Distributions:\n\n"@),
        !is_info_label("           "@),
        !is_info_label("\n"@),
        !is_info_label("Work Isol  "@),
        !is_info_label("Lat Impact "@),
        !is_info_label(" "@),
        !is_info_label("\nResult: work_isol="@),
        !is_info_label(":"@),
        !is_info_label(" lat_impact="@),
        !is_info_label(" work_csv="@),
{
    reveal_strlit("Info: baseline_rps=");
    reveal_strlit(" baseline_lat=");
    reveal_strlit(" vrate=");
    reveal_strlit("\n      io_usage=");
    reveal_strlit(" io_unused=");
    reveal_strlit(" hog_io_usage=");
    reveal_strlit(" hog_io_loss=");
    reveal_strlit("\n      hog_bytes=");
    reveal_strlit(" hog_lost_bytes=");
    reveal_strlit("\n\n");
    reveal_strlit("\nWork Isolation and Request Latency Impact Distributions:\n\n");
    reveal_strlit("           ");
    reveal_strlit("\n");
    reveal_strlit("Work Isol  ");
    reveal_strlit("Lat Impact ");
    reveal_strlit(" ");
    reveal_strlit("\nResult: work_isol=");
    reveal_strlit(":");
    reveal_strlit(" lat_impact=");
    reveal_strlit(" work_csv=");
    assert("Info: baseline_rps="@.len() == 19);
    assert(" baseline_lat="@.len() == 14);
    assert(" vrate="@.len() == 7);
    assert("\n      io_usage="@.len() == 16);
    assert(" io_unused="@.len() == 11);
    assert(" hog_io_usage="@.len() == 14);
    assert(" hog_io_loss="@.len() == 13);
    assert("\n      hog_bytes="@.len() == 17);
    assert(" hog_lost_bytes="@.len() == 16);
    assert("\n\n"@.len() == 2);
    assert("\nWork Isolation and Request Latency Impact Distributions:\n\n"@.len() == 59);
    assert("           "@.len() == 11);
    assert("\n"@.len() == 1);
    assert("Work Isol  "@.len() == 11);
    assert("Lat Impact "@.len() == 11);
    assert(" "@.len() == 1);
    assert("\nResult: work_isol="@.len() == 19);
    assert(":"@.len() == 1);
    assert(" lat_impact="@.len() == 12);
    assert(" work_csv="@.len() == 10);
    assert("           "@[1] == ' ' && " io_unused="@[1] == 'i');
    assert("Work Isol  "@[0] == 'W' && "Lat Impact "@[0] == 'L' && " io_unused="@[0] == ' ');
    assert("\nResult: work_isol="@[0] == '\n' && "Info: baseline_rps="@[0] == 'I');
}

/// The short text of a result has no part of the info, but for the colons
/// between means and deviations.
pub proof fn lemma_short_has_no_info<F>(r: MemHogResult<F>)
    ensures
        forall|i: int, j: int|
            0 <= i < info_parts(r).len() && 0 <= j < result_parts(r, false).len() && #[trigger] info_parts(r)[i]
                == #[trigger] result_parts(r, false)[j] ==> info_parts(r)[i] == Part::<F>::Text(":"@),
{
    let n = pcts_spec().len();
    let info = info_parts(r);
    let short = digest_parts(r);
    let top: Seq<Part<F>> = seq![
        Part::Cell(PieceView::IoLatSummary(r.iolat_pcts), 0),
        Part::Text("\nWork Isolation and Request Latency Impact Distributions:\n\n"@),
        Part::Text("           "@),
    ];
    let isol: Seq<Part<F>> = seq![Part::Text("\n"@), Part::Text("Work Isol  "@)];
    let impact: Seq<Part<F>> = seq![Part::Text("\n"@), Part::Text("Lat Impact "@)];
    let end: Seq<Part<F>> = seq![Part::Text("\n"@)];
    lemma_labels_differ();
    lemma_heading_parts::<F>(n);
    lemma_row_parts(r.work_isol_pcts@, n);
    lemma_row_parts(r.lat_impact_pcts@, n);
    assert forall|i: int| 0 <= i < info.len() implies #[trigger] info[i] == Part::<F>::Text(":"@) || is_of_info(info[i]) by {
    }
    assert forall|j: int| 0 <= j < short.len() implies !is_of_info(#[trigger] short[j]) by {
        let a = top.len() as int;
        let b = a + heading_parts::<F>(n).len();
        let c = b + isol.len();
        let d = c + row_parts(r.work_isol_pcts@, n).len();
        let e = d + impact.len();
        let f = e + row_parts(r.lat_impact_pcts@, n).len();
        let g = f + end.len();
        if j < a {
            assert(short[j] == top[j]);
        } else if j < b {
            assert(short[j] == heading_parts::<F>(n)[j - a]);
        } else if j < c {
            assert(short[j] == isol[j - b]);
        } else if j < d {
            assert(short[j] == row_parts(r.work_isol_pcts@, n)[j - c]);
        } else if j < e {
            assert(short[j] == impact[j - d]);
        } else if j < f {
            assert(short[j] == row_parts(r.lat_impact_pcts@, n)[j - e]);
        } else if j < g {
            assert(short[j] == end[j - f]);
        } else {
            assert(short[j] == bottom_parts(r)[j - g]);
        }
    }
}

/// What is written behind a text is one text, for pieces with one text.
pub proof fn lemma_adds_once<'a, F: 'a, R: Fn(Piece<'a, F>) -> String>(
    render: R,
    parts: Seq<Part<F>>,
    before: Seq<char>,
    out: Seq<char>,
    out2: Seq<char>,
)
    requires
        page::consistent(render),
        adds(out, before, render, parts),
        adds(out2, before, render, parts),
    ensures
        out == out2,
{
    let t = choose|t: Seq<char>| #[trigger] page::reads(render, parts, t) && out == before + t;
    let t2 = choose|t: Seq<char>| #[trigger] page::reads(render, parts, t) && out2 == before + t;
    page::lemma_reads_once(render, parts, t, t2);
}

/// `out` is `before` with text behind it that looks like the parts.
pub open spec fn adds<'a, F: 'a, R: Fn(Piece<'a, F>) -> String>(
    out: Seq<char>,
    before: Seq<char>,
    render: R,
    parts: Seq<Part<F>>,
) -> bool {
    exists|t: Seq<char>| #[trigger] page::reads(render, parts, t) && out == before + t
}

impl<'a, 'r, F: Copy + 'a, R: Fn(Piece<'a, F>) -> String> Page<'r, F, R> {
    /// The page `self` with more parts.
    pub(crate) open spec fn grown(self, before: Self, parts: Seq<Part<F>>) -> bool {
        &&& self.wf()
        &&& self.render == before.render
        &&& self.parts@ == before.parts@ + parts
    }

    fn put_params(&mut self, mh: &MemHog<F>)
        requires
            old(self).wf(),
        ensures
            final(self).grown(*old(self), params_parts(*mh)),
    {
        let mut loops = String::new();
        push_decimal(&mut loops, mh.loops as u64);
        assert(loops@ =~= text::decimal(mh.loops as nat));
        let speed = mh.speed.to_string();
        self.put("Params: loops=");
        self.put(loops.as_str());
        self.put(" load=");
        self.cell(Piece::Plain(mh.load), 0);
        self.put(" speed=");
        self.put(speed.as_str());
        self.put("\n");
        assert(self.parts@ =~= old(self).parts@ + params_parts(*mh));
    }

    fn put_info(&mut self, r: &'a MemHogResult<F>)
        requires
            old(self).wf(),
        ensures
            final(self).grown(*old(self), info_parts(*r)),
    {
        self.put("Info: baseline_rps=");
        self.cell(Piece::Fixed(r.base_rps, 2), 0);
        self.put(":");
        self.cell(Piece::Fixed(r.base_rps_stdev, 2), 0);
        self.put(" baseline_lat=");
        self.cell(Piece::Duration(r.base_lat), 0);
        self.put(":");
        self.cell(Piece::Duration(r.base_lat_stdev), 0);
        self.put(" vrate=");
        self.cell(Piece::Fixed(r.vrate, 2), 0);
        self.put(":");
        self.cell(Piece::Fixed(r.vrate_stdev, 2), 0);
        self.put("\n      io_usage=");
        self.cell(Piece::Fixed(r.io_usage, 1), 0);
        self.put(" io_unused=");
        self.cell(Piece::Fixed(r.io_unused, 1), 0);
        self.put(" hog_io_usage=");
        self.cell(Piece::Fixed(r.hog_io_usage, 1), 0);
        self.put(" hog_io_loss=");
        self.cell(Piece::Fixed(r.hog_io_loss, 1), 0);
        self.put("\n      hog_bytes=");
        self.cell(Piece::Size(r.hog_bytes), 0);
        self.put(" hog_lost_bytes=");
        self.cell(Piece::Size(r.hog_lost_bytes), 0);
        self.put("\n\n");
        assert(self.parts@ =~= old(self).parts@ + info_parts(*r));
    }

    fn put_iolat(&mut self, r: &'a MemHogResult<F>)
        requires
            old(self).wf(),
        ensures
            final(self).grown(*old(self), iolat_parts(*r)),
    {
        self.put("IO Latency Distribution:\n\n");
        self.cell(Piece::IoLatTable(&r.iolat_pcts[0], "READ"), 0);
        self.put("\n");
        self.cell(Piece::IoLatTable(&r.iolat_pcts[1], "WRITE"), 0);
        self.put("\n");
        assert(self.parts@ =~= old(self).parts@ + iolat_parts(*r));
    }

    fn put_heading(&mut self)
        requires
            old(self).wf(),
        ensures
            final(self).grown(*old(self), heading_parts(pcts_spec().len())),
    {
        let names = pcts();
        let ghost start = self.parts@;
        let mut i: usize = 0;
        assert(start + heading_parts(0) =~= start);
        while i < names.len()
            invariant
                i <= names@.len(),
                names@.map_values(|s: &'static str| s@) == pcts_spec(),
                self.wf(),
                self.render == old(self).render,
                self.parts@ == start + heading_parts(i as nat),
            decreases names@.len() - i,
        {
            if i > 0 {
                self.put(" ");
            }
            assert(names@.map_values(|s: &'static str| s@)[i as int] == names@[i as int]@);
            self.cell(Piece::Percentile(names[i]), 5);
            i += 1;
            assert(self.parts@ =~= start + heading_parts(i as nat));
        }
        assert(names@.map_values(|s: &'static str| s@).len() == i);
    }

    fn put_row(&mut self, table: &StrMap<F>)
        requires
            old(self).wf(),
            has_pcts(table@),
        ensures
            final(self).grown(*old(self), row_parts(table@, pcts_spec().len())),
    {
        let names = pcts();
        let ghost start = self.parts@;
        let mut i: usize = 0;
        assert(start + row_parts(table@, 0) =~= start);
        while i < names.len()
            invariant
                i <= names@.len(),
                names@.map_values(|s: &'static str| s@) == pcts_spec(),
                has_pcts(table@),
                self.wf(),
                self.render == old(self).render,
                self.parts@ == start + row_parts(table@, i as nat),
            decreases names@.len() - i,
        {
            assert(names@.map_values(|s: &'static str| s@)[i as int] == names@[i as int]@);
            assert(table@.contains_key(pcts_spec()[i as int]));
            let x = *table.get(names[i]).unwrap();
            self.cell(Piece::Fixed(x, 2), 5);
            self.put(" ");
            i += 1;
            assert(self.parts@ =~= start + row_parts(table@, i as nat));
        }
        assert(names@.map_values(|s: &'static str| s@).len() == i);
    }

    fn put_bottom(&mut self, r: &'a MemHogResult<F>)
        requires
            old(self).wf(),
        ensures
            final(self).grown(*old(self), bottom_parts(*r)),
    {
        self.put("\nResult: work_isol=");
        self.cell(Piece::Fixed(r.work_isol, 3), 0);
        self.put(":");
        self.cell(Piece::Fixed(r.work_isol_stdev, 3), 0);
        self.put(" lat_impact=");
        self.cell(Piece::Fixed(r.lat_impact, 3), 0);
        self.put(":");
        self.cell(Piece::Fixed(r.lat_impact_stdev, 3), 0);
        self.put(" work_csv=");
        self.cell(Piece::Fixed(r.work_csv, 3), 0);
        self.put("\n");
        assert(self.parts@ =~= old(self).parts@ + bottom_parts(*r));
    }

    fn put_digest(&mut self, r: &'a MemHogResult<F>)
        requires
            old(self).wf(),
            showable(*r),
        ensures
            final(self).grown(*old(self), digest_parts(*r)),
    {
        self.cell(Piece::IoLatSummary(&r.iolat_pcts), 0);
        self.put("\nWork Isolation and Request Latency Impact Distributions:\n\n");
        self.put("           ");
        self.put_heading();
        self.put("\n");
        self.put("Work Isol  ");
        self.put_row(&r.work_isol_pcts);
        self.put("\n");
        self.put("Lat Impact ");
        self.put_row(&r.lat_impact_pcts);
        self.put("\n");
        self.put_bottom(r);
        assert(self.parts@ =~= old(self).parts@ + digest_parts(*r));
    }

    pub(crate) fn put_scenario(&mut self, mh: &MemHog<F>, r: &'a MemHogResult<F>, full: bool)
        requires
            old(self).wf(),
            showable(*r),
        ensures
            final(self).grown(
                *old(self),
                params_parts(*mh) + seq![Part::Text("\n"@)] + result_parts(*r, full),
            ),
    {
        self.put_params(mh);
        self.put("\n");
        self.put_result(r, full);
        assert(self.parts@ =~= old(self).parts@ + (params_parts(*mh) + seq![Part::Text("\n"@)] + result_parts(
            *r,
            full,
        )));
    }

    pub(crate) fn put_result(&mut self, r: &'a MemHogResult<F>, full: bool)
        requires
            old(self).wf(),
            showable(*r),
        ensures
            final(self).grown(*old(self), result_parts(*r, full)),
    {
        if full {
            self.put_info(r);
            self.put_iolat(r);
        }
        self.put_digest(r);
        assert(self.parts@ =~= old(self).parts@ + result_parts(*r, full));
    }
}

impl<F> MemHogResult<F> {
    /// Whether the result has all that is shown of it.
    pub fn is_showable(&self) -> (r: bool)
        ensures
            r == showable(*self),
    {
        has_all_pcts(&self.work_isol_pcts) && has_all_pcts(&self.lat_impact_pcts)
    }
}

impl<F: Copy> MemHog<F> {
    /// Writes the parameters of the scenario.
    pub fn format_params<'a, R: Fn(Piece<'a, F>) -> String>(&self, out: &mut String, render: &R) where F: 'a
        requires
            page::renders(*render),
        ensures
            adds(final(out)@, old(out)@, *render, params_parts(*self)),
    {
        let mut page = Page::new(render);
        page.put_params(self);
        assert(page.parts@ =~= params_parts(*self));
        out.append(page.text.as_str());
    }

    /// Writes the baseline, the IO costs and the sizes of a result.
    pub fn format_info<'a, R: Fn(Piece<'a, F>) -> String>(out: &mut String, result: &'a MemHogResult<F>, render: &R)
        requires
            page::renders(*render),
        ensures
            adds(final(out)@, old(out)@, *render, info_parts(*result)),
    {
        let mut page = Page::new(render);
        page.put_info(result);
        assert(page.parts@ =~= info_parts(*result));
        out.append(page.text.as_str());
    }

    /// Writes a result, in full or without the details.
    pub fn format_result<'a, R: Fn(Piece<'a, F>) -> String>(
        out: &mut String,
        result: &'a MemHogResult<F>,
        full: bool,
        render: &R,
    )
        requires
            page::renders(*render),
            showable(*result),
        ensures
            adds(final(out)@, old(out)@, *render, result_parts(*result, full)),
    {
        let mut page = Page::new(render);
        page.put_result(result, full);
        assert(page.parts@ =~= result_parts(*result, full));
        out.append(page.text.as_str());
    }
}

} // verus!
