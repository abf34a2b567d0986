//! Text with places in it that the caller fills.

use vstd::prelude::*;
use vstd::string::*;

use crate::lists;
use crate::strmap::StrMap;
use crate::text::{self, push_right_aligned};

verus! {

/// Something to be shown whose text the caller decides.
pub enum Piece<'a, F> {
    /// A ratio, as a percentage.
    Pct(F),
    /// A ratio, as a percentage, with a dash for nothing.
    PctDashed(F),
    /// A duration in seconds.
    Duration(F),
    /// A number of bytes.
    Size(u64),
    /// A number with as many decimal places as given.
    Fixed(F, usize),
    /// A number as it is.
    Plain(F),
    /// The heading of a percentile column.
    Percentile(&'a str),
    /// A title with a line under it, made of the given character.
    Underlined(String, &'a str),
    /// The distribution of IO latencies, under the given title.
    IoLatTable(&'a StrMap<StrMap<F>>, &'a str),
    /// The digest of the distributions of read and write latencies.
    IoLatSummary(&'a [StrMap<StrMap<F>>; 2]),
}

/// A [`Piece`] with strings as sequences of characters.
pub enum PieceView<F> {
    Pct(F),
    PctDashed(F),
    Duration(F),
    Size(u64),
    Fixed(F, usize),
    Plain(F),
    Percentile(Seq<char>),
    Underlined(Seq<char>, Seq<char>),
    IoLatTable(StrMap<StrMap<F>>, Seq<char>),
    IoLatSummary([StrMap<StrMap<F>>; 2]),
}

impl<'a, F> View for Piece<'a, F> {
    type V = PieceView<F>;

    open spec fn view(&self) -> PieceView<F> {
        match *self {
            Piece::Pct(x) => PieceView::Pct(x),
            Piece::PctDashed(x) => PieceView::PctDashed(x),
            Piece::Duration(x) => PieceView::Duration(x),
            Piece::Size(n) => PieceView::Size(n),
            Piece::Fixed(x, d) => PieceView::Fixed(x, d),
            Piece::Plain(x) => PieceView::Plain(x),
            Piece::Percentile(p) => PieceView::Percentile(p@),
            Piece::Underlined(s, c) => PieceView::Underlined(s@, c@),
            Piece::IoLatTable(t, s) => PieceView::IoLatTable(*t, s@),
            Piece::IoLatSummary(t) => PieceView::IoLatSummary(*t),
        }
    }
}

/// `render` takes every piece.
pub open spec fn renders<'a, F: 'a, R: Fn(Piece<'a, F>) -> String>(render: R) -> bool {
    forall|p: Piece<'a, F>| call_requires(render, (p,))
}

/// `text` is what `render` may make of a piece.
pub open spec fn rendered<'a, F: 'a, R: Fn(Piece<'a, F>) -> String>(
    render: R,
    piece: PieceView<F>,
    text: Seq<char>,
) -> bool {
    exists|p: Piece<'a, F>, s: String| p@ == piece && #[trigger] call_ensures(render, (p,), s) && s@ == text
}

/// `render` has one text for each piece.
pub open spec fn consistent<'a, F: 'a, R: Fn(Piece<'a, F>) -> String>(render: R) -> bool {
    forall|piece: PieceView<F>, s: Seq<char>, t: Seq<char>| #[trigger]
        rendered(render, piece, s) && #[trigger] rendered(render, piece, t) ==> s == t
}

/// A part of a page: fixed text, or a piece aligned to the right in a column.
pub enum Part<F> {
    Text(Seq<char>),
    Cell(PieceView<F>, nat),
}

/// `text` is what a part may look like.
pub open spec fn part_reads<'a, F: 'a, R: Fn(Piece<'a, F>) -> String>(
    render: R,
    part: Part<F>,
    text: Seq<char>,
) -> bool {
    match part {
        Part::Text(s) => text == s,
        Part::Cell(piece, width) => exists|t: Seq<char>| #[trigger]
            rendered(render, piece, t) && text == text::right_aligned(t, width),
    }
}

/// Each of `texts` is what the part at its place may look like.
pub open spec fn all_read<'a, F: 'a, R: Fn(Piece<'a, F>) -> String>(
    render: R,
    parts: Seq<Part<F>>,
    texts: Seq<Seq<char>>,
) -> bool {
    &&& texts.len() == parts.len()
    &&& forall|i: int| 0 <= i < parts.len() ==> #[trigger] part_reads(render, parts[i], texts[i])
}

/// `text` is what the parts, one behind the other, may look like.
pub open spec fn reads<'a, F: 'a, R: Fn(Piece<'a, F>) -> String>(
    render: R,
    parts: Seq<Part<F>>,
    text: Seq<char>,
) -> bool {
    exists|texts: Seq<Seq<char>>| #[trigger] all_read(render, parts, texts) && text == lists::joined(texts)
}

/// What two lists of parts look like one behind the other.
pub proof fn lemma_reads_append<'a, F: 'a, R: Fn(Piece<'a, F>) -> String>(
    render: R,
    a: Seq<Part<F>>,
    b: Seq<Part<F>>,
    s: Seq<char>,
    t: Seq<char>,
)
    requires
        reads(render, a, s),
        reads(render, b, t),
    ensures
        reads(render, a + b, s + t),
{
    let x = choose|x: Seq<Seq<char>>| #[trigger] all_read(render, a, x) && s == lists::joined(x);
    let y = choose|y: Seq<Seq<char>>| #[trigger] all_read(render, b, y) && t == lists::joined(y);
    lists::lemma_joined_append(x, y);
    assert(all_read(render, a + b, x + y)) by {
        assert forall|i: int| 0 <= i < (a + b).len() implies #[trigger] part_reads(render, (a + b)[i], (x + y)[i]) by {
            if i < a.len() {
                assert(part_reads(render, a[i], x[i]));
            } else {
                assert(part_reads(render, b[i - a.len()], y[i - a.len()]));
            }
        }
    }
}

/// What two lists of parts look like can be told apart again.
pub proof fn lemma_reads_split<'a, F: 'a, R: Fn(Piece<'a, F>) -> String>(
    render: R,
    a: Seq<Part<F>>,
    b: Seq<Part<F>>,
    text: Seq<char>,
) -> (r: (Seq<char>, Seq<char>))
    requires
        reads(render, a + b, text),
    ensures
        reads(render, a, r.0),
        reads(render, b, r.1),
        text == r.0 + r.1,
{
    let texts = choose|texts: Seq<Seq<char>>| #[trigger] all_read(render, a + b, texts) && text == lists::joined(texts);
    let x = texts.take(a.len() as int);
    let y = texts.skip(a.len() as int);
    assert(texts =~= x + y);
    lists::lemma_joined_append(x, y);
    assert forall|i: int| 0 <= i < a.len() implies #[trigger] part_reads(render, a[i], x[i]) by {
        assert(part_reads(render, (a + b)[i], texts[i]));
    }
    assert forall|i: int| 0 <= i < b.len() implies #[trigger] part_reads(render, b[i], y[i]) by {
        assert(part_reads(render, (a + b)[i + a.len()], texts[i + a.len()]));
    }
    assert(all_read(render, a, x) && all_read(render, b, y));
    (lists::joined(x), lists::joined(y))
}

/// Parts look one way only, if each piece has one text.
pub proof fn lemma_reads_once<'a, F: 'a, R: Fn(Piece<'a, F>) -> String>(
    render: R,
    parts: Seq<Part<F>>,
    s: Seq<char>,
    t: Seq<char>,
)
    requires
        consistent(render),
        reads(render, parts, s),
        reads(render, parts, t),
    ensures
        s == t,
{
    let x = choose|x: Seq<Seq<char>>| #[trigger] all_read(render, parts, x) && s == lists::joined(x);
    let y = choose|y: Seq<Seq<char>>| #[trigger] all_read(render, parts, y) && t == lists::joined(y);
    assert forall|i: int| 0 <= i < parts.len() implies x[i] == y[i] by {
        assert(part_reads(render, parts[i], x[i]));
        assert(part_reads(render, parts[i], y[i]));
    }
    assert(x =~= y);
}

/// What one part looks like on its own.
proof fn lemma_reads_one<'a, F: 'a, R: Fn(Piece<'a, F>) -> String>(render: R, part: Part<F>, text: Seq<char>)
    requires
        part_reads(render, part, text),
    ensures
        reads(render, seq![part], text),
{
    assert(all_read(render, seq![part], seq![text]));
    assert(seq![text].drop_last() =~= Seq::<Seq<char>>::empty());
    assert(lists::joined(Seq::<Seq<char>>::empty()) =~= Seq::<char>::empty());
    assert(lists::joined(seq![text]) =~= text);
}

/// Text under construction, with the parts that it is made of.
pub(crate) struct Page<'r, F, R> {
    pub render: &'r R,
    pub text: String,
    pub parts: Ghost<Seq<Part<F>>>,
}

impl<'a, 'r, F: 'a, R: Fn(Piece<'a, F>) -> String> Page<'r, F, R> {
    /// The text is what the parts look like.
    pub(crate) open spec fn wf(self) -> bool {
        &&& renders(*self.render)
        &&& reads(*self.render, self.parts@, self.text@)
    }

    /// The page `self` with one more part.
    pub(crate) open spec fn extended(self, before: Self, part: Part<F>) -> bool {
        &&& self.wf()
        &&& self.render == before.render
        &&& self.parts@ == before.parts@.push(part)
    }

    /// The empty page.
    pub(crate) fn new(render: &'r R) -> (r: Self)
        requires
            renders(*render),
        ensures
            r.wf(),
            r.render == render,
            r.parts@ == Seq::<Part<F>>::empty(),
    {
        proof {
            assert(all_read(*render, Seq::<Part<F>>::empty(), Seq::<Seq<char>>::empty()));
        }
        Page { render, text: String::new(), parts: Ghost(Seq::empty()) }
    }

    /// Adds fixed text.
    pub(crate) fn put(&mut self, s: &str)
        requires
            old(self).wf(),
        ensures
            final(self).extended(*old(self), Part::Text(s@)),
    {
        self.text.append(s);
        proof {
            let parts = self.parts@;
            let part = Part::Text(s@);
            lemma_reads_one(*self.render, part, s@);
            lemma_reads_append(*self.render, parts, seq![part], old(self).text@, s@);
            self.parts@ = parts.push(part);
            assert(self.parts@ =~= parts + seq![part]);
        }
    }

    /// Adds a piece in a column of the given width.
    pub(crate) fn cell(&mut self, piece: Piece<'a, F>, width: usize)
        requires
            old(self).wf(),
        ensures
            final(self).extended(*old(self), Part::Cell(piece@, width as nat)),
    {
        let ghost want = piece@;
        let s = (self.render)(piece);
        push_right_aligned(&mut self.text, s.as_str(), width);
        proof {
            assert(rendered(*self.render, want, s@));
            let parts = self.parts@;
            let part = Part::Cell(want, width as nat);
            let text = text::right_aligned(s@, width as nat);
            assert(part_reads(*self.render, part, text));
            lemma_reads_one(*self.render, part, text);
            lemma_reads_append(*self.render, parts, seq![part], old(self).text@, text);
            self.parts@ = parts.push(part);
            assert(self.parts@ =~= parts + seq![part]);
        }
    }
}

/// What one part looks like. Text looks like itself. A piece is at the right of
/// its column, with spaces before it; one that is too long for the column is
/// not cut.
pub proof fn lemma_part_looks<'a, F: 'a, R: Fn(Piece<'a, F>) -> String>(render: R, part: Part<F>, text: Seq<char>)
    requires
        reads(render, seq![part], text),
    ensures
        match part {
            Part::Text(s) => text == s,
            Part::Cell(piece, width) => exists|t: Seq<char>|
                {
                    &&& #[trigger] rendered(render, piece, t)
                    &&& text.len() == (if t.len() < width { width } else { t.len() })
                    &&& text.skip(text.len() - t.len()) == t
                    &&& forall|i: int| 0 <= i < text.len() - t.len() ==> #[trigger] text[i] == ' '
                },
        },
{
    let texts = choose|texts: Seq<Seq<char>>| #[trigger]
        all_read(render, seq![part], texts) && text == lists::joined(texts);
    assert(part_reads(render, seq![part][0], texts[0]));
    assert(texts.drop_last() =~= Seq::<Seq<char>>::empty());
    assert(lists::joined(texts.drop_last()) =~= Seq::<char>::empty());
    assert(text =~= texts[0]);
    if let Part::Cell(piece, width) = part {
        let t = choose|t: Seq<char>| #[trigger]
            rendered(render, piece, t) && text == text::right_aligned(t, width);
        assert(text.skip(text.len() - t.len()) =~= t);
    }
}

/// What a renderer makes of a piece is what the piece may look like, and nothing
/// else is. This is for the pieces that are a quantity or a number of bytes.
pub proof fn lemma_rendered<'a, F: 'a, R: Fn(Piece<'a, F>) -> String>(
    render: R,
    x: F,
    d: usize,
    n: u64,
    text: Seq<char>,
)
    ensures
        rendered(render, PieceView::Pct(x), text) <==> exists|s: String|
            s@ == text && #[trigger] call_ensures(render, (Piece::Pct(x),), s),
        rendered(render, PieceView::PctDashed(x), text) <==> exists|s: String|
            s@ == text && #[trigger] call_ensures(render, (Piece::PctDashed(x),), s),
        rendered(render, PieceView::Duration(x), text) <==> exists|s: String|
            s@ == text && #[trigger] call_ensures(render, (Piece::Duration(x),), s),
        rendered(render, PieceView::Size(n), text) <==> exists|s: String|
            s@ == text && #[trigger] call_ensures(render, (Piece::Size(n),), s),
        rendered(render, PieceView::Fixed(x, d), text) <==> exists|s: String|
            s@ == text && #[trigger] call_ensures(render, (Piece::Fixed(x, d),), s),
        rendered(render, PieceView::Plain(x), text) <==> exists|s: String|
            s@ == text && #[trigger] call_ensures(render, (Piece::Plain(x),), s),
{
    lemma_rendered_as(render, Piece::Pct(x), text);
    lemma_rendered_as(render, Piece::PctDashed(x), text);
    lemma_rendered_as(render, Piece::Duration(x), text);
    lemma_rendered_as(render, Piece::Size(n), text);
    lemma_rendered_as(render, Piece::Fixed(x, d), text);
    lemma_rendered_as(render, Piece::Plain(x), text);
}

/// A piece that looks like no other one looks like what a renderer makes of it.
proof fn lemma_rendered_as<'a, F: 'a, R: Fn(Piece<'a, F>) -> String>(render: R, p: Piece<'a, F>, text: Seq<char>)
    requires
        forall|q: Piece<'a, F>| #[trigger] q@ == p@ ==> q == p,
    ensures
        rendered(render, p@, text) <==> exists|s: String| s@ == text && #[trigger] call_ensures(render, (p,), s),
{
    if rendered(render, p@, text) {
        let (q, s) = choose|q: Piece<'a, F>, s: String|
            q@ == p@ && #[trigger] call_ensures(render, (q,), s) && s@ == text;
        assert(q == p);
    }
}

} // verus!
