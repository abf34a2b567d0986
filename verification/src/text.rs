//! Strings: their order, right alignment, and decimal numerals.

use vstd::prelude::*;
use vstd::string::*;

verus! {

broadcast use vstd::string::group_string_axioms;

/// Whether `a` comes before `b` when strings are ordered character by
/// character, a proper prefix first. `String` orders its values this way:
/// UTF-8 keeps the order of the characters.
pub open spec fn precedes(a: Seq<char>, b: Seq<char>) -> bool {
    exists|i: int| #[trigger] splits(a, b, i)
}

/// `a` and `b` agree up to position `i`, and there `a` is the smaller one.
pub open spec fn splits(a: Seq<char>, b: Seq<char>, i: int) -> bool {
    &&& 0 <= i <= a.len()
    &&& i < b.len()
    &&& forall|j: int| 0 <= j < i ==> a[j] == b[j]
    &&& i < a.len() ==> a[i] < b[i]
}

/// No string comes before itself.
pub proof fn lemma_precedes_irreflexive(a: Seq<char>)
    ensures
        !precedes(a, a),
{
}

/// Of two strings at most one comes before the other.
pub proof fn lemma_precedes_asymmetric(a: Seq<char>, b: Seq<char>)
    ensures
        !(precedes(a, b) && precedes(b, a)),
{
    if precedes(a, b) && precedes(b, a) {
        let i = choose|i: int| splits(a, b, i);
        let j = choose|j: int| splits(b, a, j);
        if i < j {
            assert(b[i] == a[i]);
        } else if j < i {
            assert(a[j] == b[j]);
        }
    }
}

/// The order of strings is transitive.
pub proof fn lemma_precedes_transitive(a: Seq<char>, b: Seq<char>, c: Seq<char>)
    requires
        precedes(a, b),
        precedes(b, c),
    ensures
        precedes(a, c),
{
    let i = choose|i: int| splits(a, b, i);
    let j = choose|j: int| splits(b, c, j);
    let k = if i < j { i } else { j };
    assert(splits(a, c, k));
}

/// A string comes before every longer one that starts with it.
pub proof fn lemma_precedes_longer(a: Seq<char>, b: Seq<char>)
    requires
        b.len() > 0,
    ensures
        precedes(a, a + b),
{
    assert(splits(a, a + b, a.len() as int));
}

/// Where strings first differ, the one with the lesser character comes first,
/// whatever there is behind.
pub proof fn lemma_precedes_where_they_differ(p: Seq<char>, c: char, a: Seq<char>, d: char, b: Seq<char>)
    requires
        c < d,
    ensures
        precedes(p + seq![c] + a, p + seq![d] + b),
{
    assert(splits(p + seq![c] + a, p + seq![d] + b, p.len() as int));
}

/// Of two different strings, one comes before the other.
pub proof fn lemma_precedes_total(a: Seq<char>, b: Seq<char>)
    ensures
        a == b || precedes(a, b) || precedes(b, a),
{
    lemma_total_from(a, b, 0);
}

/// Strings that agree up to a position are the same or in order.
proof fn lemma_total_from(a: Seq<char>, b: Seq<char>, i: int)
    requires
        0 <= i <= a.len(),
        i <= b.len(),
        forall|j: int| 0 <= j < i ==> a[j] == b[j],
    ensures
        a == b || precedes(a, b) || precedes(b, a),
    decreases a.len() - i,
{
    if i == a.len() && i == b.len() {
        assert(a =~= b);
    } else if i == a.len() || (i < b.len() && a[i] < b[i]) {
        assert(splits(a, b, i));
    } else if i == b.len() || b[i] < a[i] {
        assert(splits(b, a, i));
    } else {
        lemma_total_from(a, b, i + 1);
    }
}

/// How one string stands to another.
#[derive(Clone, Copy, Debug, PartialEq, Eq, Structural)]
pub enum Place {
    Before,
    Same,
    After,
}

/// Tells on which side of `b` the string `a` stands.
pub fn place(a: &str, b: &str) -> (r: Place)
    ensures
        match r {
            Place::Before => precedes(a@, b@),
            Place::Same => a@ == b@,
            Place::After => precedes(b@, a@),
        },
{
    let mut left = a.chars();
    let mut right = b.chars();
    let ghost mut i: int = 0;
    loop
        invariant
            0 <= i <= a@.len(),
            i <= b@.len(),
            vstd::std_specs::iter::IteratorSpec::obeys_prophetic_iter_laws(&left),
            vstd::std_specs::iter::IteratorSpec::obeys_prophetic_iter_laws(&right),
            vstd::std_specs::iter::IteratorSpec::remaining(&left) == a@.skip(i),
            vstd::std_specs::iter::IteratorSpec::remaining(&right) == b@.skip(i),
            forall|j: int| 0 <= j < i ==> a@[j] == b@[j],
        decreases a@.len() - i,
    {
        match (left.next(), right.next()) {
            (None, None) => {
                assert(a@ =~= b@);
                return Place::Same;
            },
            (None, Some(_)) => {
                assert(splits(a@, b@, i));
                return Place::Before;
            },
            (Some(_), None) => {
                assert(splits(b@, a@, i));
                return Place::After;
            },
            (Some(x), Some(y)) => {
                if x < y {
                    assert(splits(a@, b@, i));
                    return Place::Before;
                }
                if y < x {
                    assert(splits(b@, a@, i));
                    return Place::After;
                }
                proof {
                    assert(a@.skip(i).drop_first() =~= a@.skip(i + 1));
                    assert(b@.skip(i).drop_first() =~= b@.skip(i + 1));
                    i = i + 1;
                }
            },
        }
    }
}

/// Whether two strings are equal.
pub fn same(a: &str, b: &str) -> (r: bool)
    ensures
        r == (a@ == b@),
{
    let p = place(a, b);
    proof {
        lemma_precedes_irreflexive(a@);
    }
    p == Place::Same
}

/// `s` aligned to the right in a column of `width` characters. A longer
/// string keeps its length.
pub open spec fn right_aligned(s: Seq<char>, width: nat) -> Seq<char> {
    let blanks = if s.len() < width { (width - s.len()) as nat } else { 0 };
    Seq::new(blanks, |i: int| ' ') + s
}

/// Appends `s`, aligned to the right in a column of `width` characters.
pub fn push_right_aligned(out: &mut String, s: &str, width: usize)
    ensures
        final(out)@ == old(out)@ + right_aligned(s@, width as nat),
{
    let len = s.unicode_len();
    let mut col: usize = len;
    let ghost start = out@;
    assert(Seq::new(0, |i: int| ' ') =~= Seq::<char>::empty());
    while col < width
        invariant
            len == s@.len(),
            len <= col,
            col <= width || col == len,
            out@ == start + Seq::new((col - len) as nat, |i: int| ' '),
        decreases width - col,
    {
        proof {
            reveal_strlit(" ");
        }
        out.append(" ");
        col += 1;
        assert(out@ =~= start + Seq::new((col - len) as nat, |i: int| ' '));
    }
    out.append(s);
    assert(out@ =~= start + right_aligned(s@, width as nat));
}

/// The digit character of `d`.
pub open spec fn digit(d: nat) -> char {
    "0123456789"@[d as int]
}

/// The decimal numeral of `n`, without leading zeros.
pub open spec fn decimal(n: nat) -> Seq<char>
    decreases n,
{
    if n < 10 {
        seq![digit(n)]
    } else {
        decimal(n / 10).push(digit(n % 10))
    }
}

/// Appends one digit.
fn push_digit(out: &mut String, d: u64)
    requires
        d < 10,
    ensures
        final(out)@ == old(out)@.push(digit(d as nat)),
{
    proof {
        reveal_strlit("0123456789");
        reveal_strlit("0");
        reveal_strlit("1");
        reveal_strlit("2");
        reveal_strlit("3");
        reveal_strlit("4");
        reveal_strlit("5");
        reveal_strlit("6");
        reveal_strlit("7");
        reveal_strlit("8");
        reveal_strlit("9");
    }
    let s = match d {
        0 => "0",
        1 => "1",
        2 => "2",
        3 => "3",
        4 => "4",
        5 => "5",
        6 => "6",
        7 => "7",
        8 => "8",
        _ => "9",
    };
    out.append(s);
    assert(out@ =~= old(out)@.push(digit(d as nat)));
}

/// Appends the decimal numeral of `n`.
pub fn push_decimal(out: &mut String, n: u64)
    ensures
        final(out)@ == old(out)@ + decimal(n as nat),
    decreases n,
{
    let ghost start = out@;
    if n < 10 {
        push_digit(out, n);
        assert(out@ =~= start + decimal(n as nat));
    } else {
        push_decimal(out, n / 10);
        push_digit(out, n % 10);
        assert(out@ =~= start + decimal(n as nat));
    }
}

} // verus!
