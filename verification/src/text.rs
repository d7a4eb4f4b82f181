//! Text forms of matrix elements, and the decimal text of integers.

use vstd::prelude::*;
use vstd::string::StringExecFns;

verus! {

/// An element that has a text form.
pub trait Text {
    /// The text form of the element.
    spec fn text(&self) -> Seq<char>;

    /// Writes the element out as text.
    fn to_text(&self) -> (s: String)
        ensures
            s@ == self.text(),
    ;
}

/// The character of the decimal digit `d`.
pub open spec fn digit(d: nat) -> char {
    if d == 0 {
        '0'
    } else if d == 1 {
        '1'
    } else if d == 2 {
        '2'
    } else if d == 3 {
        '3'
    } else if d == 4 {
        '4'
    } else if d == 5 {
        '5'
    } else if d == 6 {
        '6'
    } else if d == 7 {
        '7'
    } else if d == 8 {
        '8'
    } else {
        '9'
    }
}

/// The decimal digits of `n`, most significant first, without leading
/// zeros.
pub open spec fn digits(n: nat) -> Seq<char>
    decreases n,
{
    if n < 10 {
        seq![digit(n)]
    } else {
        digits(n / 10).push(digit(n % 10))
    }
}

/// The decimal text of `i`, with a leading minus sign when it is negative.
pub open spec fn decimal(i: int) -> Seq<char> {
    if i < 0 {
        seq!['-'] + digits((-i) as nat)
    } else {
        digits(i as nat)
    }
}

/// The `parts` in order, with `sep` between each two neighbours; empty when
/// there are no parts.
pub open spec fn join(parts: Seq<Seq<char>>, sep: char) -> Seq<char>
    decreases parts.len(),
{
    if parts.len() == 0 {
        Seq::empty()
    } else if parts.len() == 1 {
        parts[0]
    } else {
        join(parts.drop_last(), sep).push(sep) + parts.last()
    }
}

/// How often `c` occurs in `s`.
pub open spec fn count(s: Seq<char>, c: char) -> nat
    decreases s.len(),
{
    if s.len() == 0 {
        0
    } else {
        count(s.drop_last(), c) + if s.last() == c {
            1nat
        } else {
            0nat
        }
    }
}

/// The pieces of `s` between occurrences of `sep`, in order. A text without
/// `sep` is one piece; an empty text is one empty piece.
pub open spec fn split(s: Seq<char>, sep: char) -> Seq<Seq<char>>
    decreases s.len(),
{
    if s.len() == 0 {
        seq![Seq::empty()]
    } else {
        let before = split(s.drop_last(), sep);
        if s.last() == sep {
            before.push(Seq::empty())
        } else {
            before.drop_last().push(before.last().push(s.last()))
        }
    }
}

/// Joining one part more appends the separator and the part, except that
/// the first part stands alone.
pub proof fn lemma_join_next(parts: Seq<Seq<char>>, sep: char, k: int)
    requires
        0 <= k < parts.len(),
    ensures
        join(parts.take(k + 1), sep) == if k == 0 {
            parts[0]
        } else {
            join(parts.take(k), sep).push(sep) + parts[k]
        },
{
    assert(parts.take(k + 1).drop_last() =~= parts.take(k));
}

/// Occurrences in a concatenation are those in its two halves together.
pub proof fn lemma_count_concat(s: Seq<char>, t: Seq<char>, c: char)
    ensures
        count(s + t, c) == count(s, c) + count(t, c),
    decreases t.len(),
{
    if t.len() > 0 {
        assert((s + t).drop_last() =~= s + t.drop_last());
        lemma_count_concat(s, t.drop_last(), c);
    }
}

/// Where no part holds `c`, the joined text holds `c` only as a separator:
/// once between each two neighbours if `c` is the separator, and not at all
/// otherwise.
pub proof fn lemma_count_join(parts: Seq<Seq<char>>, sep: char, c: char)
    requires
        forall|i: int| 0 <= i < parts.len() ==> count(#[trigger] parts[i], c) == 0,
    ensures
        count(join(parts, sep), c) == if sep == c && parts.len() > 0 {
            parts.len() - 1
        } else {
            0
        },
    decreases parts.len(),
{
    if parts.len() >= 2 {
        let head = join(parts.drop_last(), sep);
        lemma_count_join(parts.drop_last(), sep, c);
        assert(head.push(sep).drop_last() =~= head);
        lemma_count_concat(head.push(sep), parts.last(), c);
    }
}

/// A text always splits into at least one piece.
pub proof fn lemma_split_nonempty(s: Seq<char>, sep: char)
    ensures
        split(s, sep).len() >= 1,
    decreases s.len(),
{
    if s.len() > 0 {
        lemma_split_nonempty(s.drop_last(), sep);
    }
}

/// Appending a text without the separator lengthens the last piece and
/// leaves the others as they are.
pub proof fn lemma_split_append(s: Seq<char>, t: Seq<char>, sep: char)
    requires
        count(t, sep) == 0,
    ensures
        split(s + t, sep) == split(s, sep).drop_last().push(split(s, sep).last() + t),
    decreases t.len(),
{
    lemma_split_nonempty(s, sep);
    let pieces = split(s, sep);
    if t.len() > 0 {
        let init = t.drop_last();
        assert((s + t).drop_last() =~= s + init);
        lemma_split_append(s, init, sep);
        let before = split(s + init, sep);
        assert(before.last().push(t.last()) =~= pieces.last() + t);
    }
}

/// Splitting a joined text at the separator gives the parts back, where
/// there is at least one part and no part holds the separator.
pub proof fn lemma_split_join(parts: Seq<Seq<char>>, sep: char)
    requires
        parts.len() >= 1,
        forall|i: int| 0 <= i < parts.len() ==> count(#[trigger] parts[i], sep) == 0,
    ensures
        split(join(parts, sep), sep) == parts,
    decreases parts.len(),
{
    let empty = Seq::<char>::empty();
    if parts.len() == 1 {
        lemma_split_append(empty, parts[0], sep);
    } else {
        let init = parts.drop_last();
        let head = join(init, sep);
        lemma_split_join(init, sep);
        assert(head.push(sep).drop_last() =~= head);
        lemma_split_append(head.push(sep), parts.last(), sep);
    }
}

/// Appending one character adds one occurrence if it is `c`, and none
/// otherwise.
pub proof fn lemma_count_push(s: Seq<char>, x: char, c: char)
    ensures
        count(s.push(x), c) == count(s, c) + if x == c {
            1nat
        } else {
            0nat
        },
{
    assert(s.push(x).drop_last() =~= s);
}

/// The decimal digits of a number hold neither a tab nor a newline.
pub proof fn lemma_digits_hold_no_separator(n: nat, c: char)
    requires
        c == '\t' || c == '\n',
    ensures
        count(digits(n), c) == 0,
    decreases n,
{
    if n < 10 {
        lemma_count_push(Seq::empty(), digit(n), c);
        assert(seq![digit(n)] =~= Seq::<char>::empty().push(digit(n)));
    } else {
        lemma_digits_hold_no_separator(n / 10, c);
        lemma_count_push(digits(n / 10), digit(n % 10), c);
    }
}

/// The decimal text of an integer holds neither a tab nor a newline.
pub proof fn lemma_decimal_holds_no_separator(i: int, c: char)
    requires
        c == '\t' || c == '\n',
    ensures
        count(decimal(i), c) == 0,
{
    if i < 0 {
        lemma_digits_hold_no_separator((-i) as nat, c);
        lemma_count_push(Seq::empty(), '-', c);
        assert(seq!['-'] =~= Seq::<char>::empty().push('-'));
        lemma_count_concat(seq!['-'], digits((-i) as nat), c);
    } else {
        lemma_digits_hold_no_separator(i as nat, c);
    }
}

/// The one-character text of the decimal digit `d`.
fn digit_str(d: u64) -> (s: &'static str)
    requires
        d < 10,
    ensures
        s@ == seq![digit(d as nat)],
{
    proof {
        reveal_strlit("0");
        reveal_strlit("1");
        reveal_strlit("2");
        reveal_strlit("3");
        reveal_strlit("4");
        reveal_strlit("5");
        reveal_strlit("6");
        reveal_strlit("7");
        reveal_strlit("8");
        reveal_strlit("9");
    }
    let s = if d == 0 {
        "0"
    } else if d == 1 {
        "1"
    } else if d == 2 {
        "2"
    } else if d == 3 {
        "3"
    } else if d == 4 {
        "4"
    } else if d == 5 {
        "5"
    } else if d == 6 {
        "6"
    } else if d == 7 {
        "7"
    } else if d == 8 {
        "8"
    } else {
        "9"
    };
    s
}

/// Writes out the decimal digits of `n`.
pub fn unsigned_text(n: u64) -> (s: String)
    ensures
        s@ == digits(n as nat),
    decreases n,
{
    if n < 10 {
        String::from_str(digit_str(n))
    } else {
        let mut s = unsigned_text(n / 10);
        s.append(digit_str(n % 10));
        s
    }
}

/// Writes out `i` in decimal.
pub fn signed_text(i: i64) -> (s: String)
    ensures
        s@ == decimal(i as int),
{
    if i < 0 {
        proof {
            reveal_strlit("-");
        }
        let magnitude: u64 = (-(i + 1)) as u64 + 1;
        let mut s = String::from_str("-");
        let d = unsigned_text(magnitude);
        s.append(d.as_str());
        s
    } else {
        unsigned_text(i as u64)
    }
}

impl Text for i32 {
    open spec fn text(&self) -> Seq<char> {
        decimal(*self as int)
    }

    fn to_text(&self) -> (s: String) {
        signed_text(*self as i64)
    }
}

impl Text for i64 {
    open spec fn text(&self) -> Seq<char> {
        decimal(*self as int)
    }

    fn to_text(&self) -> (s: String) {
        signed_text(*self)
    }
}

impl Text for u32 {
    open spec fn text(&self) -> Seq<char> {
        decimal(*self as int)
    }

    fn to_text(&self) -> (s: String) {
        unsigned_text(*self as u64)
    }
}

impl Text for u64 {
    open spec fn text(&self) -> Seq<char> {
        decimal(*self as int)
    }

    fn to_text(&self) -> (s: String) {
        unsigned_text(*self)
    }
}

impl Text for i8 {
    open spec fn text(&self) -> Seq<char> {
        decimal(*self as int)
    }

    fn to_text(&self) -> (s: String) {
        signed_text(*self as i64)
    }
}

impl Text for i16 {
    open spec fn text(&self) -> Seq<char> {
        decimal(*self as int)
    }

    fn to_text(&self) -> (s: String) {
        signed_text(*self as i64)
    }
}

impl Text for isize {
    open spec fn text(&self) -> Seq<char> {
        decimal(*self as int)
    }

    fn to_text(&self) -> (s: String) {
        signed_text(*self as i64)
    }
}

impl Text for u8 {
    open spec fn text(&self) -> Seq<char> {
        decimal(*self as int)
    }

    fn to_text(&self) -> (s: String) {
        unsigned_text(*self as u64)
    }
}

impl Text for u16 {
    open spec fn text(&self) -> Seq<char> {
        decimal(*self as int)
    }

    fn to_text(&self) -> (s: String) {
        unsigned_text(*self as u64)
    }
}

impl Text for usize {
    open spec fn text(&self) -> Seq<char> {
        decimal(*self as int)
    }

    fn to_text(&self) -> (s: String) {
        unsigned_text(*self as u64)
    }
}

} // verus!
