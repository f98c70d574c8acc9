//! Character-level scanning shared by the parsers of tool output.
//!
//! Text is handled as a sequence of characters; a piece of it is named by a
//! half-open span `(lo, hi)` of character positions.
use vstd::prelude::*;
use vstd::std_specs::iter::IteratorSpec;

verus! {

/// Unicode white space, as `char::is_whitespace` decides it.
pub open spec fn is_space(c: char) -> bool {
    let u = c as u32;
    (9 <= u <= 13) || u == 32 || u == 0x85 || u == 0xa0 || u == 0x1680 || (0x2000 <= u
        <= 0x200a) || u == 0x2028 || u == 0x2029 || u == 0x202f || u == 0x205f || u == 0x3000
}

pub open spec fn is_digit(c: char) -> bool {
    '0' <= c <= '9'
}

pub open spec fn digit_value(c: char) -> int {
    c as int - '0' as int
}

/// Spans agree position by position with spec spans.
pub open spec fn spans_eq(v: Seq<(usize, usize)>, sp: Seq<(int, int)>) -> bool {
    &&& v.len() == sp.len()
    &&& forall|k: int| 0 <= k < v.len() ==> (#[trigger] v[k]).0 == sp[k].0 && v[k].1 == sp[k].1
}

/// The lines of `s[start..]` scanned from position `i`, where the current
/// line began at `start`: split at `\n`, with a `\r` just before the `\n`
/// dropped, and no empty line after a final `\n`.
pub open spec fn lines_from(s: Seq<char>, start: int, i: int) -> Seq<(int, int)>
    decreases s.len() - i,
{
    if i >= s.len() {
        if start < s.len() {
            seq![(start, s.len() as int)]
        } else {
            seq![]
        }
    } else if s[i] == '\n' {
        let end = if i > start && s[i - 1] == '\r' {
            i - 1
        } else {
            i
        };
        seq![(start, end)] + lines_from(s, i + 1, i + 1)
    } else {
        lines_from(s, start, i + 1)
    }
}

/// The lines of `s`, as `str::lines` yields them.
pub open spec fn lines_of(s: Seq<char>) -> Seq<(int, int)> {
    lines_from(s, 0, 0)
}

/// The runs of non-space characters in `s[i..hi]`, where a run that is
/// already open began at `start` (`start < 0`: none is open).
pub open spec fn fields_from(s: Seq<char>, hi: int, start: int, i: int) -> Seq<(int, int)>
    decreases hi - i,
{
    if i >= hi {
        if start >= 0 {
            seq![(start, hi)]
        } else {
            seq![]
        }
    } else if is_space(s[i]) {
        if start >= 0 {
            seq![(start, i)] + fields_from(s, hi, -1, i + 1)
        } else {
            fields_from(s, hi, -1, i + 1)
        }
    } else if start >= 0 {
        fields_from(s, hi, start, i + 1)
    } else {
        fields_from(s, hi, i, i + 1)
    }
}

/// The whitespace-separated fields of `s[lo..hi]`, as `str::split_whitespace`
/// yields them.
pub open spec fn fields_of(s: Seq<char>, lo: int, hi: int) -> Seq<(int, int)> {
    fields_from(s, hi, -1, lo)
}

/// The pieces of `s[i..hi]` between separators `sep`, the current piece
/// having begun at `start`.
pub open spec fn pieces_from(s: Seq<char>, hi: int, sep: char, start: int, i: int) -> Seq<
    (int, int),
>
    decreases hi - i,
{
    if i >= hi {
        seq![(start, hi)]
    } else if s[i] == sep {
        seq![(start, i)] + pieces_from(s, hi, sep, i + 1, i + 1)
    } else {
        pieces_from(s, hi, sep, start, i + 1)
    }
}

/// The pieces of `s[lo..hi]` split at `sep`, as `str::split` yields them:
/// always at least one, possibly empty.
pub open spec fn pieces_of(s: Seq<char>, lo: int, hi: int, sep: char) -> Seq<(int, int)> {
    pieces_from(s, hi, sep, lo, lo)
}

/// The first position in `[i, hi)` that is not a space, or `hi`.
pub open spec fn skip_spaces(s: Seq<char>, i: int, hi: int) -> int
    decreases hi - i,
{
    if i >= hi {
        hi
    } else if is_space(s[i]) {
        skip_spaces(s, i + 1, hi)
    } else {
        i
    }
}

/// The end of `s[lo..hi]` once trailing spaces are dropped.
pub open spec fn trim_back(s: Seq<char>, lo: int, hi: int) -> int
    decreases hi - lo,
{
    if hi <= lo {
        lo
    } else if is_space(s[hi - 1]) {
        trim_back(s, lo, hi - 1)
    } else {
        hi
    }
}

/// The span of `s[lo..hi]` without leading and trailing white space, as
/// `str::trim` leaves it.
pub open spec fn trim_of(s: Seq<char>, lo: int, hi: int) -> (int, int) {
    let a = skip_spaces(s, lo, hi);
    (a, trim_back(s, a, hi))
}

pub open spec fn all_digits(s: Seq<char>, lo: int, hi: int) -> bool {
    forall|k: int| lo <= k < hi ==> is_digit(#[trigger] s[k])
}

/// The number that the decimal digits `s[lo..hi]` write.
pub open spec fn digits_value(s: Seq<char>, lo: int, hi: int) -> int
    decreases hi - lo,
{
    if hi <= lo {
        0
    } else {
        digits_value(s, lo, hi - 1) * 10 + digit_value(s[hi - 1])
    }
}

/// Where the digits of `s[lo..hi]` begin: after one optional `+`.
pub open spec fn digits_start(s: Seq<char>, lo: int, hi: int) -> int {
    if lo < hi && s[lo] == '+' {
        lo + 1
    } else {
        lo
    }
}

/// `s[lo..hi]` reads as an unsigned decimal number no larger than `max`, in
/// the form that `str::parse` accepts for unsigned integers.
pub open spec fn decimal_ok(s: Seq<char>, lo: int, hi: int, max: int) -> bool {
    let d = digits_start(s, lo, hi);
    &&& d < hi
    &&& all_digits(s, d, hi)
    &&& digits_value(s, d, hi) <= max
}

/// The value of the decimal number in `s[lo..hi]`.
pub open spec fn decimal_value(s: Seq<char>, lo: int, hi: int) -> int {
    digits_value(s, digits_start(s, lo, hi), hi)
}

/// The number in `s[lo..hi]`, if it reads as a decimal number of at most `max`.
pub open spec fn decimal_of(s: Seq<char>, lo: int, hi: int, max: int) -> Option<int> {
    if decimal_ok(s, lo, hi, max) {
        Some(decimal_value(s, lo, hi))
    } else {
        None
    }
}

/// Every span in `sp` lies within `[lo, hi]`, in order.
pub open spec fn spans_within(sp: Seq<(int, int)>, lo: int, hi: int) -> bool {
    forall|k: int| 0 <= k < sp.len() ==> lo <= (#[trigger] sp[k]).0 <= sp[k].1 <= hi
}

proof fn lemma_lines_within(s: Seq<char>, start: int, i: int)
    requires
        0 <= start <= i <= s.len(),
    ensures
        spans_within(lines_from(s, start, i), start, s.len() as int),
    decreases s.len() - i,
{
    if i < s.len() {
        if s[i] == '\n' {
            lemma_lines_within(s, i + 1, i + 1);
        } else {
            lemma_lines_within(s, start, i + 1);
        }
    }
}

proof fn lemma_fields_within(s: Seq<char>, hi: int, start: int, lo: int, i: int)
    requires
        lo <= i <= hi,
        start < 0 || lo <= start < i,
    ensures
        spans_within(fields_from(s, hi, start, i), lo, hi),
    decreases hi - i,
{
    if i < hi {
        if is_space(s[i]) {
            lemma_fields_within(s, hi, -1, lo, i + 1);
        } else if start >= 0 {
            lemma_fields_within(s, hi, start, lo, i + 1);
        } else {
            lemma_fields_within(s, hi, i, lo, i + 1);
        }
    }
}

proof fn lemma_pieces_within(s: Seq<char>, hi: int, sep: char, start: int, lo: int, i: int)
    requires
        lo <= start <= i <= hi,
    ensures
        spans_within(pieces_from(s, hi, sep, start, i), lo, hi),
        pieces_from(s, hi, sep, start, i).len() >= 1,
    decreases hi - i,
{
    if i < hi {
        if s[i] == sep {
            lemma_pieces_within(s, hi, sep, i + 1, lo, i + 1);
        } else {
            lemma_pieces_within(s, hi, sep, start, lo, i + 1);
        }
    }
}

/// Copies `cs[lo..hi]`.
pub fn copy_span(cs: &Vec<char>, lo: usize, hi: usize) -> (r: Vec<char>)
    requires
        lo <= hi <= cs@.len(),
    ensures
        r@ == cs@.subrange(lo as int, hi as int),
{
    let mut out: Vec<char> = Vec::new();
    let mut i: usize = lo;
    while i < hi
        invariant
            lo <= i <= hi <= cs@.len(),
            out@ == cs@.subrange(lo as int, i as int),
        decreases hi - i,
    {
        out.push(cs[i]);
        i = i + 1;
        assert(out@ =~= cs@.subrange(lo as int, i as int));
    }
    out
}

/// The characters of `s`, in order.
pub fn chars_of(s: &str) -> (r: Vec<char>)
    ensures
        r@ == s@,
{
    broadcast use vstd::string::group_string_axioms;

    let mut out: Vec<char> = Vec::new();
    for c in it: s.chars()
        invariant
            out@ == it.seq().take(it.index() as int),
    {
        out.push(c);
    }
    out
}

pub fn is_space_char(c: char) -> (r: bool)
    ensures
        r == is_space(c),
{
    let u = c as u32;
    (9 <= u && u <= 13) || u == 32 || u == 0x85 || u == 0xa0 || u == 0x1680 || (0x2000 <= u && u
        <= 0x200a) || u == 0x2028 || u == 0x2029 || u == 0x202f || u == 0x205f || u == 0x3000
}

/// The spans of the lines of `cs`.
pub fn line_spans(cs: &Vec<char>) -> (r: Vec<(usize, usize)>)
    ensures
        spans_eq(r@, lines_of(cs@)),
        spans_within(lines_of(cs@), 0, cs@.len() as int),
{
    proof {
        lemma_lines_within(cs@, 0, 0);
    }
    let n = cs.len();
    let mut out: Vec<(usize, usize)> = Vec::new();
    let ghost acc: Seq<(int, int)> = seq![];
    let mut start: usize = 0;
    let mut i: usize = 0;
    while i < n
        invariant
            n == cs@.len(),
            start <= i <= n,
            spans_eq(out@, acc),
            acc + lines_from(cs@, start as int, i as int) == lines_of(cs@),
        decreases n - i,
    {
        if cs[i] == '\n' {
            let end = if i > start && cs[i - 1] == '\r' {
                i - 1
            } else {
                i
            };
            out.push((start, end));
            proof {
                let rest = lines_from(cs@, i as int + 1, i as int + 1);
                assert(acc + (seq![(start as int, end as int)] + rest) =~= acc.push(
                    (start as int, end as int),
                ) + rest);
                acc = acc.push((start as int, end as int));
            }
            start = i + 1;
        }
        i = i + 1;
    }
    if start < n {
        out.push((start, n));
        proof {
            acc = acc.push((start as int, n as int));
        }
    } else {
        assert(acc + Seq::<(int, int)>::empty() =~= acc);
    }
    assert(acc =~= lines_of(cs@));
    out
}

/// The spans of the whitespace-separated fields of `cs[lo..hi]`.
pub fn field_spans(cs: &Vec<char>, lo: usize, hi: usize) -> (r: Vec<(usize, usize)>)
    requires
        lo <= hi <= cs@.len(),
    ensures
        spans_eq(r@, fields_of(cs@, lo as int, hi as int)),
        spans_within(fields_of(cs@, lo as int, hi as int), lo as int, hi as int),
{
    proof {
        lemma_fields_within(cs@, hi as int, -1, lo as int, lo as int);
    }
    let mut out: Vec<(usize, usize)> = Vec::new();
    let ghost acc: Seq<(int, int)> = seq![];
    let mut open = false;
    let mut start: usize = lo;
    let mut i: usize = lo;
    while i < hi
        invariant
            lo <= i <= hi <= cs@.len(),
            open ==> start < i,
            spans_eq(out@, acc),
            acc + fields_from(cs@, hi as int, if open { start as int } else { -1 }, i as int)
                == fields_of(cs@, lo as int, hi as int),
        decreases hi - i,
    {
        if is_space_char(cs[i]) {
            if open {
                out.push((start, i));
                proof {
                    let rest = fields_from(cs@, hi as int, -1, i as int + 1);
                    assert(acc + (seq![(start as int, i as int)] + rest) =~= acc.push(
                        (start as int, i as int),
                    ) + rest);
                    acc = acc.push((start as int, i as int));
                }
                open = false;
            }
        } else if !open {
            open = true;
            start = i;
        }
        i = i + 1;
    }
    if open {
        out.push((start, hi));
        proof {
            acc = acc.push((start as int, hi as int));
        }
    } else {
        assert(acc + Seq::<(int, int)>::empty() =~= acc);
    }
    assert(acc =~= fields_of(cs@, lo as int, hi as int));
    out
}

/// The spans of the pieces of `cs[lo..hi]` split at `sep`.
pub fn piece_spans(cs: &Vec<char>, lo: usize, hi: usize, sep: char) -> (r: Vec<(usize, usize)>)
    requires
        lo <= hi <= cs@.len(),
    ensures
        spans_eq(r@, pieces_of(cs@, lo as int, hi as int, sep)),
        spans_within(pieces_of(cs@, lo as int, hi as int, sep), lo as int, hi as int),
{
    proof {
        lemma_pieces_within(cs@, hi as int, sep, lo as int, lo as int, lo as int);
    }
    let mut out: Vec<(usize, usize)> = Vec::new();
    let ghost acc: Seq<(int, int)> = seq![];
    let mut start: usize = lo;
    let mut i: usize = lo;
    while i < hi
        invariant
            lo <= start <= i <= hi <= cs@.len(),
            spans_eq(out@, acc),
            acc + pieces_from(cs@, hi as int, sep, start as int, i as int) == pieces_of(
                cs@,
                lo as int,
                hi as int,
                sep,
            ),
        decreases hi - i,
    {
        if cs[i] == sep {
            out.push((start, i));
            proof {
                let rest = pieces_from(cs@, hi as int, sep, i as int + 1, i as int + 1);
                assert(acc + (seq![(start as int, i as int)] + rest) =~= acc.push(
                    (start as int, i as int),
                ) + rest);
                acc = acc.push((start as int, i as int));
            }
            start = i + 1;
        }
        i = i + 1;
    }
    out.push((start, hi));
    proof {
        acc = acc.push((start as int, hi as int));
    }
    assert(acc =~= pieces_of(cs@, lo as int, hi as int, sep));
    out
}

/// The span of `cs[lo..hi]` with white space trimmed from both ends.
pub fn trim_span(cs: &Vec<char>, lo: usize, hi: usize) -> (r: (usize, usize))
    requires
        lo <= hi <= cs@.len(),
    ensures
        r.0 == trim_of(cs@, lo as int, hi as int).0,
        r.1 == trim_of(cs@, lo as int, hi as int).1,
        lo <= r.0 <= r.1 <= hi,
{
    let mut a: usize = lo;
    while a < hi && is_space_char(cs[a])
        invariant
            lo <= a <= hi <= cs@.len(),
            skip_spaces(cs@, a as int, hi as int) == skip_spaces(cs@, lo as int, hi as int),
        decreases hi - a,
    {
        a = a + 1;
    }
    let mut b: usize = hi;
    while b > a && is_space_char(cs[b - 1])
        invariant
            lo <= a <= b <= hi <= cs@.len(),
            a == skip_spaces(cs@, lo as int, hi as int),
            trim_back(cs@, a as int, b as int) == trim_back(cs@, a as int, hi as int),
        decreases b - a,
    {
        b = b - 1;
    }
    (a, b)
}

proof fn lemma_digits_nonneg(s: Seq<char>, lo: int, hi: int)
    requires
        all_digits(s, lo, hi),
    ensures
        0 <= digits_value(s, lo, hi),
    decreases hi - lo,
{
    if hi > lo {
        lemma_digits_nonneg(s, lo, hi - 1);
    }
}

proof fn lemma_digits_grow(s: Seq<char>, lo: int, mid: int, hi: int)
    requires
        lo <= mid <= hi,
        all_digits(s, lo, hi),
    ensures
        digits_value(s, lo, mid) <= digits_value(s, lo, hi),
    decreases hi - mid,
{
    if hi > mid {
        lemma_digits_grow(s, lo, mid, hi - 1);
        lemma_digits_nonneg(s, lo, hi - 1);
    }
}

/// Reads `cs[lo..hi]` as an unsigned decimal number that fits in `u64`.
pub fn parse_decimal(cs: &Vec<char>, lo: usize, hi: usize) -> (r: Option<u64>)
    requires
        lo <= hi <= cs@.len(),
    ensures
        r matches Some(v) <==> decimal_ok(cs@, lo as int, hi as int, u64::MAX as int),
        r matches Some(v) ==> v as int == decimal_value(cs@, lo as int, hi as int),
{
    let d: usize = if lo < hi && cs[lo] == '+' {
        lo + 1
    } else {
        lo
    };
    if d >= hi {
        return None;
    }
    let mut v: u64 = 0;
    let mut i: usize = d;
    while i < hi
        invariant
            d <= i <= hi <= cs@.len(),
            d == digits_start(cs@, lo as int, hi as int),
            all_digits(cs@, d as int, i as int),
            v as int == digits_value(cs@, d as int, i as int),
        decreases hi - i,
    {
        let c = cs[i];
        if !('0' <= c && c <= '9') {
            return None;
        }
        let dv = (c as u32 - '0' as u32) as u64;
        if v > (u64::MAX - dv) / 10 {
            proof {
                assert(v * 10 + dv > u64::MAX) by (nonlinear_arith)
                    requires
                        v > (u64::MAX - dv) / 10,
                        dv <= 9,
                ;
                assert(all_digits(cs@, d as int, i as int + 1));
                if all_digits(cs@, d as int, hi as int) {
                    lemma_digits_grow(cs@, d as int, i as int + 1, hi as int);
                }
            }
            return None;
        }
        v = v * 10 + dv;
        i = i + 1;
        assert(all_digits(cs@, d as int, i as int));
    }
    Some(v)
}

} // verus!
