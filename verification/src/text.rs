//! Characters, digit runs and integer literals.

use vstd::prelude::*;

verus! {

/// `str` equality of std: two string slices are equal when they hold the same
/// characters.
#[verifier::external_body]
pub(crate) fn str_eq(a: &str, b: &str) -> (same: bool)
    ensures
        same == (a@ == b@),
{
    a == b
}

/// The characters of a string, in order.
pub fn chars_of(s: &str) -> (v: Vec<char>)
    ensures
        v@ == s@,
{
    let mut v: Vec<char> = Vec::new();
    for c in it: s.chars()
        invariant
            it.seq() == s@,
            v@ == s@.take(it.index()),
    {
        v.push(c);
    }
    v
}

/// Whether `c` is a blank: space, tab, line feed or carriage return.
pub open spec fn is_blank(c: char) -> bool {
    c == ' ' || c == '\t' || c == '\n' || c == '\r'
}

/// The value of `c` as a digit of the given base, which is 10 or 16;
/// `None` if it is no such digit.
pub open spec fn digit_of(c: char, base: int) -> Option<int> {
    let u = c as u32 as int;
    if 0x30 <= u <= 0x39 {
        Some(u - 0x30)
    } else if base == 16 && 0x61 <= u <= 0x66 {
        Some(u - 0x61 + 10)
    } else if base == 16 && 0x41 <= u <= 0x46 {
        Some(u - 0x41 + 10)
    } else {
        None
    }
}

/// The end of the longest run of digits of the given base that starts at `pos`.
pub open spec fn digits_end(s: Seq<char>, pos: int, base: int) -> int
    decreases s.len() - pos,
{
    if 0 <= pos < s.len() && digit_of(s[pos], base) is Some {
        digits_end(s, pos + 1, base)
    } else {
        pos
    }
}

/// The number that a sequence of digits denotes in the given base. A
/// character that is no digit counts as zero.
pub open spec fn digits_value(s: Seq<char>, base: int) -> int
    decreases s.len(),
{
    if s.len() == 0 {
        0
    } else {
        digits_value(s.drop_last(), base) * base + match digit_of(s.last(), base) {
            Some(d) => d,
            None => 0,
        }
    }
}

/// The end of the run of blanks that starts at `pos`.
pub open spec fn blanks_end(s: Seq<char>, pos: int) -> int
    decreases s.len() - pos,
{
    if 0 <= pos < s.len() && is_blank(s[pos]) {
        blanks_end(s, pos + 1)
    } else {
        pos
    }
}

/// The start of the run of blanks that ends at `end`.
pub open spec fn blanks_start(s: Seq<char>, end: int) -> int
    decreases end,
{
    if 0 < end <= s.len() && is_blank(s[end - 1]) {
        blanks_start(s, end - 1)
    } else {
        end
    }
}

/// `s` without the blanks at its two ends.
pub open spec fn trimmed(s: Seq<char>) -> Seq<char> {
    let from = blanks_end(s, 0);
    if from >= s.len() {
        Seq::empty()
    } else {
        s.subrange(from, blanks_start(s, s.len() as int))
    }
}

/// The integer that a text denotes, if it is an integer literal: an optional
/// sign, then either decimal digits or `0x` (or `0X`) and hexadecimal digits,
/// with nothing before or after. The value is not bounded here.
pub open spec fn integer_literal(s: Seq<char>) -> Option<int> {
    let negative = s.len() > 0 && s[0] == '-';
    let signed = s.len() > 0 && (s[0] == '-' || s[0] == '+');
    let body = if signed {
        s.subrange(1, s.len() as int)
    } else {
        s
    };
    let hex = body.len() >= 2 && body[0] == '0' && (body[1] == 'x' || body[1] == 'X');
    let base = if hex {
        16int
    } else {
        10int
    };
    let digits = if hex {
        body.subrange(2, body.len() as int)
    } else {
        body
    };
    if digits.len() > 0 && digits_end(digits, 0, base) == digits.len() {
        Some(
            if negative {
                -digits_value(digits, base)
            } else {
                digits_value(digits, base)
            },
        )
    } else {
        None
    }
}

/// The `i64` that a text denotes after trimming, if it is an integer literal
/// whose value an `i64` can hold.
pub open spec fn i64_of_text(s: Seq<char>) -> Option<i64> {
    match integer_literal(trimmed(s)) {
        Some(v) => if i64::MIN <= v <= i64::MAX {
            Some(v as i64)
        } else {
            None
        },
        None => None,
    }
}

pub proof fn lemma_digits_end_bounds(s: Seq<char>, pos: int, base: int)
    requires
        0 <= pos <= s.len(),
    ensures
        pos <= digits_end(s, pos, base) <= s.len(),
        forall|i: int| pos <= i < digits_end(s, pos, base) ==> digit_of(#[trigger] s[i], base) is Some,
        digits_end(s, pos, base) < s.len() ==> digit_of(s[digits_end(s, pos, base)], base) is None,
    decreases s.len() - pos,
{
    if pos < s.len() && digit_of(s[pos], base) is Some {
        lemma_digits_end_bounds(s, pos + 1, base);
    }
}

pub proof fn lemma_digits_value_nonnegative(s: Seq<char>, base: int)
    requires
        base == 10 || base == 16,
    ensures
        digits_value(s, base) >= 0,
    decreases s.len(),
{
    if s.len() > 0 {
        lemma_digits_value_nonnegative(s.drop_last(), base);
        assert(digits_value(s.drop_last(), base) * base >= 0) by (nonlinear_arith)
            requires
                digits_value(s.drop_last(), base) >= 0,
                base > 0,
        ;
    }
}

/// A longer run of digits denotes no smaller a number than its beginning.
pub proof fn lemma_digits_value_monotone(s: Seq<char>, n: int, base: int)
    requires
        base == 10 || base == 16,
        0 <= n <= s.len(),
    ensures
        digits_value(s.take(n), base) <= digits_value(s, base),
    decreases s.len() - n,
{
    if n == s.len() {
        assert(s.take(n) =~= s);
    } else {
        lemma_digits_value_monotone(s.drop_last(), n, base);
        assert(s.drop_last().take(n) =~= s.take(n));
        lemma_digits_value_nonnegative(s.drop_last(), base);
        let v = digits_value(s.drop_last(), base);
        assert(v * base >= v) by (nonlinear_arith)
            requires
                v >= 0,
                base >= 1,
        ;
    }
}

/// Whether `c` is a blank.
pub fn char_is_blank(c: char) -> (b: bool)
    ensures
        b == is_blank(c),
{
    c == ' ' || c == '\t' || c == '\n' || c == '\r'
}

/// The value of `c` as a digit of base 10 or 16.
pub fn char_digit(c: char, base: u32) -> (d: Option<u32>)
    requires
        base == 10 || base == 16,
    ensures
        match d {
            Some(v) => digit_of(c, base as int) == Some(v as int) && v < base,
            None => digit_of(c, base as int) is None,
        },
{
    let u: u32 = c as u32;
    if 0x30 <= u && u <= 0x39 {
        Some(u - 0x30)
    } else if base == 16 && 0x61 <= u && u <= 0x66 {
        Some(u - 0x61 + 10)
    } else if base == 16 && 0x41 <= u && u <= 0x46 {
        Some(u - 0x41 + 10)
    } else {
        None
    }
}

/// Finds the end of the run of digits that starts at `from`.
pub fn scan_digits(s: &[char], from: usize, base: u32) -> (end: usize)
    requires
        base == 10 || base == 16,
        from <= s.len(),
    ensures
        end == digits_end(s@, from as int, base as int),
        from <= end <= s.len(),
{
    let mut pos: usize = from;
    while pos < s.len() && char_digit(s[pos], base).is_some()
        invariant
            base == 10 || base == 16,
            from <= pos <= s.len(),
            digits_end(s@, from as int, base as int) == digits_end(s@, pos as int, base as int),
        decreases s.len() - pos,
    {
        pos = pos + 1;
    }
    pos
}

/// The number that the digits in `s[from..to]` denote, if a `u64` can hold it.
pub fn digits_to_u64(s: &[char], from: usize, to: usize, base: u32) -> (value: Option<u64>)
    requires
        base == 10 || base == 16,
        from <= to <= s.len(),
    ensures
        match value {
            Some(v) => v == digits_value(s@.subrange(from as int, to as int), base as int),
            None => digits_value(s@.subrange(from as int, to as int), base as int) > u64::MAX,
        },
{
    let ghost run = s@.subrange(from as int, to as int);
    let mut acc: u64 = 0;
    let mut pos: usize = from;
    while pos < to
        invariant
            base == 10 || base == 16,
            from <= pos <= to <= s.len(),
            run == s@.subrange(from as int, to as int),
            acc == digits_value(run.take(pos - from), base as int),
        decreases to - pos,
    {
        let d: u64 = match char_digit(s[pos], base) {
            Some(d) => d as u64,
            None => 0,
        };
        let ghost next = run.take(pos - from + 1);
        proof {
            assert(next.drop_last() =~= run.take(pos - from));
            assert(next.last() == s@[pos as int]);
            lemma_digits_value_monotone(run, pos - from + 1, base as int);
        }
        let scaled = match acc.checked_mul(base as u64) {
            Some(v) => v,
            None => {
                return None;
            },
        };
        acc = match scaled.checked_add(d) {
            Some(v) => v,
            None => {
                return None;
            },
        };
        pos = pos + 1;
    }
    proof {
        assert(run.take(to - from) =~= run);
    }
    Some(acc)
}

/// A sequence is one run of digits exactly when each of its characters is a digit.
pub proof fn lemma_digits_end_all(s: Seq<char>, base: int)
    ensures
        (digits_end(s, 0, base) == s.len()) <==> (forall|i: int|
            0 <= i < s.len() ==> digit_of(#[trigger] s[i], base) is Some),
{
    lemma_digits_end_bounds(s, 0, base);
}

/// Whether `s[from..to]` holds digits only.
pub fn all_digits(s: &[char], from: usize, to: usize, base: u32) -> (b: bool)
    requires
        base == 10 || base == 16,
        from <= to <= s.len(),
    ensures
        b == (digits_end(s@.subrange(from as int, to as int), 0, base as int) == to - from),
{
    let ghost run = s@.subrange(from as int, to as int);
    let mut pos: usize = from;
    while pos < to
        invariant
            base == 10 || base == 16,
            from <= pos <= to <= s.len(),
            run == s@.subrange(from as int, to as int),
            forall|i: int| 0 <= i < pos - from ==> digit_of(#[trigger] run[i], base as int) is Some,
        decreases to - pos,
    {
        if char_digit(s[pos], base).is_none() {
            proof {
                lemma_digits_end_all(run, base as int);
                assert(digit_of(run[pos - from], base as int) is None);
            }
            return false;
        }
        pos = pos + 1;
    }
    proof {
        lemma_digits_end_all(run, base as int);
    }
    true
}

/// The bounds of `s` without the blanks at its two ends.
pub fn trim_bounds(s: &[char]) -> (bounds: (usize, usize))
    ensures
        bounds.0 <= bounds.1 <= s.len(),
        s@.subrange(bounds.0 as int, bounds.1 as int) == trimmed(s@),
{
    let mut from: usize = 0;
    while from < s.len() && char_is_blank(s[from])
        invariant
            from <= s.len(),
            blanks_end(s@, 0) == blanks_end(s@, from as int),
        decreases s.len() - from,
    {
        from = from + 1;
    }
    if from >= s.len() {
        assert(s@.subrange(from as int, from as int) =~= Seq::<char>::empty());
        return (from, from);
    }
    let mut to: usize = s.len();
    while char_is_blank(s[to - 1])
        invariant
            from < to <= s.len(),
            !is_blank(s@[from as int]),
            blanks_start(s@, s.len() as int) == blanks_start(s@, to as int),
        decreases to,
    {
        to = to - 1;
    }
    assert(blanks_end(s@, from as int) == from);
    assert(blanks_start(s@, to as int) == to);
    (from, to)
}

/// Reads an integer literal, with blanks allowed around it.
pub fn parse_i64(s: &[char]) -> (value: Option<i64>)
    ensures
        value == i64_of_text(s@),
{
    let (from, to) = trim_bounds(s);
    let ghost t = s@.subrange(from as int, to as int);
    if from == to {
        return None;
    }
    let negative = s[from] == '-';
    let signed = negative || s[from] == '+';
    let start: usize = if signed {
        from + 1
    } else {
        from
    };
    let ghost body = if signed {
        t.subrange(1, t.len() as int)
    } else {
        t
    };
    assert(body =~= s@.subrange(start as int, to as int));
    let hex = to - start >= 2 && s[start] == '0' && (s[start + 1] == 'x' || s[start + 1] == 'X');
    let base: u32 = if hex {
        16
    } else {
        10
    };
    let first: usize = if hex {
        start + 2
    } else {
        start
    };
    let ghost digits = if hex {
        body.subrange(2, body.len() as int)
    } else {
        body
    };
    assert(digits =~= s@.subrange(first as int, to as int));
    if first == to || !all_digits(s, first, to, base) {
        return None;
    }
    match digits_to_u64(s, first, to, base) {
        Some(m) => {
            if negative {
                if m <= 0x8000_0000_0000_0000u64 {
                    Some((0 - (m as i128)) as i64)
                } else {
                    None
                }
            } else {
                if m <= 0x7fff_ffff_ffff_ffffu64 {
                    Some(m as i64)
                } else {
                    None
                }
            }
        },
        None => None,
    }
}

} // verus!
