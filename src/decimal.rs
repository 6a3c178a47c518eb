//! Decimal text of 64-bit integers, both ways: the request body carries the
//! time as decimal seconds, and the device's reply carries an epoch the same way.

use vstd::prelude::*;

verus! {

pub open spec fn is_digit(c: char) -> bool {
    '0' <= c && c <= '9'
}

pub open spec fn digit_value(c: char) -> int {
    c as int - '0' as int
}

pub open spec fn digit_char(d: int) -> char {
    seq!['0', '1', '2', '3', '4', '5', '6', '7', '8', '9'][d]
}

/// Digits of `n` with no leading zero (`0` is the single digit `0`).
pub open spec fn digits_of(n: nat) -> Seq<char>
    decreases n,
{
    if n < 10 {
        seq![digit_char(n as int)]
    } else {
        digits_of(n / 10).push(digit_char((n % 10) as int))
    }
}

/// Decimal text of `n`, with a `-` in front when it is negative.
pub open spec fn decimal_of(n: int) -> Seq<char> {
    if n < 0 {
        seq!['-'] + digits_of((-n) as nat)
    } else {
        digits_of(n as nat)
    }
}

pub open spec fn all_digits(s: Seq<char>) -> bool {
    forall|i: int| 0 <= i < s.len() ==> is_digit(#[trigger] s[i])
}

/// The number that a run of digits stands for, leading zeros allowed.
pub open spec fn digits_value(s: Seq<char>) -> int
    decreases s.len(),
{
    if s.len() == 0 {
        0
    } else {
        digits_value(s.drop_last()) * 10 + digit_value(s.last())
    }
}

/// The signed 64-bit integer that `s` spells: an optional `+` or `-`, then
/// one or more digits, nothing else; `None` when it spells none or the value
/// does not fit.
pub open spec fn i64_of(s: Seq<char>) -> Option<i64> {
    let neg = s.len() > 0 && s[0] == '-';
    let signed = s.len() > 0 && (s[0] == '-' || s[0] == '+');
    let d = if signed { s.skip(1) } else { s };
    let v = if neg { -digits_value(d) } else { digits_value(d) };
    if d.len() > 0 && all_digits(d) && i64::MIN <= v <= i64::MAX {
        Some(v as i64)
    } else {
        None
    }
}

proof fn lemma_digit_char(d: int)
    requires
        0 <= d < 10,
    ensures
        is_digit(digit_char(d)),
        digit_value(digit_char(d)) == d,
        digit_char(d) != '-',
        digit_char(d) != '+',
        digit_char(d) != ':',
{
}

/// Digits read back give the number they were written from.
pub proof fn lemma_digits_round_trip(n: nat)
    ensures
        digits_of(n).len() > 0,
        all_digits(digits_of(n)),
        digits_value(digits_of(n)) == n,
    decreases n,
{
    if n < 10 {
        lemma_digit_char(n as int);
        assert(digits_of(n).drop_last() =~= Seq::<char>::empty());
        assert(digits_value(Seq::<char>::empty()) == 0);
    } else {
        lemma_digits_round_trip(n / 10);
        lemma_digit_char((n % 10) as int);
        let s = digits_of(n);
        assert(s.drop_last() =~= digits_of(n / 10));
        assert(s.last() == digit_char((n % 10) as int));
        vstd::arithmetic::div_mod::lemma_fundamental_div_mod(n as int, 10);
        assert(digits_value(s) == digits_value(digits_of(n / 10)) * 10 + (n % 10) as int);
        assert forall|i: int| 0 <= i < s.len() implies is_digit(#[trigger] s[i]) by {
            if i < s.len() - 1 {
                assert(s[i] == digits_of(n / 10)[i]);
            }
        }
    }
}

/// Decimal text of a non-negative number holds digits only.
pub proof fn lemma_decimal_digits_only(n: int)
    requires
        n >= 0,
    ensures
        decimal_of(n).len() > 0,
        all_digits(decimal_of(n)),
        forall|i: int| 0 <= i < decimal_of(n).len() ==> #[trigger] decimal_of(n)[i] != ':',
        decimal_of(n)[0] != '-' && decimal_of(n)[0] != '+',
{
    lemma_digits_round_trip(n as nat);
    let s = decimal_of(n);
    assert forall|i: int| 0 <= i < s.len() implies #[trigger] s[i] != ':' by {
        assert(is_digit(s[i]));
    }
    assert(is_digit(s[0]));
}

/// Decimal text read back gives the number it was written from.
pub proof fn lemma_decimal_round_trip(t: i64)
    ensures
        i64_of(decimal_of(t as int)) == Some(t),
{
    let n: nat = if t < 0 {
        (-t) as nat
    } else {
        t as nat
    };
    lemma_digits_round_trip(n);
    lemma_digit_char(0);
    let s = decimal_of(t as int);
    if t < 0 {
        assert(s.skip(1) =~= digits_of(n));
    } else {
        let c = s[0];
        assert(is_digit(c));
    }
}

fn digit_text(d: u64) -> (r: &'static str)
    requires
        d < 10,
    ensures
        r@ == seq![digit_char(d as int)],
{
    proof {
        reveal_strlit("0");
        reveal_strlit("1");
        reveal_strlit("2");
        reveal_strlit("3");
        reveal_strlit("4");
        reveal_strlit("5");
        reveal_strlit("6");
        reveal_strlit("7");
        reveal_strlit("8");
        reveal_strlit("9");
    }
    let r = match d {
        0 => "0",
        1 => "1",
        2 => "2",
        3 => "3",
        4 => "4",
        5 => "5",
        6 => "6",
        7 => "7",
        8 => "8",
        _ => "9",
    };
    assert(r@ =~= seq![digit_char(d as int)]);
    r
}

fn push_digits(out: &mut String, n: u64)
    ensures
        final(out)@ == old(out)@ + digits_of(n as nat),
    decreases n,
{
    if n >= 10 {
        push_digits(out, n / 10);
    }
    out.append(digit_text(n % 10));
    proof {
        if n >= 10 {
            assert(old(out)@ + digits_of((n / 10) as nat) + seq![digit_char((n % 10) as int)]
                =~= old(out)@ + digits_of(n as nat));
        } else {
            assert(old(out)@ + seq![digit_char((n % 10) as int)] =~= old(out)@ + digits_of(
                n as nat,
            ));
        }
    }
}

/// Decimal text of `n`, as `to_string` writes it.
pub fn decimal_text(n: i64) -> (r: String)
    ensures
        r@ == decimal_of(n as int),
{
    let mut out = String::new();
    if n < 0 {
        proof {
            reveal_strlit("-");
        }
        out.append("-");
        let mag: u64 = if n == i64::MIN {
            9_223_372_036_854_775_808u64
        } else {
            (-n) as u64
        };
        push_digits(&mut out, mag);
        assert(out@ =~= decimal_of(n as int));
    } else {
        push_digits(&mut out, n as u64);
        assert(out@ =~= decimal_of(n as int));
    }
    out
}

/// Magnitude of `i64::MIN`, the largest magnitude a signed 64-bit value has.
const MAGNITUDE_LIMIT: u64 = 9_223_372_036_854_775_808;

proof fn lemma_step_overflow(acc: int, dv: int, limit: int)
    requires
        0 <= dv < 10,
        dv <= limit,
        acc > (limit - dv) / 10,
    ensures
        acc * 10 + dv > limit,
{
    assert(acc * 10 + dv > limit) by (nonlinear_arith)
        requires
            0 <= dv < 10,
            dv <= limit,
            acc > (limit - dv) / 10,
    ;
}

proof fn lemma_step_fits(acc: int, dv: int, limit: int)
    requires
        0 <= dv < 10,
        dv <= limit,
        0 <= acc <= (limit - dv) / 10,
    ensures
        acc * 10 + dv <= limit,
{
    assert(acc * 10 + dv <= limit) by (nonlinear_arith)
        requires
            0 <= dv < 10,
            dv <= limit,
            0 <= acc <= (limit - dv) / 10,
    ;
}

/// Reads a signed 64-bit integer written in decimal, as `str::parse::<i64>`
/// accepts it: an optional sign, then digits only, and a value in range.
pub fn parse_i64(s: &str) -> (r: Option<i64>)
    ensures
        r == i64_of(s@),
{
    let len = s.unicode_len();
    if len == 0 {
        return None;
    }
    let first = s.get_char(0);
    let neg = first == '-';
    let start: usize = if first == '-' || first == '+' {
        1
    } else {
        0
    };
    let ghost d = if start == 1 {
        s@.skip(1)
    } else {
        s@
    };
    assert(d =~= s@.subrange(start as int, len as int));
    if start == len {
        assert(d.len() == 0);
        return None;
    }
    let mut acc: u64 = 0;
    let mut big = false;
    let mut i: usize = start;
    assert(s@.subrange(start as int, start as int) =~= Seq::<char>::empty());
    while i < len
        invariant
            start <= i <= len,
            len == s@.len(),
            d == s@.subrange(start as int, len as int),
            len > 0,
            neg == (s@[0] == '-'),
            start == (if s@[0] == '-' || s@[0] == '+' {
                1usize
            } else {
                0usize
            }),
            d == (if s@[0] == '-' || s@[0] == '+' {
                s@.skip(1)
            } else {
                s@
            }),
            all_digits(s@.subrange(start as int, i as int)),
            !big ==> acc as int == digits_value(s@.subrange(start as int, i as int)) && acc
                <= MAGNITUDE_LIMIT,
            big ==> digits_value(s@.subrange(start as int, i as int)) > MAGNITUDE_LIMIT,
        decreases len - i,
    {
        let c = s.get_char(i);
        if !('0' <= c && c <= '9') {
            assert(d[i - start] == c);
            assert(!all_digits(d));
            return None;
        }
        let dv: u64 = (c as u32 - '0' as u32) as u64;
        let ghost prev = s@.subrange(start as int, i as int);
        let ghost next = s@.subrange(start as int, i + 1);
        assert(next.drop_last() =~= prev);
        assert(next.last() == c);
        assert(digits_value(next) == digits_value(prev) * 10 + dv);
        if !big {
            if acc > (MAGNITUDE_LIMIT - dv) / 10 {
                proof {
                    lemma_step_overflow(acc as int, dv as int, MAGNITUDE_LIMIT as int);
                }
                big = true;
            } else {
                proof {
                    lemma_step_fits(acc as int, dv as int, MAGNITUDE_LIMIT as int);
                }
                acc = acc * 10 + dv;
            }
        }
        assert forall|j: int| 0 <= j < next.len() implies is_digit(#[trigger] next[j]) by {
            if j < prev.len() {
                assert(next[j] == prev[j]);
            }
        }
        i = i + 1;
    }
    assert(s@.subrange(start as int, i as int) == d);
    if big {
        None
    } else if neg {
        if acc == MAGNITUDE_LIMIT {
            Some(i64::MIN)
        } else {
            Some(-(acc as i64))
        }
    } else if acc > i64::MAX as u64 {
        None
    } else {
        Some(acc as i64)
    }
}

/// Why a text spells no signed 64-bit integer, in the terms of std's
/// `IntErrorKind`.
#[derive(Clone, Copy, Debug, PartialEq, Eq, Structural)]
pub enum ParseFault {
    Empty,
    InvalidDigit,
    PosOverflow,
    NegOverflow,
}

/// The reason `s` is refused, where `i64_of(s)` is `None`: nothing at all, a
/// character out of place (a sign alone included), or digits whose value
/// lies beyond the range on the side of the sign.
pub open spec fn parse_fault_of(s: Seq<char>) -> ParseFault {
    let neg = s.len() > 0 && s[0] == '-';
    let signed = s.len() > 0 && (s[0] == '-' || s[0] == '+');
    let d = if signed {
        s.skip(1)
    } else {
        s
    };
    if s.len() == 0 {
        ParseFault::Empty
    } else if d.len() == 0 || !all_digits(d) {
        ParseFault::InvalidDigit
    } else if neg {
        ParseFault::NegOverflow
    } else {
        ParseFault::PosOverflow
    }
}

/// A refused text's `parse_fault_of`.
pub fn parse_fault(s: &str) -> (r: ParseFault)
    ensures
        r == parse_fault_of(s@),
{
    let len = s.unicode_len();
    if len == 0 {
        return ParseFault::Empty;
    }
    let first = s.get_char(0);
    let start: usize = if first == '-' || first == '+' {
        1
    } else {
        0
    };
    let ghost d = if start == 1 {
        s@.skip(1)
    } else {
        s@
    };
    assert(d =~= s@.subrange(start as int, len as int));
    if start == len {
        return ParseFault::InvalidDigit;
    }
    let mut i: usize = start;
    while i < len
        invariant
            start <= i <= len,
            len == s@.len(),
            d == s@.subrange(start as int, len as int),
            forall|j: int| start <= j < i ==> is_digit(#[trigger] s@[j]),
            len > 0,
            first == s@[0],
            start == (if s@[0] == '-' || s@[0] == '+' {
                1usize
            } else {
                0usize
            }),
            d == (if s@[0] == '-' || s@[0] == '+' {
                s@.skip(1)
            } else {
                s@
            }),
        decreases len - i,
    {
        let c = s.get_char(i);
        if !('0' <= c && c <= '9') {
            assert(d[i - start] == c);
            return ParseFault::InvalidDigit;
        }
        i = i + 1;
    }
    assert forall|j: int| 0 <= j < d.len() implies is_digit(#[trigger] d[j]) by {
        assert(d[j] == s@[j + start]);
    }
    if first == '-' {
        ParseFault::NegOverflow
    } else {
        ParseFault::PosOverflow
    }
}

/// The words std uses for each `ParseFault`.
pub open spec fn fault_words(f: ParseFault) -> Seq<char> {
    match f {
        ParseFault::Empty => "cannot parse integer from empty string"@,
        ParseFault::InvalidDigit => "invalid digit found in string"@,
        ParseFault::PosOverflow => "number too large to fit in target type"@,
        ParseFault::NegOverflow => "number too small to fit in target type"@,
    }
}

impl ParseFault {
    /// The fault in words, per `fault_words`.
    pub fn words(&self) -> (r: &'static str)
        ensures
            r@ == fault_words(*self),
    {
        match self {
            ParseFault::Empty => "cannot parse integer from empty string",
            ParseFault::InvalidDigit => "invalid digit found in string",
            ParseFault::PosOverflow => "number too large to fit in target type",
            ParseFault::NegOverflow => "number too small to fit in target type",
        }
    }
}

} // verus!
