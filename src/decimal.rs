//! Decimal text: reading unsigned integers and tenths out of table cells,
//! and writing them back.
use vstd::prelude::*;

verus! {

pub open spec fn is_digit(c: char) -> bool {
    '0' <= c && c <= '9'
}

pub open spec fn digit_value(c: char) -> nat {
    (c as u32 - '0' as u32) as nat
}

pub open spec fn all_digits(s: Seq<char>) -> bool {
    forall|i: int| 0 <= i < s.len() ==> is_digit(#[trigger] s[i])
}

/// The number that a run of decimal digits spells, most significant first.
pub open spec fn digits_value(s: Seq<char>) -> nat
    decreases s.len(),
{
    if s.len() == 0 {
        0
    } else {
        digits_value(s.drop_last()) * 10 + digit_value(s.last())
    }
}

/// The digits after an optional leading `+`.
pub open spec fn unsigned_digits(s: Seq<char>) -> Seq<char> {
    if s.len() > 0 && s[0] == '+' {
        s.drop_first()
    } else {
        s
    }
}

/// An unsigned integer written as an optional `+` and one or more digits,
/// with no bound on its size.
pub open spec fn unsigned_value(s: Seq<char>) -> Option<nat> {
    let d = unsigned_digits(s);
    if d.len() > 0 && all_digits(d) {
        Some(digits_value(d))
    } else {
        None
    }
}

/// The cell read as a `u64`: `None` when it is not an unsigned integer or
/// does not fit.
pub open spec fn u64_of(s: Seq<char>) -> Option<u64> {
    match unsigned_value(s) {
        Some(n) => if n <= u64::MAX {
            Some(n as u64)
        } else {
            None
        },
        None => None,
    }
}

/// The cell read as a `u8`.
pub open spec fn u8_of(s: Seq<char>) -> Option<u8> {
    match unsigned_value(s) {
        Some(n) => if n <= u8::MAX {
            Some(n as u8)
        } else {
            None
        },
        None => None,
    }
}

pub open spec fn first_point(s: Seq<char>) -> int {
    choose|i: int| 0 <= i < s.len() && s[i] == '.' && forall|j: int| 0 <= j < i ==> s[j] != '.'
}

/// A decimal number `W`, `W.F` or `.F` (at least one digit in all) read in
/// tenths: the digits after the first fractional one are dropped.
pub open spec fn tenths_value(s: Seq<char>) -> Option<nat> {
    if exists|i: int| 0 <= i < s.len() && s[i] == '.' {
        let p = first_point(s);
        let w = s.subrange(0, p);
        let f = s.subrange(p + 1, s.len() as int);
        if all_digits(w) && all_digits(f) && w.len() + f.len() > 0 {
            Some(digits_value(w) * 10 + if f.len() > 0 {
                digit_value(f[0])
            } else {
                0
            })
        } else {
            None
        }
    } else if s.len() > 0 && all_digits(s) {
        Some(digits_value(s) * 10)
    } else {
        None
    }
}

/// The cell read as a count of tenths that fits a `u64`.
pub open spec fn tenths_of(s: Seq<char>) -> Option<u64> {
    match tenths_value(s) {
        Some(n) => if n <= u64::MAX {
            Some(n as u64)
        } else {
            None
        },
        None => None,
    }
}

pub open spec fn digit_char(d: nat) -> char {
    if d == 0 {
        '0'
    } else if d == 1 {
        '1'
    } else if d == 2 {
        '2'
    } else if d == 3 {
        '3'
    } else if d == 4 {
        '4'
    } else if d == 5 {
        '5'
    } else if d == 6 {
        '6'
    } else if d == 7 {
        '7'
    } else if d == 8 {
        '8'
    } else {
        '9'
    }
}

/// The shortest decimal spelling of `n`.
pub open spec fn decimal_of(n: nat) -> Seq<char>
    decreases n,
{
    if n < 10 {
        seq![digit_char(n)]
    } else {
        decimal_of(n / 10).push(digit_char(n % 10))
    }
}

/// Tenths written as a decimal with one fractional digit (`3600` is
/// `360.0`).
pub open spec fn tenths_text(n: nat) -> Seq<char> {
    decimal_of(n / 10) + seq!['.'] + seq![digit_char(n % 10)]
}

proof fn lemma_digits_prefix_monotone(s: Seq<char>, i: int, j: int)
    requires
        0 <= i <= j <= s.len(),
    ensures
        digits_value(s.subrange(0, i)) <= digits_value(s.subrange(0, j)),
    decreases j - i,
{
    if i < j {
        lemma_digits_prefix_monotone(s, i, j - 1);
        assert(s.subrange(0, j).drop_last() == s.subrange(0, j - 1));
    }
}

proof fn lemma_digits_step(s: Seq<char>, i: int)
    requires
        0 <= i < s.len(),
    ensures
        digits_value(s.subrange(0, i + 1)) == digits_value(s.subrange(0, i)) * 10 + digit_value(
            s[i],
        ),
{
    assert(s.subrange(0, i + 1).drop_last() == s.subrange(0, i));
}

/// Reads the digits `s[from..to]` into a `u64`; `None` when one of them is
/// not a digit or the number does not fit.
fn read_digits(s: &str, from: usize, to: usize) -> (r: Option<u64>)
    requires
        from <= to <= s@.len(),
    ensures
        ({
            let d = s@.subrange(from as int, to as int);
            match r {
                Some(v) => all_digits(d) && v as nat == digits_value(d),
                None => !all_digits(d) || digits_value(d) > u64::MAX,
            }
        }),
{
    let ghost d = s@.subrange(from as int, to as int);
    let mut v: u64 = 0;
    let mut i: usize = from;
    while i < to
        invariant
            from <= i <= to <= s@.len(),
            d == s@.subrange(from as int, to as int),
            all_digits(d.subrange(0, i - from)),
            v as nat == digits_value(d.subrange(0, i - from)),
        decreases to - i,
    {
        let c = s.get_char(i);
        if !('0' <= c && c <= '9') {
            assert(d[i - from] == c);
            return None;
        }
        let dv = (c as u32 - '0' as u32) as u64;
        proof {
            lemma_digits_step(d, i - from);
        }
        let m = v.checked_mul(10);
        match m {
            None => {
                proof {
                    lemma_digits_prefix_monotone(d, i - from + 1, d.len() as int);
                    assert(d.subrange(0, d.len() as int) == d);
                }
                return None;
            },
            Some(m) => {
                let a = m.checked_add(dv);
                match a {
                    None => {
                        proof {
                            lemma_digits_prefix_monotone(d, i - from + 1, d.len() as int);
                            assert(d.subrange(0, d.len() as int) == d);
                        }
                        return None;
                    },
                    Some(a) => {
                        v = a;
                    },
                }
            },
        }
        i = i + 1;
        assert forall|k: int| 0 <= k < i - from implies is_digit(
            #[trigger] d.subrange(0, i - from)[k],
        ) by {
            if k < i - from - 1 {
                assert(d.subrange(0, i - from)[k] == d.subrange(0, i - from - 1)[k]);
            }
        }
    }
    assert(d.subrange(0, d.len() as int) == d);
    Some(v)
}

/// Reads an unsigned integer cell: an optional `+` and one or more digits.
pub fn parse_u64(s: &str) -> (r: Option<u64>)
    ensures
        r == u64_of(s@),
{
    let n = s.unicode_len();
    let mut from: usize = 0;
    if n > 0 && s.get_char(0) == '+' {
        from = 1;
    }
    assert(unsigned_digits(s@) == s@.subrange(from as int, n as int));
    if from == n {
        return None;
    }
    read_digits(s, from, n)
}

/// Reads a small unsigned integer cell, as `parse_u64` does, that fits a
/// `u8`.
pub fn parse_u8(s: &str) -> (r: Option<u8>)
    ensures
        r == u8_of(s@),
{
    match parse_u64(s) {
        Some(v) => if v <= 255 {
            Some(v as u8)
        } else {
            None
        },
        None => None,
    }
}

/// Whether `s[from..to]` is all digits.
fn digits_only(s: &str, from: usize, to: usize) -> (r: bool)
    requires
        from <= to <= s@.len(),
    ensures
        r == all_digits(s@.subrange(from as int, to as int)),
{
    let ghost d = s@.subrange(from as int, to as int);
    let mut i: usize = from;
    while i < to
        invariant
            from <= i <= to <= s@.len(),
            d == s@.subrange(from as int, to as int),
            forall|k: int| 0 <= k < i - from ==> is_digit(#[trigger] d[k]),
        decreases to - i,
    {
        let c = s.get_char(i);
        if !('0' <= c && c <= '9') {
            assert(d[i - from] == c);
            return false;
        }
        i = i + 1;
    }
    true
}

/// Reads a decimal cell (`W`, `W.F` or `.F`) in tenths, dropping the
/// digits after the first fractional one.
pub fn parse_tenths(s: &str) -> (r: Option<u64>)
    ensures
        r == tenths_of(s@),
{
    let n = s.unicode_len();
    let mut p: usize = 0;
    while p < n && s.get_char(p) != '.'
        invariant
            p <= n,
            n == s@.len(),
            forall|j: int| 0 <= j < p ==> s@[j] != '.',
        decreases n - p,
    {
        p = p + 1;
    }
    if p == n {
        assert(!exists|i: int| 0 <= i < s@.len() && s@[i] == '.');
        if n == 0 {
            return None;
        }
        assert(s@.subrange(0, n as int) == s@);
        return match read_digits(s, 0, n) {
            Some(w) => w.checked_mul(10),
            None => None,
        };
    }
    proof {
        assert(0 <= p < s@.len() && s@[p as int] == '.');
        let q = first_point(s@);
        assert(q == p as int) by {
            if q < p {
            } else if q > p {
            }
        }
    }
    if p == 0 && n == 1 {
        return None;
    }
    let whole = read_digits(s, 0, p);
    let frac_ok = digits_only(s, p + 1, n);
    if !frac_ok {
        return None;
    }
    match whole {
        None => None,
        Some(w) => {
            let mut f: u64 = 0;
            if p + 1 < n {
                let c = s.get_char(p + 1);
                assert(s@.subrange(p + 1, n as int)[0] == c);
                f = (c as u32 - '0' as u32) as u64;
            }
            match w.checked_mul(10) {
                Some(m) => m.checked_add(f),
                None => None,
            }
        },
    }
}

fn digit_str(d: u64) -> (r: &'static str)
    requires
        d < 10,
    ensures
        r@ == seq![digit_char(d as nat)],
{
    proof {
        reveal_strlit("0");
        reveal_strlit("1");
        reveal_strlit("2");
        reveal_strlit("3");
        reveal_strlit("4");
        reveal_strlit("5");
        reveal_strlit("6");
        reveal_strlit("7");
        reveal_strlit("8");
        reveal_strlit("9");
    }
    if d == 0 {
        "0"
    } else if d == 1 {
        "1"
    } else if d == 2 {
        "2"
    } else if d == 3 {
        "3"
    } else if d == 4 {
        "4"
    } else if d == 5 {
        "5"
    } else if d == 6 {
        "6"
    } else if d == 7 {
        "7"
    } else if d == 8 {
        "8"
    } else {
        "9"
    }
}

/// Appends the decimal spelling of `n` to `out`.
pub fn push_decimal(out: &mut String, n: u64)
    ensures
        final(out)@ == old(out)@ + decimal_of(n as nat),
    decreases n,
{
    if n >= 10 {
        push_decimal(out, n / 10);
    }
    out.append(digit_str(n % 10));
    proof {
        if n >= 10 {
            assert(decimal_of(n as nat) == decimal_of((n / 10) as nat).push(digit_char((n % 10) as nat)));
        }
    }
}

/// The decimal spelling of `n`.
pub fn decimal_text(n: u64) -> (r: String)
    ensures
        r@ == decimal_of(n as nat),
{
    let mut out = String::new();
    push_decimal(&mut out, n);
    assert(out@ == Seq::<char>::empty() + decimal_of(n as nat));
    out
}

/// Appends tenths written with one fractional digit (`3600` as `360.0`).
pub fn push_tenths(out: &mut String, n: u64)
    ensures
        final(out)@ == old(out)@ + tenths_text(n as nat),
{
    push_decimal(out, n / 10);
    proof {
        reveal_strlit(".");
    }
    out.append(".");
    out.append(digit_str(n % 10));
}

} // verus!
