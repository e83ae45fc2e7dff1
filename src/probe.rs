use vstd::prelude::*;

use crate::text::{
    all_digits, decimal, digit_char, digits_up_to, digits_value, find_char, first_index_of,
    integer_text, parse_i64,
    format_u128, format_u64, trim_of, trim_text,
};

verus! {

/// A non-negative rational number `num / den`; a zero `den` stands for zero.
#[derive(Clone, Copy, Debug, PartialEq, Eq, Structural)]
pub struct Ratio {
    pub num: u64,
    pub den: u64,
}

pub open spec fn pow10(n: nat) -> nat
    decreases n,
{
    if n == 0 {
        1
    } else {
        10 * pow10((n - 1) as nat)
    }
}

fn pow10_of(n: usize) -> (r: u64)
    requires
        n <= 19,
    ensures
        r == pow10(n as nat),
        r >= 1,
{
    proof {
        lemma_pow10_positive(n as nat);
        lemma_pow10_mono(n as nat, 19);
        reveal_with_fuel(pow10, 20);
    }
    let mut r: u64 = 1;
    let mut i: usize = 0;
    while i < n
        invariant
            i <= n <= 19,
            r == pow10(i as nat),
            pow10(n as nat) <= 10_000_000_000_000_000_000,
        decreases n - i,
    {
        proof {
            lemma_pow10_mono((i + 1) as nat, n as nat);
        }
        r = r * 10;
        i = i + 1;
    }
    r
}

proof fn lemma_pow10_positive(n: nat)
    ensures
        pow10(n) >= 1,
    decreases n,
{
    if n > 0 {
        lemma_pow10_positive((n - 1) as nat);
    }
}

/// The most significant digits of a number that are kept; further digits
/// are dropped.
pub const KEPT_DIGITS: usize = 18;

pub open spec fn clamp_i64(v: int) -> int {
    if v < i64::MIN {
        i64::MIN as int
    } else if v > i64::MAX {
        i64::MAX as int
    } else {
        v
    }
}

/// The position of the exponent mark: the first `e` or `E`.
pub open spec fn exponent_mark(s: Seq<char>) -> Option<int> {
    match first_index_of(s, 'e') {
        Some(a) => match first_index_of(s, 'E') {
            Some(b) => Some(if a <= b {
                a
            } else {
                b
            }),
            None => Some(a),
        },
        None => first_index_of(s, 'E'),
    }
}

/// Number text as `str::parse::<f64>` reads it, but for its words for
/// infinity and not-a-number: an optional sign, digits with at most one `.`
/// and at least one digit, then optionally `e` or `E` and a whole exponent.
/// Gives whether it is negative, its digits, and the power of ten they are
/// scaled by (an exponent beyond `i64` counts as the nearest `i64`).
pub open spec fn number_parts(s: Seq<char>) -> Option<(bool, Seq<char>, int)> {
    let neg = s.len() > 0 && s[0] == '-';
    let body = if s.len() > 0 && (s[0] == '+' || s[0] == '-') {
        s.drop_first()
    } else {
        s
    };
    let (mant, exp) = match exponent_mark(body) {
        Some(i) => (body.subrange(0, i), integer_text(body.subrange(i + 1, body.len() as int))),
        None => (body, Some(0int)),
    };
    let (whole, frac) = match first_index_of(mant, '.') {
        Some(i) => (mant.subrange(0, i), mant.subrange(i + 1, mant.len() as int)),
        None => (mant, Seq::empty()),
    };
    let digits = whole + frac;
    if exp is Some && digits.len() > 0 && all_digits(digits) {
        Some((neg, digits, clamp_i64(exp->Some_0) - frac.len()))
    } else {
        None
    }
}

/// The first `KEPT_DIGITS` of a run of digits.
pub open spec fn kept_digits(d: Seq<char>) -> Seq<char> {
    if d.len() > KEPT_DIGITS {
        d.subrange(0, KEPT_DIGITS as int)
    } else {
        d
    }
}

/// A number `digits * 10^shift` (negative where `neg`) as a non-negative
/// fraction over `u64`s: its leading `KEPT_DIGITS` digits are kept; a
/// negative number counts as zero; one too large saturates at `u64::MAX`;
/// one with too small a scale drops further fraction digits, over a
/// denominator of `10^19`.
pub open spec fn ratio_of_parts(neg: bool, digits: Seq<char>, shift: int) -> (int, int) {
    let k = kept_digits(digits);
    let n = digits_value(k);
    let sh = shift + (digits.len() - k.len());
    if neg || n == 0 {
        (0, 1)
    } else if sh >= 0 {
        if sh <= 19 && n * pow10(sh as nat) <= 0xffff_ffff_ffff_ffff {
            (n * pow10(sh as nat), 1)
        } else {
            (0xffff_ffff_ffff_ffff, 1)
        }
    } else if -sh <= 19 {
        (n, pow10((-sh) as nat) as int)
    } else {
        (n / (pow10((-sh - 19) as nat) as int), pow10(19) as int)
    }
}

/// The non-negative fraction that number text stands for.
pub open spec fn number_of(s: Seq<char>) -> Option<(int, int)> {
    match number_parts(s) {
        Some(p) => Some(ratio_of_parts(p.0, p.1, p.2)),
        None => None,
    }
}

proof fn lemma_digits_value_bound(s: Seq<char>)
    requires
        all_digits(s),
    ensures
        0 <= digits_value(s) < pow10(s.len()),
    decreases s.len(),
{
    if s.len() > 0 {
        let p = s.drop_last();
        assert(all_digits(p)) by {
            assert forall|j: int| 0 <= j < p.len() implies crate::text::is_digit(#[trigger] p[j]) by {
                assert(p[j] == s[j]);
            }
        }
        lemma_digits_value_bound(p);
        assert(crate::text::is_digit(s[s.len() - 1]));
    }
}

fn exponent_mark_of(s: &str) -> (r: Option<usize>)
    ensures
        r matches Some(i) ==> i < s@.len() && exponent_mark(s@) == Some(i as int),
        r is None ==> exponent_mark(s@) is None,
{
    match find_char(s, 'e') {
        Some(a) => match find_char(s, 'E') {
            Some(b) => Some(if a <= b {
                a
            } else {
                b
            }),
            None => Some(a),
        },
        None => find_char(s, 'E'),
    }
}

fn all_digits_of(s: &str) -> (r: bool)
    ensures
        r == all_digits(s@),
{
    let n = s.unicode_len();
    let mut i: usize = 0;
    while i < n
        invariant
            i <= n,
            n == s@.len(),
            forall|j: int| 0 <= j < i ==> crate::text::is_digit(#[trigger] s@[j]),
        decreases n - i,
    {
        let c = s.get_char(i);
        if c < '0' || c > '9' {
            return false;
        }
        i = i + 1;
    }
    true
}

/// Reads an exponent, kept within `i64`.
fn parse_exponent(t: &str) -> (r: Option<i64>)
    ensures
        r matches Some(v) ==> integer_text(t@) is Some && v == clamp_i64(integer_text(t@)->Some_0),
        r is None <==> integer_text(t@) is None,
{
    match parse_i64(t) {
        Some(v) => Some(v),
        None => {
            let n = t.unicode_len();
            if n == 0 {
                return None;
            }
            let c = t.get_char(0);
            if c == '+' || c == '-' {
                let rest = t.substring_char(1, n);
                assert(rest@ =~= t@.drop_first());
                if n == 1 || !all_digits_of(rest) {
                    return None;
                }
                proof {
                    crate::text::lemma_digits_value_nonneg(rest@);
                }
                if c == '-' {
                    Some(i64::MIN)
                } else {
                    Some(i64::MAX)
                }
            } else {
                if !all_digits_of(t) {
                    return None;
                }
                proof {
                    crate::text::lemma_digits_value_nonneg(t@);
                }
                Some(i64::MAX)
            }
        },
    }
}

proof fn lemma_small_over_pow10(n: int, x: nat)
    requires
        0 <= n < 1_000_000_000_000_000_000,
        x >= 19,
    ensures
        n / (pow10(x) as int) == 0,
{
    lemma_pow10_mono(19, x);
    reveal_with_fuel(pow10, 20);
    assert(pow10(19) == 10_000_000_000_000_000_000);
    let p = pow10(x) as int;
    assert(n / p == 0) by (nonlinear_arith)
        requires
            0 <= n < p,
    ;
}

/// Splits number text into its sign, digits and scale.
fn number_parts_of(s: &str) -> (r: Option<(bool, String, i128)>)
    ensures
        match number_parts(s@) {
            Some(p) => r matches Some(q) && q.0 == p.0 && q.1@ == p.1 && q.2 == p.2,
            None => r is None,
        },
        r matches Some(q) ==> -0x2_0000_0000_0000_0000i128 < q.2 <= i64::MAX,
{
    let n = s.unicode_len();
    let mut start: usize = 0;
    let mut neg = false;
    if n > 0 {
        let c = s.get_char(0);
        if c == '-' {
            neg = true;
            start = 1;
        } else if c == '+' {
            start = 1;
        }
    }
    let body = s.substring_char(start, n);
    assert(body@ =~= if s@.len() > 0 && (s@[0] == '+' || s@[0] == '-') {
        s@.drop_first()
    } else {
        s@
    });
    let blen = body.unicode_len();
    let (mant, exp): (&str, Option<i64>) = match exponent_mark_of(body) {
        Some(i) => (body.substring_char(0, i), parse_exponent(body.substring_char(i + 1, blen))),
        None => (body, Some(0)),
    };
    let exp = match exp {
        Some(e) => e,
        None => return None,
    };
    let mlen = mant.unicode_len();
    let empty = "";
    proof {
        reveal_strlit("");
    }
    let (whole, frac): (&str, &str) = match find_char(mant, '.') {
        Some(i) => (mant.substring_char(0, i), mant.substring_char(i + 1, mlen)),
        None => (mant, empty),
    };
    let digits = String::from_str(whole).concat(frac);
    let count = digits.as_str().unicode_len();
    let frac_len = frac.unicode_len();
    if count == 0 || !all_digits_of(digits.as_str()) {
        return None;
    }
    Some((neg, digits, exp as i128 - frac_len as i128))
}

/// The value of the leading `KEPT_DIGITS` of a run of digits.
fn kept_value(digits: &str) -> (r: u64)
    requires
        all_digits(digits@),
    ensures
        r == digits_value(kept_digits(digits@)),
        r < 1_000_000_000_000_000_000,
{
    let count = digits.unicode_len();
    let keep: usize = if count > KEPT_DIGITS {
        KEPT_DIGITS
    } else {
        count
    };
    let kept = digits.substring_char(0, keep);
    let ghost k = kept_digits(digits@);
    assert(kept@ =~= k);
    proof {
        assert(all_digits(k)) by {
            assert forall|j: int| 0 <= j < k.len() implies crate::text::is_digit(#[trigger] k[j]) by {
                assert(k[j] == digits@[j]);
            }
        }
        lemma_digits_value_bound(k);
        lemma_pow10_mono(k.len(), 18);
        reveal_with_fuel(pow10, 19);
        assert(pow10(18) == 1_000_000_000_000_000_000);
        assert(kept@.subrange(0, kept@.len() as int) =~= kept@);
    }
    match digits_up_to(kept, 0, 18_446_744_073_709_551_615u64) {
        Some(v) => v,
        None => {
            assert(false);
            0
        },
    }
}

/// A number with `n` as its kept digits, scaled by `10^sh`, as a fraction.
fn scaled_ratio(n: u64, sh: i128) -> (r: Ratio)
    requires
        0 < n < 1_000_000_000_000_000_000,
        -0x4_0000_0000_0000_0000i128 < sh < 0x4_0000_0000_0000_0000i128,
    ensures
        ({
            let v = if sh >= 0 {
                if sh <= 19 && (n as int) * pow10(sh as nat) <= 0xffff_ffff_ffff_ffff {
                    ((n as int) * pow10(sh as nat), 1int)
                } else {
                    (0xffff_ffff_ffff_ffffint, 1int)
                }
            } else if -sh <= 19 {
                (n as int, pow10((-sh) as nat) as int)
            } else {
                ((n as int) / (pow10((-sh - 19) as nat) as int), pow10(19) as int)
            };
            r.num == v.0 && r.den == v.1
        }),
{
    if sh >= 0 {
        if sh <= 19 {
            let p = pow10_of(sh as usize) as u128;
            proof {
                lemma_pow10_mono(sh as nat, 19);
                reveal_with_fuel(pow10, 20);
            }
            assert((n as u128) * p <= 1_000_000_000_000_000_000u128 * 10_000_000_000_000_000_000u128)
                by (nonlinear_arith)
                requires
                    n < 1_000_000_000_000_000_000u64,
                    p <= 10_000_000_000_000_000_000u128,
            ;
            proof {
                lemma_pow10_mono(sh as nat, 19);
                reveal_with_fuel(pow10, 20);
            }
            let v: u128 = (n as u128) * p;
            if v <= 0xffff_ffff_ffff_ffffu128 {
                Ratio { num: v as u64, den: 1 }
            } else {
                Ratio { num: 0xffff_ffff_ffff_ffffu64, den: 1 }
            }
        } else {
            Ratio { num: 0xffff_ffff_ffff_ffffu64, den: 1 }
        }
    } else {
        let m: i128 = -sh;
        if m <= 19 {
            Ratio { num: n, den: pow10_of(m as usize) }
        } else {
            let x: i128 = m - 19;
            let q: u64 = if x >= 19 {
                proof {
                    lemma_small_over_pow10(n as int, x as nat);
                }
                0
            } else {
                n / pow10_of(x as usize)
            };
            Ratio { num: q, den: pow10_of(19) }
        }
    }
}

/// Parses number text as `str::parse::<f64>` reads it (but for infinity and
/// not-a-number), into a non-negative fraction.
pub fn parse_number(s: &str) -> (r: Option<Ratio>)
    ensures
        match number_of(s@) {
            Some(v) => r matches Some(q) && q.num == v.0 && q.den == v.1,
            None => r is None,
        },
{
    let (neg, digits, shift) = match number_parts_of(s) {
        Some(p) => p,
        None => return None,
    };
    let nv = kept_value(digits.as_str());
    let count = digits.as_str().unicode_len();
    let dropped: usize = if count > KEPT_DIGITS {
        count - KEPT_DIGITS
    } else {
        0
    };
    if neg || nv == 0 {
        return Some(Ratio { num: 0, den: 1 });
    }
    assert(kept_digits(digits@).len() == count - dropped);
    Some(scaled_ratio(nv, shift + dropped as i128))
}

proof fn lemma_pow10_mono(a: nat, b: nat)
    requires
        a <= b,
    ensures
        pow10(a) <= pow10(b),
    decreases b,
{
    if a < b {
        lemma_pow10_mono(a, (b - 1) as nat);
        lemma_pow10_positive((b - 1) as nat);
    }
}

/// A frame rate as the probe writes it: `num/den`, where both are decimal
/// numbers (a zero `den` gives zero) and the fraction, written over whole
/// numbers, fits in `u64`s; or a plain decimal number, which counts as zero
/// where it does not parse. `None` where a `num/den` form does not parse.
pub open spec fn frame_rate_of(s: Seq<char>) -> Option<(int, int)> {
    match first_index_of(s, '/') {
        Some(i) => {
            let a = number_of(s.subrange(0, i));
            let b = number_of(s.subrange(i + 1, s.len() as int));
            if a is Some && b is Some {
                let num = a->Some_0.0 * b->Some_0.1;
                let den = b->Some_0.0 * a->Some_0.1;
                if num <= u64::MAX && den <= u64::MAX {
                    Some((num, den))
                } else {
                    None
                }
            } else {
                None
            }
        },
        None => match number_of(s) {
            Some(v) => Some(v),
            None => Some((0, 1)),
        },
    }
}

fn parse_rate_fraction(s: &str, i: usize) -> (r: Option<Ratio>)
    requires
        i < s@.len(),
    ensures
        ({
            let a = number_of(s@.subrange(0, i as int));
            let b = number_of(s@.subrange(i + 1, s@.len() as int));
            let num = a->Some_0.0 * b->Some_0.1;
            let den = b->Some_0.0 * a->Some_0.1;
            &&& (a is Some && b is Some && num <= u64::MAX && den <= u64::MAX) ==> (r matches Some(q)
                && q.num == num && q.den == den)
            &&& !(a is Some && b is Some && num <= u64::MAX && den <= u64::MAX) ==> r is None
        }),
{
    let n = s.unicode_len();
    let left = s.substring_char(0, i);
    let right = s.substring_char(i + 1, n);
    let a = parse_number(left);
    let b = parse_number(right);
    if let Some(x) = a {
        if let Some(y) = b {
            let (xn, xd, yn, yd) = (x.num as u128, x.den as u128, y.num as u128, y.den as u128);
            assert(xn * yd <= 0xffff_ffff_ffff_ffffu128 * 0xffff_ffff_ffff_ffffu128) by (nonlinear_arith)
                requires
                    xn <= 0xffff_ffff_ffff_ffffu128,
                    yd <= 0xffff_ffff_ffff_ffffu128,
            ;
            assert(yn * xd <= 0xffff_ffff_ffff_ffffu128 * 0xffff_ffff_ffff_ffffu128) by (nonlinear_arith)
                requires
                    yn <= 0xffff_ffff_ffff_ffffu128,
                    xd <= 0xffff_ffff_ffff_ffffu128,
            ;
            let num: u128 = xn * yd;
            let den: u128 = yn * xd;
            if num <= 0xffff_ffff_ffff_ffffu128 && den <= 0xffff_ffff_ffff_ffffu128 {
                return Some(Ratio { num: num as u64, den: den as u64 });
            }
        }
    }
    None
}

/// Parses a frame rate as the probe writes it.
pub fn parse_frame_rate(s: &str) -> (r: Option<Ratio>)
    ensures
        match frame_rate_of(s@) {
            Some(v) => r matches Some(q) && q.num == v.0 && q.den == v.1,
            None => r is None,
        },
{
    match find_char(s, '/') {
        Some(i) => parse_rate_fraction(s, i),
        None => match parse_number(s) {
            Some(q) => Some(q),
            None => Some(Ratio { num: 0, den: 1 }),
        },
    }
}

/// What the probe reports from its two outputs: the duration in seconds and
/// the frame rate, each trimmed; none where either does not parse.
pub open spec fn probe_of(duration_out: Seq<char>, rate_out: Seq<char>) -> Option<((int, int), (int, int))> {
    match number_of(trim_of(duration_out)) {
        Some(d) => match frame_rate_of(trim_of(rate_out)) {
            Some(f) => Some((d, f)),
            None => None,
        },
        None => None,
    }
}

/// Reads the probe's outputs: the duration in seconds and the frame rate.
pub fn parse_probe_output(duration_out: &str, rate_out: &str) -> (r: Option<(Ratio, Ratio)>)
    ensures
        match probe_of(duration_out@, rate_out@) {
            Some(v) => r matches Some(q) && q.0.num == v.0.0 && q.0.den == v.0.1 && q.1.num == v.1.0
                && q.1.den == v.1.1,
            None => r is None,
        },
{
    let d = trim_text(duration_out);
    let duration = match parse_number(d.as_str()) {
        Some(q) => q,
        None => return None,
    };
    let f = trim_text(rate_out);
    match parse_frame_rate(f.as_str()) {
        Some(rate) => Some((duration, rate)),
        None => None,
    }
}

/// `n / d` rounded to the nearest whole number, halves away from zero.
pub open spec fn round_div(n: int, d: int) -> int {
    (2 * n + d) / (2 * d)
}

/// The estimated number of frames: duration times frame rate, rounded, and
/// at most `i64::MAX`; zero where either is not positive or unknown.
pub open spec fn total_frames_of(probe: Option<(Ratio, Ratio)>) -> int {
    match probe {
        Some((d, f)) => if d.num > 0 && d.den > 0 && f.num > 0 && f.den > 0 {
            let v = round_div(d.num * f.num, d.den * f.den);
            if v > i64::MAX {
                i64::MAX as int
            } else {
                v
            }
        } else {
            0
        },
        None => 0,
    }
}

proof fn lemma_round_div(n: int, m: int)
    requires
        n >= 0,
        m > 0,
    ensures
        round_div(n, m) == n / m + if n % m >= m - n % m {
            1int
        } else {
            0
        },
{
    let q = n / m;
    let r = n % m;
    vstd::arithmetic::div_mod::lemma_fundamental_div_mod(n, m);
    vstd::arithmetic::div_mod::lemma_mod_bound(n, m);
    if r >= m - r {
        assert(2 * n + m == (q + 1) * (2 * m) + (2 * r - m)) by (nonlinear_arith)
            requires
                n == m * q + r,
        ;
        vstd::arithmetic::div_mod::lemma_fundamental_div_mod_converse(2 * n + m, 2 * m, q + 1, 2 * r - m);
    } else {
        assert(2 * n + m == q * (2 * m) + (2 * r + m)) by (nonlinear_arith)
            requires
                n == m * q + r,
        ;
        vstd::arithmetic::div_mod::lemma_fundamental_div_mod_converse(2 * n + m, 2 * m, q, 2 * r + m);
    }
}

/// Estimates how many frames a video holds from what the probe reported.
pub fn estimate_total_frames(probe: Option<(Ratio, Ratio)>) -> (r: u64)
    ensures
        r == total_frames_of(probe),
{
    match probe {
        Some((d, f)) => {
            if d.num > 0 && d.den > 0 && f.num > 0 && f.den > 0 {
                let a: u128 = d.num as u128;
                let b: u128 = f.num as u128;
                let c: u128 = d.den as u128;
                let e: u128 = f.den as u128;
                assert(a * b <= 0xffff_ffff_ffff_ffffu128 * 0xffff_ffff_ffff_ffffu128) by (nonlinear_arith)
                    requires
                        a <= 0xffff_ffff_ffff_ffffu128,
                        b <= 0xffff_ffff_ffff_ffffu128,
                ;
                assert(1 <= c * e <= 0xffff_ffff_ffff_ffffu128 * 0xffff_ffff_ffff_ffffu128) by (nonlinear_arith)
                    requires
                        1 <= c <= 0xffff_ffff_ffff_ffffu128,
                        1 <= e <= 0xffff_ffff_ffff_ffffu128,
                ;
                let n: u128 = a * b;
                let m: u128 = c * e;
                let q: u128 = n / m;
                let rem: u128 = n % m;
                proof {
                    lemma_round_div(n as int, m as int);
                }
                if q > 9_223_372_036_854_775_806u128 {
                    9_223_372_036_854_775_807u64
                } else {
                    let v: u128 = if rem >= m - rem {
                        q + 1
                    } else {
                        q
                    };
                    v as u64
                }
            } else {
                0
            }
        },
        None => 0,
    }
}

/// The frame rate a re-encode writes, in millionths of a frame per second:
/// twice the probed rate (30 where the probe failed), and at least 1, rounded
/// to the nearest millionth.
pub open spec fn output_rate_micros(probed: Option<Ratio>) -> int {
    let (n, d) = match probed {
        Some(q) => if q.den > 0 {
            (q.num as int, q.den as int)
        } else {
            (0, 1)
        },
        None => (30, 1),
    };
    if 2 * n < d {
        1_000_000
    } else {
        round_div(2 * n * 1_000_000, d)
    }
}

/// `n` in exactly `width` decimal digits, with leading zeros.
pub open spec fn padded(n: nat, width: nat) -> Seq<char>
    decreases width,
{
    if width == 0 {
        Seq::empty()
    } else {
        padded(n / 10, (width - 1) as nat) + seq![digit_char((n % 10) as int)]
    }
}

/// A number of millionths written with six decimals, as `{:.6}` writes it.
pub open spec fn fixed6_text(micros: nat) -> Seq<char> {
    decimal(micros / 1_000_000) + "."@ + padded(micros % 1_000_000, 6)
}

fn padded_digits(n: u64, width: u32) -> (r: String)
    ensures
        r@ == padded(n as nat, width as nat),
    decreases width,
{
    if width == 0 {
        String::new()
    } else {
        let mut s = padded_digits(n / 10, width - 1);
        let d = format_u64(n % 10);
        s.append(d.as_str());
        s
    }
}

/// The frame rate a re-encode writes, from the probed rate of the original.
pub fn output_rate_text(probed: Option<Ratio>) -> (r: String)
    ensures
        output_rate_micros(probed) >= 0,
        r@ == fixed6_text(output_rate_micros(probed) as nat),
{
    let (n, d): (u128, u128) = match probed {
        Some(q) => if q.den > 0 {
            (q.num as u128, q.den as u128)
        } else {
            (0, 1)
        },
        None => (30, 1),
    };
    let micros: u128 = if 2 * n < d {
        1_000_000
    } else {
        assert(4 * n * 1_000_000 <= 4 * 0xffff_ffff_ffff_ffffu128 * 1_000_000) by (nonlinear_arith)
            requires
                n <= 0xffff_ffff_ffff_ffffu128,
        ;
        (4 * n * 1_000_000 + d) / (2 * d)
    };
    assert(micros <= 0xffff_ffff_ffff_ffffu128 * 2_000_001) by (nonlinear_arith)
        requires
            micros == 1_000_000 || (micros == (4 * n * 1_000_000 + d) / (2 * d) && d >= 1 && n
                <= 0xffff_ffff_ffff_ffffu128 && d <= 0xffff_ffff_ffff_ffffu128),
    ;
    assert(micros == output_rate_micros(probed));
    let whole: u128 = micros / 1_000_000;
    let frac: u64 = (micros % 1_000_000) as u64;
    let mut s = format_u128(whole);
    s.append(".");
    let p = padded_digits(frac, 6);
    s.append(p.as_str());
    assert(s@ =~= fixed6_text(output_rate_micros(probed) as nat));
    s
}

} // verus!
