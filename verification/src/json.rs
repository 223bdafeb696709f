//! The library's JSON document model.
//!
//! Values arrive here already decoded (the boundary turns text into a
//! `Json`); every rule that inspects a document works on this type.
//! Numbers are kept as exact decimals — the digits a number was written
//! with — so that the library never computes in floating point.

use vstd::prelude::*;
use crate::text::{
    chars_of, dec, dec_string, digit_char, hex2, hex_char, push_char, push_chars, push_dec, push_hex2,
    push_str, str_eq, string_from_range,
};

verus! {

/// An exact decimal number: `(-1)^negative * digits * 10^exponent`.
///
/// A number that stands for a float is the shortest decimal that reads
/// back as that float, which is what `{}` prints of it; the functions that
/// follow the float's own arithmetic (`nearly_integral`, `channel`) speak
/// of that float.
///
/// `integer` records whether the number was written as an integer
/// literal (no fraction, no exponent), which is what decides whether it
/// may be read as an unsigned integer.
#[derive(Debug, Clone, Copy, PartialEq, Eq)]
pub struct Decimal {
    pub negative: bool,
    pub digits: u64,
    pub exponent: i32,
    pub integer: bool,
}

/// A JSON value. Object members keep the order they were given in.
#[derive(Debug)]
pub enum Json {
    Null,
    Bool(bool),
    Number(Decimal),
    Str(String),
    Array(Vec<Json>),
    Object(Vec<(String, Json)>),
}

// ── numbers ────────────────────────────────────────────────────────────────

pub open spec fn pow10(n: nat) -> nat
    decreases n,
{
    if n == 0 {
        1
    } else {
        10 * pow10((n - 1) as nat)
    }
}

/// `n` zero characters.
pub open spec fn zeros(n: nat) -> Seq<char> {
    Seq::new(n, |i: int| '0')
}

/// Rendering of a magnitude `digits * 10^exponent` without a sign, the way
/// `{}` prints a float: plain positional notation, never an exponent.
pub open spec fn magnitude_text(digits: nat, exponent: int) -> Seq<char> {
    let s = dec(digits);
    if exponent >= 0 {
        if digits == 0 {
            s
        } else {
            s + zeros(exponent as nat)
        }
    } else {
        let k = -exponent;
        if s.len() > k {
            s.subrange(0, s.len() - k) + seq!['.'] + s.subrange(s.len() - k, s.len() as int)
        } else {
            seq!['0', '.'] + zeros((k - s.len()) as nat) + s
        }
    }
}

/// `{}` of the number.
pub open spec fn decimal_text(d: Decimal) -> Seq<char> {
    if d.negative {
        seq!['-'] + magnitude_text(d.digits as nat, d.exponent as int)
    } else {
        magnitude_text(d.digits as nat, d.exponent as int)
    }
}

/// The magnitude's integer part.
pub open spec fn int_part(d: Decimal) -> nat {
    if d.exponent >= 0 {
        (d.digits as nat) * pow10(d.exponent as nat)
    } else {
        d.digits as nat / pow10((-d.exponent) as nat)
    }
}

/// `x.fract().abs() < f64::EPSILON` of the float `x` that the number
/// stands for. From one as a magnitude of at least one, the float's
/// fraction is zero or at least `EPSILON` (2^-52), so it must be whole.
/// Below one the fraction is the float itself, which is under `EPSILON`
/// exactly when the number lies below the midpoint 2^-52 - 2^-106 between
/// `EPSILON` and the float under it (a number on that midpoint rounds to
/// `EPSILON`).
pub open spec fn nearly_integral(d: Decimal) -> bool {
    if d.exponent >= 0 {
        true
    } else if at_least_one(d) {
        d.digits as nat % pow10((-d.exponent) as nat) == 0
    } else {
        (d.digits as nat) * 0x400_0000_0000_0000_0000_0000_0000nat < 0x3f_ffff_ffff_ffffnat * pow10(
            (-d.exponent) as nat,
        )
    }
}

/// The signed integer a number converts to with saturation (`as i64`).
pub open spec fn saturated_i64(d: Decimal) -> int {
    let m = int_part(d);
    if d.negative {
        if m > 0x8000_0000_0000_0000 { -0x8000_0000_0000_0000 } else { -(m as int) }
    } else {
        if m > 0x7fff_ffff_ffff_ffff { 0x7fff_ffff_ffff_ffff } else { m as int }
    }
}

/// Decimal rendering of a signed integer.
pub open spec fn int_text(n: int) -> Seq<char> {
    if n < 0 {
        seq!['-'] + dec((-n) as nat)
    } else {
        dec(n as nat)
    }
}

/// How a token number is shown: whole numbers as integers, others as
/// written.
pub open spec fn number_label(d: Decimal) -> Seq<char> {
    if nearly_integral(d) {
        int_text(saturated_i64(d))
    } else {
        decimal_text(d)
    }
}

/// The magnitude is at least one.
pub open spec fn at_least_one(d: Decimal) -> bool {
    if d.exponent >= 0 {
        d.digits > 0
    } else {
        d.digits >= pow10((-d.exponent) as nat)
    }
}

/// `2^n`.
pub open spec fn pow2(n: nat) -> nat
    decreases n,
{
    if n == 0 {
        1
    } else {
        2 * pow2((n - 1) as nat)
    }
}

/// `num / den` rounded to the nearest integer, a tie going to the even
/// one: how a float operation rounds its exact result.
pub open spec fn round_half_even(num: nat, den: nat) -> nat {
    let q = num / den;
    let r = num % den;
    if 2 * r > den || (2 * r == den && q % 2 == 1) {
        q + 1
    } else {
        q
    }
}

/// The number of binary digits of `n`.
pub open spec fn bit_len(n: nat) -> nat
    decreases n,
{
    if n == 0 {
        0
    } else {
        1 + bit_len(n / 2)
    }
}

/// For a value `digits / den` below one: the first `j` from the given one
/// up to 10 with the value at least `2^-j`, or 11 when it is below `2^-10`.
pub open spec fn halvings(digits: nat, den: nat, j: nat) -> nat
    decreases 11 - j,
{
    if j >= 11 {
        11
    } else if digits * pow2(j) >= den {
        j
    } else {
        halvings(digits, den, j + 1)
    }
}

/// One colour channel: `(x.clamp(0.0, 1.0) * 255.0).round()`, clamped to
/// `0..=255`, for the float `x` nearest to the number.
///
/// A value `v` in `[2^-j, 2^(1-j))` is the float `m * 2^-(52 + j)` with
/// `m` its 53-bit significand rounded half to even. The product `255 * m`
/// is rounded to 53 significant bits, `p * 2^s`, and the result rounded
/// half away from zero. A value below `2^-10` gives a product under a
/// quarter, which rounds to 0.
pub open spec fn channel(d: Decimal) -> nat {
    if d.negative || d.digits == 0 {
        0
    } else if at_least_one(d) {
        255
    } else {
        let den = pow10((-d.exponent) as nat);
        let j = halvings(d.digits as nat, den, 1);
        if j == 11 {
            0
        } else {
            let m = round_half_even(d.digits as nat * pow2(52 + j), den);
            let n = 255 * m;
            let s: nat = if bit_len(n) > 53 {
                (bit_len(n) - 53) as nat
            } else {
                0
            };
            let p = round_half_even(n, pow2(s));
            let r = (2 * p * pow2(s) + pow2(52 + j)) / pow2(53 + j);
            if r > 255 {
                255
            } else {
                r
            }
        }
    }
}

/// The number is strictly below zero.
pub open spec fn is_below_zero(d: Decimal) -> bool {
    d.negative && d.digits > 0
}

pub proof fn lemma_pow10_pos(n: nat)
    ensures
        pow10(n) >= 1,
    decreases n,
{
    if n > 0 {
        lemma_pow10_pos((n - 1) as nat);
    }
}

pub proof fn lemma_pow10_mono(a: nat, b: nat)
    requires
        a <= b,
    ensures
        pow10(a) <= pow10(b),
    decreases b,
{
    if a < b {
        lemma_pow10_mono(a, (b - 1) as nat);
        lemma_pow10_pos((b - 1) as nat);
    }
}

/// `10^n` for `n <= 38`, which fits in 128 bits.
pub fn pow10_u128(n: u32) -> (r: u128)
    requires
        n <= 38,
    ensures
        r == pow10(n as nat),
{
    let mut r: u128 = 1;
    let mut i: u32 = 0;
    while i < n
        invariant
            i <= n <= 38,
            r == pow10(i as nat),
        decreases n - i,
    {
        proof {
            lemma_pow10_mono(i as nat, 37);
            lemma_pow10_values();
        }
        r = r * 10;
        i = i + 1;
    }
    r
}

proof fn lemma_pow10_values()
    ensures
        pow10(18) == 1000000000000000000nat,
        pow10(19) == 10000000000000000000nat,
        pow10(37) == 10000000000000000000000000000000000000nat,
        pow10(38) == 100000000000000000000000000000000000000nat,
{
    reveal_with_fuel(pow10, 40);
}

proof fn lemma_pow10_38()
    ensures
        pow10(38) == 100000000000000000000000000000000000000nat,
{
    lemma_pow10_values();
}

/// Appends `n` zero characters.
fn push_zeros(s: &mut String, n: u64)
    ensures
        final(s)@ == old(s)@ + zeros(n as nat),
{
    let mut i: u64 = 0;
    while i < n
        invariant
            i <= n,
            s@ == old(s)@ + zeros(i as nat),
        decreases n - i,
    {
        push_char(s, '0');
        i = i + 1;
        assert(s@ =~= old(s)@ + zeros(i as nat));
    }
}

/// Appends `{}` of the number.
pub fn push_decimal(s: &mut String, d: &Decimal)
    ensures
        final(s)@ == old(s)@ + decimal_text(*d),
{
    if d.negative {
        push_char(s, '-');
    }
    let ghost mid = s@;
    let digits = dec_string(d.digits);
    let dv = chars_of(digits.as_str());
    if d.exponent >= 0 {
        push_chars(s, &dv);
        if d.digits != 0 {
            push_zeros(s, d.exponent as u64);
        }
    } else {
        let k: u64 = (0i64 - d.exponent as i64) as u64;
        if dv.len() as u64 > k {
            let cut: usize = dv.len() - k as usize;
            let head = string_from_range(&dv, 0, cut);
            let tail = string_from_range(&dv, cut, dv.len());
            push_str(s, head.as_str());
            push_char(s, '.');
            push_str(s, tail.as_str());
        } else {
            push_char(s, '0');
            push_char(s, '.');
            push_zeros(s, k - dv.len() as u64);
            push_chars(s, &dv);
        }
    }
    assert(s@ =~= mid + magnitude_text(d.digits as nat, d.exponent as int));
    assert(final(s)@ =~= old(s)@ + decimal_text(*d));
}

/// The integer part and whether the fraction is below `f64::EPSILON`,
/// with the integer part capped just above the `i64` range.
fn split_magnitude(d: &Decimal) -> (r: (u128, bool))
    ensures
        r.1 == nearly_integral(*d),
        int_part(*d) <= 0x8000_0000_0000_0000 ==> r.0 == int_part(*d),
        int_part(*d) > 0x8000_0000_0000_0000 ==> r.0 == 0x8000_0000_0000_0001u128,
{
    let cap: u128 = 0x8000_0000_0000_0001;
    if d.exponent >= 0 {
        let e = d.exponent as u32;
        if d.digits == 0 {
            assert(0 * pow10(e as nat) == 0) by (nonlinear_arith);
            return (0, true);
        }
        if e >= 19 {
            proof {
                lemma_pow10_mono(19, e as nat);
                lemma_pow10_values();
                assert(d.digits * pow10(e as nat) >= pow10(e as nat)) by (nonlinear_arith)
                    requires d.digits >= 1;
            }
            return (cap, true);
        }
        let p = pow10_u128(e);
        proof {
            lemma_pow10_mono(e as nat, 18);
            lemma_pow10_values();
            assert(d.digits * pow10(e as nat) <= 0xffff_ffff_ffff_ffff * 1000000000000000000nat)
                by (nonlinear_arith)
                requires d.digits <= 0xffff_ffff_ffff_ffff, pow10(e as nat) <= 1000000000000000000nat;
        }
        let m: u128 = d.digits as u128 * p;
        if m > 0x8000_0000_0000_0000 {
            (cap, true)
        } else {
            (m, true)
        }
    } else {
        let k: u64 = (0i64 - d.exponent as i64) as u64;
        if k > 38 {
            proof {
                let kk = k as nat;
                lemma_pow10_mono(38, kk);
                lemma_pow10_38();
                assert(d.digits as nat % pow10(kk) == d.digits as nat) by {
                    vstd::arithmetic::div_mod::lemma_small_mod(d.digits as nat, pow10(kk));
                }
                assert(d.digits as nat / pow10(kk) == 0) by {
                    vstd::arithmetic::div_mod::lemma_basic_div(d.digits as int, pow10(kk) as int);
                }
                assert((d.digits as nat) * 0x400_0000_0000_0000_0000_0000_0000nat < 0x3f_ffff_ffff_ffffnat
                    * pow10(kk)) by (nonlinear_arith)
                    requires d.digits <= 0xffff_ffff_ffff_ffff,
                        pow10(kk) >= 100000000000000000000000000000000000000nat;
            }
            return (0, true);
        }
        let p = pow10_u128(k as u32);
        proof {
            lemma_pow10_pos(k as nat);
        }
        let ip: u128 = d.digits as u128 / p;
        let frac: u128 = d.digits as u128 % p;
        proof {
            lemma_pow10_38();
            lemma_pow10_mono(k as nat, 38);
            assert(frac < p);
            assert(frac * 0x10_0000_0000_0000 < 100000000000000000000000000000000000000u128
                * 0x10_0000_0000_0000) by (nonlinear_arith)
                requires frac < 100000000000000000000000000000000000000u128;
        }
        proof {
            assert(frac <= d.digits) by (nonlinear_arith)
                requires frac == d.digits as u128 % p, p >= 1;
            assert(ip <= d.digits) by (nonlinear_arith)
                requires ip == d.digits as u128 / p, p >= 1;
            assert(frac * 0x10_0000_0000_0000 <= 0xffff_ffff_ffff_ffffu128 * 0x10_0000_0000_0000)
                by (nonlinear_arith)
                requires frac <= 0xffff_ffff_ffff_ffffu128;
        }
        let small = if ip >= 1 {
            frac == 0
        } else {
            let a: u128 = d.digits as u128 * 0x10_0000_0000_0000;
            let below = a < p && p - a > p / 0x40_0000_0000_0000;
            proof {
                let t: nat = 0x40_0000_0000_0000;
                vstd::arithmetic::div_mod::lemma_fundamental_div_mod(p as int, t as int);
                let q = p / (t as u128);
                let r = p % (t as u128);
                assert((d.digits as nat) * 0x400_0000_0000_0000_0000_0000_0000nat == a * t) by (nonlinear_arith)
                    requires a == d.digits * 0x10_0000_0000_0000, t == 0x40_0000_0000_0000nat;
                assert(0x3f_ffff_ffff_ffffnat * p == t * p - p) by (nonlinear_arith)
                    requires t == 0x40_0000_0000_0000nat;
                if a < p {
                    if p - a > q {
                        assert(t * (p - a) >= t * (q + 1)) by (nonlinear_arith)
                            requires p - a >= q + 1;
                        assert(a * t < t * p - p) by (nonlinear_arith)
                            requires t * (p - a) >= t * (q + 1), p == t * q + r, r < t, a < p;
                    } else {
                        assert(t * (p - a) <= t * q) by (nonlinear_arith)
                            requires p - a <= q;
                        assert(!(a * t < t * p - p)) by (nonlinear_arith)
                            requires t * (p - a) <= t * q, p == t * q + r, r >= 0, a < p;
                    }
                } else {
                    assert(!(a * t < t * p - p)) by (nonlinear_arith)
                        requires a >= p, p >= 0;
                }
            }
            below
        };
        proof {
            if ip >= 1 {
                assert(d.digits >= p) by (nonlinear_arith)
                    requires ip == d.digits as u128 / p, ip >= 1, p >= 1;
            } else {
                assert(d.digits < p) by (nonlinear_arith)
                    requires ip == d.digits as u128 / p, ip == 0, p >= 1;
            }
        }
        if ip > 0x8000_0000_0000_0000 {
            (cap, small)
        } else {
            (ip, small)
        }
    }
}

/// The label a token number is shown with (see [`number_label`]).
pub fn push_number_label(s: &mut String, d: &Decimal)
    ensures
        final(s)@ == old(s)@ + number_label(*d),
{
    let (m, integral) = split_magnitude(d);
    if integral {
        if d.negative {
            if m >= 0x8000_0000_0000_0000 {
                push_char(s, '-');
                push_dec(s, 0x8000_0000_0000_0000u64);
            } else if m == 0 {
                push_dec(s, 0);
            } else {
                push_char(s, '-');
                push_dec(s, m as u64);
            }
        } else {
            if m > 0x7fff_ffff_ffff_ffff {
                push_dec(s, 0x7fff_ffff_ffff_ffff);
            } else {
                push_dec(s, m as u64);
            }
        }
        assert(final(s)@ =~= old(s)@ + number_label(*d));
    } else {
        push_decimal(s, d);
    }
}

proof fn lemma_pow2_pos(n: nat)
    ensures
        pow2(n) >= 1,
    decreases n,
{
    if n > 0 {
        lemma_pow2_pos((n - 1) as nat);
    }
}

proof fn lemma_pow2_add(a: nat, b: nat)
    ensures
        pow2(a + b) == pow2(a) * pow2(b),
    decreases a,
{
    if a > 0 {
        let a1 = (a - 1) as nat;
        lemma_pow2_add(a1, b);
        assert(a + b == (a1 + b) + 1);
        assert(pow2(a + b) == 2 * pow2(a1 + b));
        assert(pow2(a) == 2 * pow2(a1));
        assert(2 * (pow2((a - 1) as nat) * pow2(b)) == (2 * pow2((a - 1) as nat)) * pow2(b)) by (nonlinear_arith);
    } else {
        assert(pow2(0) == 1);
        assert(a + b == b);
    }
}

proof fn lemma_pow2_mono(a: nat, b: nat)
    requires
        a <= b,
    ensures
        pow2(a) <= pow2(b),
{
    lemma_pow2_add(a, (b - a) as nat);
    lemma_pow2_pos((b - a) as nat);
    assert(pow2(a) * pow2((b - a) as nat) >= pow2(a)) by (nonlinear_arith)
        requires pow2((b - a) as nat) >= 1;
}

proof fn lemma_pow2_values()
    ensures
        pow2(10) == 1024,
        pow2(53) == 0x20_0000_0000_0000nat,
        pow2(61) == 0x2000_0000_0000_0000nat,
        pow2(62) == 0x4000_0000_0000_0000nat,
        pow2(63) == 0x8000_0000_0000_0000nat,
        pow2(64) == 0x1_0000_0000_0000_0000nat,
{
    reveal_with_fuel(pow2, 65);
}

/// A number under `2^t` has at most `t` binary digits.
proof fn lemma_bit_len_bound(n: nat, t: nat)
    requires
        n < pow2(t),
    ensures
        bit_len(n) <= t,
    decreases t,
{
    if n > 0 {
        assert(t > 0);
        lemma_bit_len_bound(n / 2, (t - 1) as nat);
    }
}

/// `2^n` for `n <= 64`.
fn pow2_u128(n: u32) -> (r: u128)
    requires
        n <= 64,
    ensures
        r == pow2(n as nat),
{
    let mut r: u128 = 1;
    let mut i: u32 = 0;
    while i < n
        invariant
            i <= n <= 64,
            r == pow2(i as nat),
        decreases n - i,
    {
        proof {
            lemma_pow2_mono(i as nat, 63);
            lemma_pow2_values();
            assert(pow2(63) * 2 == pow2(64));
        }
        r = r * 2;
        i = i + 1;
    }
    r
}

/// `num / den` rounded half to even.
fn round_half_even_u128(num: u128, den: u128) -> (r: u128)
    requires
        0 < den < 0x8000_0000_0000_0000_0000_0000_0000_0000,
        num < 0x8000_0000_0000_0000_0000_0000_0000_0000,
    ensures
        r == round_half_even(num as nat, den as nat),
        r <= num / den + 1,
{
    let q = num / den;
    let rem = num % den;
    if 2 * rem > den || (2 * rem == den && q % 2 == 1) {
        q + 1
    } else {
        q
    }
}

/// The number of binary digits of `n`.
fn bit_len_u128(n: u128) -> (b: u32)
    requires
        n < 0x1_0000_0000_0000_0000,
    ensures
        b as nat == bit_len(n as nat),
{
    proof {
        lemma_pow2_values();
        lemma_bit_len_bound(n as nat, 64);
    }
    let mut x = n;
    let mut c: u32 = 0;
    while x > 0
        invariant
            c as nat + bit_len(x as nat) == bit_len(n as nat),
            bit_len(n as nat) <= 64,
        decreases x,
    {
        x = x / 2;
        c = c + 1;
    }
    c
}

proof fn lemma_halvings_none(digits: nat, den: nat, j: nat)
    requires
        1 <= j,
        digits * pow2(10) < den,
    ensures
        halvings(digits, den, j) == 11,
    decreases 11 - j,
{
    if j < 11 {
        lemma_pow2_mono(j, 10);
        assert(digits * pow2(j) <= digits * pow2(10)) by (nonlinear_arith)
            requires pow2(j) <= pow2(10);
        lemma_halvings_none(digits, den, j + 1);
    }
}

proof fn lemma_quotient_below(num: nat, den: nat, x: nat)
    requires
        den > 0,
        num < den * x,
    ensures
        num / den < x,
{
    vstd::arithmetic::div_mod::lemma_fundamental_div_mod(num as int, den as int);
    let q = num / den;
    assert(q < x) by (nonlinear_arith)
        requires num == den * q + num % den, num % den >= 0, num < den * x, den > 0;
}

/// Colour channel of a number (see [`channel`]).
pub fn channel_of(d: &Decimal) -> (c: u8)
    ensures
        c as nat == channel(*d),
{
    if d.negative || d.digits == 0 {
        return 0;
    }
    if d.exponent >= 0 {
        return 255;
    }
    let k: u64 = (0i64 - d.exponent as i64) as u64;
    proof {
        lemma_pow2_values();
    }
    if k > 38 {
        proof {
            let kk = k as nat;
            lemma_pow10_mono(38, kk);
            lemma_pow10_38();
            assert(!at_least_one(*d));
            assert((d.digits as nat) * pow2(10) < pow10(kk)) by (nonlinear_arith)
                requires d.digits <= 0xffff_ffff_ffff_ffff, pow2(10) == 1024,
                    pow10(kk) >= 100000000000000000000000000000000000000nat;
            lemma_halvings_none(d.digits as nat, pow10(kk), 1);
        }
        return 0;
    }
    let den = pow10_u128(k as u32);
    proof {
        lemma_pow10_38();
        lemma_pow10_mono(k as nat, 38);
        lemma_pow10_pos(k as nat);
    }
    let dg: u128 = d.digits as u128;
    if dg >= den {
        return 255;
    }
    let mut j: u32 = 1;
    assert(pow2(0) == 1);
    assert((j - 1) as nat == 0nat);
    assert(dg * pow2((j - 1) as nat) == dg);
    while j < 11
        invariant
            1 <= j <= 11,
            dg < 0x1_0000_0000_0000_0000,
            0 < den,
            halvings(dg as nat, den as nat, 1) == halvings(dg as nat, den as nat, j as nat),
            dg * pow2((j - 1) as nat) < den,
            pow2(10) == 1024,
        ensures
            j < 11 ==> dg * pow2(j as nat) >= den,
            1 <= j <= 11,
            halvings(dg as nat, den as nat, 1) == halvings(dg as nat, den as nat, j as nat),
            dg * pow2((j - 1) as nat) < den,
        decreases 11 - j,
    {
        proof {
            lemma_pow2_mono(j as nat, 10);
            assert(dg * pow2(j as nat) <= 0x1_0000_0000_0000_0000 * 1024) by (nonlinear_arith)
                requires dg < 0x1_0000_0000_0000_0000, pow2(j as nat) <= 1024;
        }
        let reached = dg * pow2_u128(j) >= den;
        if reached {
            break;
        }
        j = j + 1;
    }
    if j == 11 {
        return 0;
    }
    proof {
        lemma_pow2_mono(j as nat, 10);
        assert(dg * pow2(j as nat) <= 0x1_0000_0000_0000_0000 * 1024) by (nonlinear_arith)
            requires dg < 0x1_0000_0000_0000_0000, pow2(j as nat) <= 1024;
        lemma_pow2_mono((52 + j) as nat, 62);
        lemma_pow2_mono((53 + j) as nat, 63);
        lemma_pow2_add((j - 1) as nat, 53);
        assert((j - 1) as nat + 53 == 52 + j);
        assert(dg * pow2((52 + j) as nat) < 0x1_0000_0000_0000_0000 * 0x4000_0000_0000_0000) by (nonlinear_arith)
            requires dg < 0x1_0000_0000_0000_0000, pow2((52 + j) as nat) <= 0x4000_0000_0000_0000nat;
    }
    let shifted: u128 = dg * pow2_u128(52 + j);
    proof {
        assert(shifted < den * pow2(53)) by (nonlinear_arith)
            requires shifted == dg * (pow2((j - 1) as nat) * pow2(53)), dg * pow2((j - 1) as nat) < den,
                pow2(53) > 0;
        lemma_quotient_below(shifted as nat, den as nat, pow2(53));
    }
    let m = round_half_even_u128(shifted, den);
    let n: u128 = 255 * m;
    proof {
        assert(n < pow2(61)) by (nonlinear_arith)
            requires n == 255 * m, m <= pow2(53), pow2(53) == 0x20_0000_0000_0000nat,
                pow2(61) == 0x2000_0000_0000_0000nat;
        lemma_bit_len_bound(n as nat, 61);
    }
    let b = bit_len_u128(n);
    let s: u32 = if b > 53 { b - 53 } else { 0 };
    let ps = pow2_u128(s);
    proof {
        lemma_pow2_mono(s as nat, 8);
        reveal_with_fuel(pow2, 9);
        lemma_pow2_pos(s as nat);
    }
    let p = round_half_even_u128(n, ps);
    proof {
        assert(p * ps <= n + ps) by (nonlinear_arith)
            requires p <= n / ps + 1, ps > 0;
        assert(pow2(8) == 256);
        assert(2 * p * ps <= 2 * (0x2000_0000_0000_0000 + 256)) by (nonlinear_arith)
            requires p * ps <= n + ps, n < 0x2000_0000_0000_0000u128, ps <= 256;
    }
    let r: u128 = (2 * p * ps + pow2_u128(52 + j)) / pow2_u128(53 + j);
    if r > 255 {
        255
    } else {
        r as u8
    }
}

// ── accessors ──────────────────────────────────────────────────────────────

/// The value of the first member named `key`, if the value is an object.
pub open spec fn member(entries: Seq<(String, Json)>, key: Seq<char>) -> Option<Json>
    decreases entries.len(),
{
    if entries.len() == 0 {
        None
    } else if entries[0].0@ == key {
        Some(entries[0].1)
    } else {
        member(entries.drop_first(), key)
    }
}

/// `value.get(key)` for objects; `None` for every other kind of value.
pub open spec fn get(j: Json, key: Seq<char>) -> Option<Json> {
    match j {
        Json::Object(entries) => member(entries@, key),
        _ => None,
    }
}

/// The string inside a JSON string.
pub open spec fn str_of(j: Option<Json>) -> Option<Seq<char>> {
    match j {
        Some(Json::Str(s)) => Some(s@),
        _ => None,
    }
}

/// A string member of an object.
pub open spec fn get_str(j: Json, key: Seq<char>) -> Option<Seq<char>> {
    str_of(get(j, key))
}

/// The elements inside a JSON array.
pub open spec fn array_of(j: Option<Json>) -> Option<Seq<Json>> {
    match j {
        Some(Json::Array(v)) => Some(v@),
        _ => None,
    }
}

/// The position of the first member named `key`.
pub fn member_index(entries: &Vec<(String, Json)>, key: &str) -> (r: Option<usize>)
    ensures
        match r {
            Some(i) => i < entries@.len() && member(entries@, key@) == Some(entries@[i as int].1),
            None => member(entries@, key@) is None,
        },
{
    let mut i: usize = 0;
    assert(entries@.skip(0) =~= entries@);
    while i < entries.len()
        invariant
            i <= entries@.len(),
            member(entries@, key@) == member(entries@.skip(i as int), key@),
        decreases entries.len() - i,
    {
        let ghost rest = entries@.skip(i as int);
        if str_eq(entries[i].0.as_str(), key) {
            assert(rest[0] == entries@[i as int]);
            return Some(i);
        }
        assert(rest.drop_first() =~= entries@.skip(i + 1));
        i = i + 1;
    }
    assert(entries@.skip(i as int).len() == 0);
    None
}

impl Json {
    /// `value.get(key)`.
    pub fn get(&self, key: &str) -> (r: Option<&Json>)
        ensures
            match r {
                Some(v) => get(*self, key@) == Some(*v),
                None => get(*self, key@) is None,
            },
    {
        match self {
            Json::Object(entries) => match member_index(entries, key) {
                Some(i) => Some(&entries[i].1),
                None => None,
            },
            _ => None,
        }
    }

    /// `value.as_str()`.
    pub fn as_str(&self) -> (r: Option<&String>)
        ensures
            match r {
                Some(s) => *self == Json::Str(*s),
                None => !(*self is Str),
            },
    {
        match self {
            Json::Str(s) => Some(s),
            _ => None,
        }
    }

    /// `value.get(key).and_then(Value::as_str)`.
    pub fn get_str(&self, key: &str) -> (r: Option<&String>)
        ensures
            match r {
                Some(s) => get_str(*self, key@) == Some(s@),
                None => get_str(*self, key@) is None,
            },
    {
        match self.get(key) {
            Some(v) => v.as_str(),
            None => None,
        }
    }
}


// ── JSON text ──────────────────────────────────────────────────────────────

/// How a character is written inside a JSON string: quote and backslash
/// escaped, control characters as short escapes or `\u00XX`, every other
/// character as itself.
pub open spec fn json_escape_char(c: char) -> Seq<char> {
    if c == '"' {
        seq!['\\', '"']
    } else if c == '\\' {
        seq!['\\', '\\']
    } else if c == '\n' {
        seq!['\\', 'n']
    } else if c == '\r' {
        seq!['\\', 'r']
    } else if c == '\t' {
        seq!['\\', 't']
    } else if c == '\u{8}' {
        seq!['\\', 'b']
    } else if c == '\u{c}' {
        seq!['\\', 'f']
    } else if (c as u32) < 0x20 {
        seq!['\\', 'u', '0', '0'] + hex2(c as nat)
    } else {
        seq![c]
    }
}

/// Every character escaped for a JSON string, in order.
pub open spec fn json_escape(s: Seq<char>) -> Seq<char>
    decreases s.len(),
{
    if s.len() == 0 {
        seq![]
    } else {
        json_escape(s.drop_last()) + json_escape_char(s.last())
    }
}

/// A JSON string literal holding `s`.
pub open spec fn json_quoted(s: Seq<char>) -> Seq<char> {
    seq!['"'] + json_escape(s) + seq!['"']
}

fn push_json_escape_char(out: &mut String, c: char)
    ensures
        final(out)@ == old(out)@ + json_escape_char(c),
{
    if c == '"' {
        push_char(out, '\\');
        push_char(out, '"');
    } else if c == '\\' {
        push_char(out, '\\');
        push_char(out, '\\');
    } else if c == '\n' {
        push_char(out, '\\');
        push_char(out, 'n');
    } else if c == '\r' {
        push_char(out, '\\');
        push_char(out, 'r');
    } else if c == '\t' {
        push_char(out, '\\');
        push_char(out, 't');
    } else if c == '\u{8}' {
        push_char(out, '\\');
        push_char(out, 'b');
    } else if c == '\u{c}' {
        push_char(out, '\\');
        push_char(out, 'f');
    } else if (c as u32) < 0x20 {
        push_char(out, '\\');
        push_char(out, 'u');
        push_char(out, '0');
        push_char(out, '0');
        push_hex2(out, c as u8);
    } else {
        push_char(out, c);
    }
    assert(final(out)@ =~= old(out)@ + json_escape_char(c));
}

/// Appends a JSON string literal holding `s`.
pub fn push_json_string(out: &mut String, s: &str)
    ensures
        final(out)@ == old(out)@ + json_quoted(s@),
{
    let v = chars_of(s);
    let ghost start0 = out@;
    push_char(out, '"');
    let ghost start = out@;
    let mut i: usize = 0;
    while i < v.len()
        invariant
            i <= v.len(),
            v@ == s@,
            out@ == start + json_escape(v@.subrange(0, i as int)),
        decreases v.len() - i,
    {
        push_json_escape_char(out, v[i]);
        assert(v@.subrange(0, i + 1).drop_last() =~= v@.subrange(0, i as int));
        i = i + 1;
        assert(out@ =~= start + json_escape(v@.subrange(0, i as int)));
    }
    assert(v@.subrange(0, v@.len() as int) =~= v@);
    push_char(out, '"');
    assert(out@ =~= start0 + json_quoted(s@));
}

/// A JSON string literal holding `s`.
pub fn json_string(s: &str) -> (r: String)
    ensures
        r@ == json_quoted(s@),
{
    let mut out = String::new();
    push_json_string(&mut out, s);
    out
}


// ── reading numbers and flags ──────────────────────────────────────────────

/// A number as `Value::as_i64` reads it: an integer literal within `i64`.
pub open spec fn int_of(d: Decimal) -> Option<int> {
    if d.integer && d.exponent == 0 {
        if d.negative {
            if d.digits <= 0x8000_0000_0000_0000 {
                Some(-(d.digits as int))
            } else {
                None
            }
        } else if d.digits <= 0x7fff_ffff_ffff_ffff {
            Some(d.digits as int)
        } else {
            None
        }
    } else {
        None
    }
}

/// The `i64` in a JSON number.
pub open spec fn i64_of(j: Option<Json>) -> Option<int> {
    match j {
        Some(Json::Number(d)) => int_of(d),
        _ => None,
    }
}

impl Json {
    /// `value.as_i64()`.
    pub fn as_i64(&self) -> (r: Option<i64>)
        ensures
            match i64_of(Some(*self)) {
                Some(n) => r == Some(n as i64),
                None => r is None,
            },
    {
        match self {
            Json::Number(d) => {
                if d.integer && d.exponent == 0 {
                    if d.negative {
                        if d.digits <= 0x8000_0000_0000_0000 {
                            let m = d.digits as i128;
                            Some((-m) as i64)
                        } else {
                            None
                        }
                    } else if d.digits <= 0x7fff_ffff_ffff_ffff {
                        Some(d.digits as i64)
                    } else {
                        None
                    }
                } else {
                    None
                }
            },
            _ => None,
        }
    }

    /// `value.as_bool()`.
    pub fn as_bool(&self) -> (r: Option<bool>)
        ensures
            match *self {
                Json::Bool(b) => r == Some(b),
                _ => r is None,
            },
    {
        match self {
            Json::Bool(b) => Some(*b),
            _ => None,
        }
    }
}

/// Takes the value of the first member with this key out of an object's
/// members.
pub fn take_member(entries: Vec<(String, Json)>, key: &str) -> (r: Option<Json>)
    ensures
        r == member(entries@, key@),
{
    let mut entries = entries;
    match member_index(&entries, key) {
        Some(i) => {
            let (_, v) = entries.remove(i);
            Some(v)
        },
        None => None,
    }
}

/// Appends the decimal rendering of a signed integer.
pub fn push_int(s: &mut String, n: i64)
    ensures
        final(s)@ == old(s)@ + int_text(n as int),
{
    if n < 0 {
        push_char(s, '-');
        let m = (-(n as i128)) as u64;
        push_dec(s, m);
    } else {
        push_dec(s, n as u64);
    }
    assert(final(s)@ =~= old(s)@ + int_text(n as int));
}


// ── reading an escaped string back ─────────────────────────────────────────

/// The value of a hexadecimal digit (either case).
pub open spec fn hex_value(c: char) -> Option<nat> {
    if '0' <= c && c <= '9' {
        Some((c as nat - 48) as nat)
    } else if 'a' <= c && c <= 'f' {
        Some((c as nat - 87) as nat)
    } else if 'A' <= c && c <= 'F' {
        Some((c as nat - 55) as nat)
    } else {
        None
    }
}

/// The character a one-letter JSON escape (`\"`, `\\`, `\/`, `\b`, `\f`,
/// `\n`, `\r`, `\t`) stands for.
pub open spec fn simple_unescape(e: char) -> Option<char> {
    if e == '"' {
        Some('"')
    } else if e == '\\' {
        Some('\\')
    } else if e == '/' {
        Some('/')
    } else if e == 'b' {
        Some('\u{8}')
    } else if e == 'f' {
        Some('\u{c}')
    } else if e == 'n' {
        Some('\n')
    } else if e == 'r' {
        Some('\r')
    } else if e == 't' {
        Some('\t')
    } else {
        None
    }
}

/// The code point of a `\uXXXX` escape starting at `t[0]` (the backslash).
pub open spec fn unicode_escape(t: Seq<char>) -> Option<nat> {
    if t.len() >= 6 && t[1] == 'u' && hex_value(t[2]) is Some && hex_value(t[3]) is Some
        && hex_value(t[4]) is Some && hex_value(t[5]) is Some {
        Some(
            hex_value(t[2])->0 * 4096 + hex_value(t[3])->0 * 256 + hex_value(t[4])->0 * 16 + hex_value(
                t[5],
            )->0,
        )
    } else {
        None
    }
}

/// How a JSON reader decodes the text between a string literal's quotes,
/// for escapes of code points outside the surrogate range (the only ones
/// `json_escape` writes); `None` for a malformed escape, a raw quote or a
/// raw control character.
pub open spec fn json_unescape(t: Seq<char>) -> Option<Seq<char>>
    decreases t.len(),
{
    if t.len() == 0 {
        Some(seq![])
    } else if t[0] == '\\' {
        if t.len() < 2 {
            None
        } else if simple_unescape(t[1]) is Some {
            match json_unescape(t.subrange(2, t.len() as int)) {
                Some(r) => Some(seq![simple_unescape(t[1])->0] + r),
                None => None,
            }
        } else {
            match unicode_escape(t) {
                Some(code) => if code < 0xD800 {
                    match json_unescape(t.subrange(6, t.len() as int)) {
                        Some(r) => Some(seq![code as char] + r),
                        None => None,
                    }
                } else {
                    None
                },
                None => None,
            }
        }
    } else if t[0] == '"' || (t[0] as u32) < 0x20 {
        None
    } else {
        match json_unescape(t.subrange(1, t.len() as int)) {
            Some(r) => Some(seq![t[0]] + r),
            None => None,
        }
    }
}

proof fn lemma_escape_front(s: Seq<char>)
    requires
        s.len() > 0,
    ensures
        json_escape(s) == json_escape_char(s[0]) + json_escape(s.drop_first()),
    decreases s.len(),
{
    if s.len() == 1 {
        assert(s.drop_last() =~= Seq::<char>::empty());
        assert(s.drop_first() =~= Seq::<char>::empty());
        assert(json_escape(s.drop_last()) =~= Seq::<char>::empty());
        assert(json_escape(s) =~= json_escape_char(s[0]));
        assert(json_escape(s.drop_first()) =~= Seq::<char>::empty());
        assert(json_escape(s) =~= json_escape_char(s[0]) + json_escape(s.drop_first()));
    } else {
        let init = s.drop_last();
        lemma_escape_front(init);
        assert(init[0] == s[0]);
        assert(init.drop_first() =~= s.drop_first().drop_last());
        assert(s.drop_first().last() == s.last());
        assert(json_escape(s) =~= json_escape_char(s[0]) + json_escape(s.drop_first()));
    }
}

proof fn lemma_hex_char_value(d: nat)
    requires
        d < 16,
    ensures
        hex_value(hex_char(d)) == Some(d),
{
    if d < 10 {
        assert((48 + d) as char as nat == 48 + d);
    } else {
        assert((87 + d) as char as nat == 87 + d);
    }
}

proof fn lemma_unescape_one(c: char, rest: Seq<char>)
    ensures
        json_unescape(json_escape_char(c) + rest) == match json_unescape(rest) {
            Some(r) => Some(seq![c] + r),
            None => None::<Seq<char>>,
        },
{
    let e = json_escape_char(c);
    let t = e + rest;
    if c == '"' || c == '\\' || c == '\n' || c == '\r' || c == '\t' || c == '\u{8}' || c == '\u{c}' {
        assert(t[0] == '\\');
        assert(t.subrange(2, t.len() as int) =~= rest);
    } else if (c as u32) < 0x20 {
        let b = c as nat;
        lemma_hex_char_value(b / 16);
        lemma_hex_char_value(b % 16);
        assert(t[0] == '\\' && t[1] == 'u' && t[2] == '0' && t[3] == '0');
        assert(t[4] == hex_char(b / 16) && t[5] == hex_char(b % 16));
        assert(hex_value('0') == Some(0nat));
        assert(simple_unescape(t[1]) is None);
        assert(unicode_escape(t) == Some(b)) by (nonlinear_arith)
            requires
                hex_value(t[2]) == Some(0nat),
                hex_value(t[3]) == Some(0nat),
                hex_value(t[4]) == Some(b / 16),
                hex_value(t[5]) == Some(b % 16),
                t.len() >= 6,
                t[1] == 'u',
        ;
        assert(b as char == c);
        assert(t.subrange(6, t.len() as int) =~= rest);
    } else {
        assert(t[0] == c);
        assert(t.subrange(1, t.len() as int) =~= rest);
    }
}

/// What `json_string` writes reads back, through a JSON reader's decoding
/// of escapes, as exactly the string it was given.
pub proof fn law_escaped_json_reads_back(s: Seq<char>)
    ensures
        json_unescape(json_escape(s)) == Some(s),
    decreases s.len(),
{
    if s.len() > 0 {
        lemma_escape_front(s);
        law_escaped_json_reads_back(s.drop_first());
        lemma_unescape_one(s[0], json_escape(s.drop_first()));
        assert(seq![s[0]] + s.drop_first() =~= s);
    }
}

} // verus!
