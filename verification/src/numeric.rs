//! IEEE-754 binary64 numbers, carried as their bit patterns.
//!
//! Equality, ordering and the absolute value are defined and verified
//! directly on the bit patterns.  Rounded arithmetic is performed by the
//! `rustc_apfloat` soft-float library behind trusted wrappers whose results
//! are named by uninterpreted spec functions: the same operand bits always
//! yield the same result bits.
use rustc_apfloat::Float;
use vstd::prelude::*;

verus! {

/// Bit of the sign in a binary64 pattern.
pub const SIGN_MASK: u64 = 0x8000_0000_0000_0000;

/// All bits but the sign.
pub const ABS_MASK: u64 = 0x7FFF_FFFF_FFFF_FFFF;

/// The exponent field.
pub const EXP_MASK: u64 = 0x7FF0_0000_0000_0000;

/// The fraction (significand) field.
pub const FRAC_MASK: u64 = 0x000F_FFFF_FFFF_FFFF;

/// The magnitude bits of `b`: the pattern with the sign cleared.
pub open spec fn abs_bits(b: u64) -> u64 {
    b & ABS_MASK
}

/// `b` encodes a NaN: exponent all ones and a non-zero fraction.
pub open spec fn is_nan_bits(b: u64) -> bool {
    abs_bits(b) > EXP_MASK
}

/// `b` encodes an infinity of either sign.
pub open spec fn is_inf_bits(b: u64) -> bool {
    abs_bits(b) == EXP_MASK
}

/// `b` encodes a zero of either sign.
pub open spec fn is_zero_bits(b: u64) -> bool {
    abs_bits(b) == 0
}

/// The sign bit of `b` is set.
pub open spec fn is_neg_bits(b: u64) -> bool {
    b & SIGN_MASK != 0
}

/// The finite (and infinite) binary64 values are ordered by their patterns
/// read as sign-magnitude integers; this key realizes that order.
pub open spec fn num_key(b: u64) -> int {
    if is_neg_bits(b) {
        -(abs_bits(b) as int)
    } else {
        abs_bits(b) as int
    }
}

/// IEEE-754 equality of the values encoded by `a` and `b`: a NaN equals
/// nothing, the two zeros are equal, and any other value equals only its
/// own pattern.
pub open spec fn num_eq(a: u64, b: u64) -> bool {
    &&& !is_nan_bits(a)
    &&& !is_nan_bits(b)
    &&& num_key(a) == num_key(b)
}

/// IEEE-754 `<` of the values encoded by `a` and `b`; false on any NaN.
pub open spec fn num_lt(a: u64, b: u64) -> bool {
    &&& !is_nan_bits(a)
    &&& !is_nan_bits(b)
    &&& num_key(a) < num_key(b)
}

/// IEEE-754 `<=` of the values encoded by `a` and `b`; false on any NaN.
pub open spec fn num_le(a: u64, b: u64) -> bool {
    &&& !is_nan_bits(a)
    &&& !is_nan_bits(b)
    &&& num_key(a) <= num_key(b)
}

/// The pattern of the absolute value: the sign cleared, everything else
/// kept (NaN patterns keep their payload).
pub open spec fn num_abs(b: u64) -> u64 {
    abs_bits(b)
}

/// IEEE-754 equality, executably.
pub fn ieee_eq(a: u64, b: u64) -> (r: bool)
    ensures
        r == num_eq(a, b),
{
    let aa = a & ABS_MASK;
    let ab = b & ABS_MASK;
    if aa > EXP_MASK || ab > EXP_MASK {
        return false;
    }
    let na = a & SIGN_MASK != 0;
    let nb = b & SIGN_MASK != 0;
    if na == nb {
        aa == ab
    } else {
        aa == 0 && ab == 0
    }
}

/// IEEE-754 `<`, executably.
pub fn ieee_lt(a: u64, b: u64) -> (r: bool)
    ensures
        r == num_lt(a, b),
{
    let aa = a & ABS_MASK;
    let ab = b & ABS_MASK;
    if aa > EXP_MASK || ab > EXP_MASK {
        return false;
    }
    let na = a & SIGN_MASK != 0;
    let nb = b & SIGN_MASK != 0;
    if na {
        if nb {
            aa > ab
        } else {
            aa != 0 || ab != 0
        }
    } else {
        if nb {
            false
        } else {
            aa < ab
        }
    }
}

/// IEEE-754 `<=`, executably.
pub fn ieee_le(a: u64, b: u64) -> (r: bool)
    ensures
        r == num_le(a, b),
{
    let aa = a & ABS_MASK;
    let ab = b & ABS_MASK;
    if aa > EXP_MASK || ab > EXP_MASK {
        return false;
    }
    let eq = ieee_eq(a, b);
    let lt = ieee_lt(a, b);
    eq || lt
}

/// The absolute value on patterns, executably.
pub fn ieee_abs(b: u64) -> (r: u64)
    ensures
        r == num_abs(b),
{
    b & ABS_MASK
}

/// What a binary64 value becomes under Rust's truncating, saturating cast
/// to a 64-bit unsigned count: NaN and everything below one go to zero,
/// anything at or above `2^64` (infinity included) saturates, and the rest
/// is the integer part of the encoded value, read off the exponent and
/// significand fields.
pub open spec fn num_trunc_usize(b: u64) -> usize {
    let e = (b & EXP_MASK) >> 52u64;
    let m = (b & FRAC_MASK) | 0x0010_0000_0000_0000u64;
    if is_nan_bits(b) || is_neg_bits(b) || e < 1023 {
        0usize
    } else if e >= 1087 {
        usize::MAX
    } else if e <= 1075 {
        (m >> ((1075 - e) as u64)) as usize
    } else {
        (m << ((e - 1075) as u64)) as usize
    }
}

/// The truncating cast, executably.
pub fn ieee_trunc_usize(b: u64) -> (r: usize)
    ensures
        r == num_trunc_usize(b),
{
    let e = (b & EXP_MASK) >> 52u64;
    let m = (b & FRAC_MASK) | 0x0010_0000_0000_0000u64;
    let nan = (b & ABS_MASK) > EXP_MASK;
    let neg = b & SIGN_MASK != 0;
    if nan || neg || e < 1023 {
        0
    } else if e >= 1087 {
        usize::MAX
    } else if e <= 1075 {
        (m >> (1075 - e)) as usize
    } else {
        (m << (e - 1075)) as usize
    }
}

/// What adding the binary64 values behind two patterns yields, rounding to
/// nearest-even.
pub uninterp spec fn add_bits(a: u64, b: u64) -> u64;

/// Relies on `rustc_apfloat`'s `Double` addition: IEEE-754 binary64 `+`
/// rounded to nearest-even, a function of the operand bits alone.
#[verifier::external_body]
pub fn num_add(a: u64, b: u64) -> (r: u64)
    ensures
        r == add_bits(a, b),
{
    let x = rustc_apfloat::ieee::Double::from_bits(a as u128);
    let y = rustc_apfloat::ieee::Double::from_bits(b as u128);
    (x + y).value.to_bits() as u64
}

/// What subtracting the second value from the first yields.
pub uninterp spec fn sub_bits(a: u64, b: u64) -> u64;

/// Relies on `rustc_apfloat`'s `Double` subtraction: IEEE-754 binary64 `-`
/// rounded to nearest-even, a function of the operand bits alone.
#[verifier::external_body]
pub fn num_sub(a: u64, b: u64) -> (r: u64)
    ensures
        r == sub_bits(a, b),
{
    let x = rustc_apfloat::ieee::Double::from_bits(a as u128);
    let y = rustc_apfloat::ieee::Double::from_bits(b as u128);
    (x - y).value.to_bits() as u64
}

/// What multiplying the two values yields.
pub uninterp spec fn mul_bits(a: u64, b: u64) -> u64;

/// Relies on `rustc_apfloat`'s `Double` multiplication: IEEE-754 binary64
/// `*` rounded to nearest-even, a function of the operand bits alone.
#[verifier::external_body]
pub fn num_mul(a: u64, b: u64) -> (r: u64)
    ensures
        r == mul_bits(a, b),
{
    let x = rustc_apfloat::ieee::Double::from_bits(a as u128);
    let y = rustc_apfloat::ieee::Double::from_bits(b as u128);
    (x * y).value.to_bits() as u64
}

/// What dividing the first value by the second yields; division by zero
/// follows IEEE-754 (an infinity or NaN), it is not an error.
pub uninterp spec fn div_bits(a: u64, b: u64) -> u64;

/// Relies on `rustc_apfloat`'s `Double` division: IEEE-754 binary64 `/`
/// rounded to nearest-even, a function of the operand bits alone.
#[verifier::external_body]
pub fn num_div(a: u64, b: u64) -> (r: u64)
    ensures
        r == div_bits(a, b),
{
    let x = rustc_apfloat::ieee::Double::from_bits(a as u128);
    let y = rustc_apfloat::ieee::Double::from_bits(b as u128);
    (x / y).value.to_bits() as u64
}

/// What the truncated remainder (C `fmod`, Rust `%`) of the two values
/// yields.
pub uninterp spec fn rem_bits(a: u64, b: u64) -> u64;

/// Relies on `rustc_apfloat`'s `Double` remainder (`c_fmod`, the semantics
/// of Rust's `%` on floats), a function of the operand bits alone.
#[verifier::external_body]
pub fn num_rem(a: u64, b: u64) -> (r: u64)
    ensures
        r == rem_bits(a, b),
{
    let x = rustc_apfloat::ieee::Double::from_bits(a as u128);
    let y = rustc_apfloat::ieee::Double::from_bits(b as u128);
    (x % y).value.to_bits() as u64
}

/// What an integer becomes as a binary64 value, rounded to nearest-even
/// when it has more than 53 significant bits.
pub uninterp spec fn int_bits(i: int) -> u64;

/// Relies on `rustc_apfloat`'s `Double::from_i128`: conversion of an
/// integer to binary64 rounded to nearest-even, a function of the integer
/// alone.
#[verifier::external_body]
pub fn num_from_i128(i: i128) -> (r: u64)
    ensures
        r == int_bits(i as int),
{
    rustc_apfloat::ieee::Double::from_i128(i).value.to_bits() as u64
}

/// `s` is a plain decimal literal: an optional minus, then digits, then
/// optionally a point and digits.
pub open spec fn is_plain_decimal(s: Seq<char>) -> bool {
    let t = if s.len() > 0 && s[0] == '-' {
        s.skip(1)
    } else {
        s
    };
    &&& t.len() > 0
    &&& exists|k: int|
        {
            &&& 0 < k <= t.len()
            &&& (forall|i: int| 0 <= i < k ==> '0' <= #[trigger] t[i] <= '9')
            &&& (k < t.len() ==> t[k] == '.' && k + 1 < t.len())
            &&& (forall|i: int| k < i < t.len() ==> '0' <= #[trigger] t[i] <= '9')
        }
}

/// What decimal text becomes as a binary64 value: `Some` pattern when the
/// soft-float library accepts the text, `None` when it rejects it.
pub uninterp spec fn decimal_bits(s: Seq<char>) -> Option<u64>;

/// Relies on `rustc_apfloat`'s `Double::from_str`: correctly rounded
/// conversion of decimal text to binary64, a function of the text alone.
/// Its grammar accepts every plain decimal literal, so those always yield
/// `Some`.
#[verifier::external_body]
pub fn num_from_text(s: &str) -> (r: Option<u64>)
    ensures
        r == decimal_bits(s@),
        is_plain_decimal(s@) ==> r is Some,
{
    match s.parse::<rustc_apfloat::ieee::Double>() {
        Ok(v) => Some(v.to_bits() as u64),
        Err(_) => None,
    }
}

/// What a binary64 value looks like printed with the given number of
/// significant decimal digits.
pub uninterp spec fn fmt_bits(b: u64, prec: usize) -> Seq<char>;

/// Relies on `rustc_apfloat`'s `Display` for `Double`: decimal text with
/// the requested number of significant digits, a function of the pattern
/// and the precision alone.
#[verifier::external_body]
pub fn num_fmt_prec(b: u64, prec: usize) -> (r: String)
    ensures
        r@ == fmt_bits(b, prec),
{
    format!("{:.*}", prec, rustc_apfloat::ieee::Double::from_bits(b as u128))
}

/// The shortest of the decimal renderings with `d` to 17 significant
/// digits that parses back to exactly `b`; the 17-digit rendering when
/// none shorter does.
pub open spec fn shortest_fmt_from(b: u64, d: usize) -> Seq<char>
    decreases 17 - d,
{
    if d >= 17 {
        fmt_bits(b, 17)
    } else if decimal_bits(fmt_bits(b, d)) == Some(b) {
        fmt_bits(b, d)
    } else {
        shortest_fmt_from(b, (d + 1) as usize)
    }
}

/// The text of the number behind `b`: `NaN` for NaNs, signed `inf` for the
/// infinities, and otherwise the shortest decimal rendering that parses
/// back to the same pattern.
pub open spec fn num_text(b: u64) -> Seq<char> {
    if is_nan_bits(b) {
        "NaN"@
    } else if is_inf_bits(b) && is_neg_bits(b) {
        "-inf"@
    } else if is_inf_bits(b) {
        "inf"@
    } else {
        shortest_fmt_from(b, 1)
    }
}

/// Renders the number behind `b` as text, executably.
pub fn num_to_text(b: u64) -> (r: String)
    ensures
        r@ == num_text(b),
{
    let aa = b & ABS_MASK;
    if aa > EXP_MASK {
        let s: &str = "NaN";
        return s.to_owned();
    }
    if aa == EXP_MASK {
        let s: &str = if b & SIGN_MASK != 0 {
            "-inf"
        } else {
            "inf"
        };
        return s.to_owned();
    }
    let mut d: usize = 1;
    while d < 17
        invariant
            1 <= d <= 17,
            !is_nan_bits(b),
            !is_inf_bits(b),
            num_text(b) == shortest_fmt_from(b, d),
        decreases 17 - d,
    {
        let t = num_fmt_prec(b, d);
        let back = num_from_text(t.as_str());
        match back {
            Some(x) => {
                if x == b {
                    return t;
                }
            },
            None => {},
        }
        d = d + 1;
    }
    num_fmt_prec(b, 17)
}


/// The canonical quiet NaN, yielded where no number exists.
pub const CANON_NAN: u64 = 0x7FF8_0000_0000_0000;

/// The implicit leading bit of a normal significand.
pub const IMPLICIT_BIT: u64 = 0x0010_0000_0000_0000;

/// The integer square root: the unique `s` with `s * s <= n` and
/// `n < (s + 1) * (s + 1)`.
pub open spec fn isqrt_of(n: int) -> int {
    choose|s: int| 0 <= s && #[trigger] (s * s) <= n < (s + 1) * (s + 1)
}

/// What `isqrt_of` picks is the witness itself.
pub proof fn lemma_isqrt_unique(n: int, s: int)
    requires
        0 <= s,
        s * s <= n,
        n < (s + 1) * (s + 1),
    ensures
        isqrt_of(n) == s,
{
    assert(exists|t: int| 0 <= t && #[trigger] (t * t) <= n < (t + 1) * (t + 1)) by {
        assert(0 <= s && s * s <= n < (s + 1) * (s + 1));
    }
    let t = isqrt_of(n);
    assert(0 <= t && t * t <= n < (t + 1) * (t + 1));
    if t < s {
        assert((t + 1) * (t + 1) <= s * s) by (nonlinear_arith)
            requires
                0 <= t,
                t < s,
        ;
    }
    if s < t {
        assert((s + 1) * (s + 1) <= t * t) by (nonlinear_arith)
            requires
                0 <= s,
                s < t,
        ;
    }
}

/// Doubles the significand until it reaches the normal range, lowering
/// the exponent in step.
pub open spec fn norm_sig(m: int, p: int) -> (int, int)
    decreases 0x20_0000_0000_0000 - m,
    when 1 <= m
{
    if m >= 0x10_0000_0000_0000 {
        (m, p)
    } else {
        norm_sig(2 * m, p - 1)
    }
}

/// Normalization never raises the exponent.
pub proof fn lemma_norm_sig_le(m: int, p: int)
    requires
        1 <= m < 0x20_0000_0000_0000,
    ensures
        norm_sig(m, p).1 <= p,
    decreases 0x20_0000_0000_0000 - m,
{
    if m < 0x10_0000_0000_0000 {
        lemma_norm_sig_le(2 * m, p - 1);
    }
}

/// After `k` exponent steps the significand has doubled `k` times.
proof fn lemma_norm_sig_growth(m: int, p: int, k: nat)
    requires
        1 <= m < 0x20_0000_0000_0000,
        norm_sig(m, p).1 == p - k,
    ensures
        norm_sig(m, p).0 >= m * vstd::arithmetic::power2::pow2(k),
    decreases 0x20_0000_0000_0000 - m,
{
    vstd::arithmetic::power2::lemma_pow2_pos(k);
    if m >= 0x10_0000_0000_0000 {
        assert(k == 0);
        vstd::arithmetic::power2::lemma2_to64();
        assert(norm_sig(m, p).0 == m);
        assert(m * vstd::arithmetic::power2::pow2(0) == m) by (nonlinear_arith)
            requires
                vstd::arithmetic::power2::pow2(0) == 1,
        ;
    } else {
        lemma_norm_sig_le(2 * m, p - 1);
        assert(norm_sig(m, p) == norm_sig(2 * m, p - 1));
        assert(k >= 1);
        assert(norm_sig(2 * m, p - 1).1 == (p - 1) - (k - 1));
        lemma_norm_sig_growth(2 * m, p - 1, (k - 1) as nat);
        assert(vstd::arithmetic::power2::pow2(k) == 2 * vstd::arithmetic::power2::pow2(
            (k - 1) as nat,
        )) by {
            vstd::arithmetic::power2::lemma_pow2_unfold(k);
        }
        assert((2 * m) * vstd::arithmetic::power2::pow2((k - 1) as nat) == m
            * vstd::arithmetic::power2::pow2(k)) by (nonlinear_arith)
            requires
                vstd::arithmetic::power2::pow2(k) == 2 * vstd::arithmetic::power2::pow2(
                    (k - 1) as nat,
                ),
        ;
        assert(norm_sig(m, p).0 == norm_sig(2 * m, p - 1).0);
        assert(norm_sig(2 * m, p - 1).0 >= (2 * m) * vstd::arithmetic::power2::pow2(
            (k - 1) as nat,
        ));
    }
}

/// Normalization keeps the significand in range, the value the same, and
/// lowers the exponent by at most the significand's width.
pub proof fn lemma_norm_sig(m: int, p: int)
    requires
        1 <= m < 0x20_0000_0000_0000,
    ensures
        0x10_0000_0000_0000 <= norm_sig(m, p).0 < 0x20_0000_0000_0000,
        p - 52 <= norm_sig(m, p).1 <= p,
    decreases 0x20_0000_0000_0000 - m,
{
    lemma_norm_sig_le(m, p);
    if m < 0x10_0000_0000_0000 {
        lemma_norm_sig(2 * m, p - 1);
        if norm_sig(m, p).1 < p - 52 {
            let k = p - norm_sig(m, p).1;
            let kn = k as nat;
            assert(kn >= 53);
            lemma_norm_sig_growth(m, p, kn);
            vstd::arithmetic::power2::lemma2_to64();
            vstd::arithmetic::power2::lemma2_to64_rest();
            assert(vstd::arithmetic::power2::pow2(53) == 0x20_0000_0000_0000);
            if kn > 53 {
                vstd::arithmetic::power2::lemma_pow2_strictly_increases(53, kn);
            }
            assert(vstd::arithmetic::power2::pow2(kn) >= 0x20_0000_0000_0000);
            assert(m * vstd::arithmetic::power2::pow2(kn)
                >= vstd::arithmetic::power2::pow2(kn)) by (nonlinear_arith)
                requires
                    m >= 1,
                    vstd::arithmetic::power2::pow2(kn) >= 0,
            ;
            assert(norm_sig(m, p).0 >= 0x20_0000_0000_0000);
            assert(false);
        }
    }
}

/// What the square root of the value behind `b` is, correctly rounded to
/// nearest-even: NaN for NaNs and negative values, the zeros and the
/// positive infinity unchanged, and otherwise the rounding of the exact
/// root, computed on the decomposed significand and exponent.
pub open spec fn num_sqrt(b: u64) -> u64 {
    if is_nan_bits(b) {
        CANON_NAN
    } else if is_zero_bits(b) {
        b
    } else if is_neg_bits(b) {
        CANON_NAN
    } else if is_inf_bits(b) {
        b
    } else {
        let e = ((b & EXP_MASK) >> 52u64) as int;
        let f = (b & FRAC_MASK) as int;
        let m2 = if e == 0 {
            f
        } else {
            f + 0x10_0000_0000_0000
        };
        let p2 = if e == 0 {
            -1074
        } else {
            e - 1075
        };
        let (m3, p3) = norm_sig(m2, p2);
        let m4 = if p3 % 2 == 0 {
            m3
        } else {
            2 * m3
        };
        let p4 = if p3 % 2 == 0 {
            p3
        } else {
            p3 - 1
        };
        let t = m4 * 0x10_0000_0000_0000;
        let s = isqrt_of(t);
        let rs = if t - s * s > s {
            s + 1
        } else {
            s
        };
        let eb = p4 / 2 + 1049;
        ((eb * 0x10_0000_0000_0000 + (rs - 0x10_0000_0000_0000)) as u64)
    }
}

/// The square root on patterns, executably.
pub fn ieee_sqrt(b: u64) -> (r: u64)
    ensures
        r == num_sqrt(b),
{
    let aa = b & ABS_MASK;
    if aa > EXP_MASK {
        return CANON_NAN;
    }
    if aa == 0 {
        return b;
    }
    if b & SIGN_MASK != 0 {
        return CANON_NAN;
    }
    if aa == EXP_MASK {
        return b;
    }
    let e: u64 = (b & EXP_MASK) >> 52u64;
    let f: u64 = b & FRAC_MASK;
    proof {
        assert(e == ((b & EXP_MASK) >> 52u64));
        assert(f < 0x10_0000_0000_0000 && e < 2047) by (bit_vector)
            requires
                f == b & 0x000F_FFFF_FFFF_FFFFu64,
                e == ((b & 0x7FF0_0000_0000_0000u64) >> 52u64),
                b & 0x7FFF_FFFF_FFFF_FFFFu64 < 0x7FF0_0000_0000_0000u64,
        ;
        assert(e != 0 || f != 0) by (bit_vector)
            requires
                f == b & 0x000F_FFFF_FFFF_FFFFu64,
                e == ((b & 0x7FF0_0000_0000_0000u64) >> 52u64),
                b & 0x7FFF_FFFF_FFFF_FFFFu64 != 0u64,
                b & 0x8000_0000_0000_0000u64 == 0u64,
        ;
    }
    let mut m: u64 = if e == 0 {
        f
    } else {
        f + IMPLICIT_BIT
    };
    let mut p: i32 = if e == 0 {
        -1074
    } else {
        (e as i32) - 1075
    };
    let ghost m2 = m as int;
    let ghost p2 = p as int;
    proof {
        lemma_norm_sig(m2, p2);
    }
    while m < IMPLICIT_BIT
        invariant
            1 <= m < 0x20_0000_0000_0000,
            1 <= m2 < 0x20_0000_0000_0000,
            -1074 <= p2 <= 971,
            norm_sig(m2, p2).1 >= p2 - 52,
            norm_sig(m2, p2).1 <= p as int <= p2,
            norm_sig(m as int, p as int) == norm_sig(m2, p2),
        decreases 0x20_0000_0000_0000 - m,
    {
        proof {
            lemma_norm_sig_le(2 * m as int, p - 1);
            assert(norm_sig(m as int, p as int) == norm_sig(2 * m as int, p - 1));
        }
        m = m * 2;
        p = p - 1;
    }
    proof {
        assert(-1126 <= p <= 971);
    }
    proof {
        assert(norm_sig(m as int, p as int) == (m as int, p as int));
        assert((m as int, p as int) == norm_sig(m2, p2));
    }
    let even = p % 2 == 0;
    let m4: u64 = if even {
        m
    } else {
        m * 2
    };
    let p4: i32 = if even {
        p
    } else {
        p - 1
    };
    proof {
        assert((p as int) % 2 == 0 <==> even);
    }
    let t: u128 = (m4 as u128) * 0x10_0000_0000_0000u128;
    let ghost ti = t as int;
    let mut lo: u64 = 0x10_0000_0000_0000;
    let mut hi: u64 = 0x20_0000_0000_0000;
    proof {
        assert((0x10_0000_0000_0000int) * 0x10_0000_0000_0000int <= ti) by (nonlinear_arith)
            requires
                ti == (m4 as int) * 0x10_0000_0000_0000int,
                m4 >= 0x10_0000_0000_0000u64,
        ;
        assert(ti < 0x20_0000_0000_0000int * 0x20_0000_0000_0000int) by (nonlinear_arith)
            requires
                ti == (m4 as int) * 0x10_0000_0000_0000int,
                m4 < 0x40_0000_0000_0000u64,
        ;
    }
    while hi - lo > 1
        invariant
            0x10_0000_0000_0000 <= lo < hi <= 0x20_0000_0000_0000,
            (lo as int) * (lo as int) <= ti,
            ti < (hi as int) * (hi as int),
            ti == t,
        decreases hi - lo,
    {
        let mid: u64 = lo + (hi - lo) / 2;
        proof {
            assert((mid as int) * (mid as int) < 0x20_0000_0000_0000int
                * 0x20_0000_0000_0000int) by (nonlinear_arith)
                requires
                    0 <= mid < 0x20_0000_0000_0000u64,
            ;
        }
        let sq: u128 = (mid as u128) * (mid as u128);
        if sq <= t {
            lo = mid;
        } else {
            hi = mid;
        }
    }
    proof {
        assert((lo + 1) as int == hi as int);
        lemma_isqrt_unique(ti, lo as int);
    }
    let rem: u128 = t - (lo as u128) * (lo as u128);
    let rs: u64 = if rem > lo as u128 {
        lo + 1
    } else {
        lo
    };
    proof {
        if rs == 0x20_0000_0000_0000u64 {
            assert(ti < 0x20_0000_0000_0000int * 0x20_0000_0000_0000int);
            assert(ti <= (0x20_0000_0000_0000int - 1) * (0x20_0000_0000_0000int - 1)
                + (0x20_0000_0000_0000int - 1)) by (nonlinear_arith)
                requires
                    ti == (m4 as int) * 0x10_0000_0000_0000int,
                    m4 <= 0x40_0000_0000_0000u64 - 2,
            ;
            assert(false);
        }
    }
    let eb: u64 = ((p4 / 2 + 1049) as u64);
    let r: u64 = eb * IMPLICIT_BIT + (rs - IMPLICIT_BIT);
    r
}


} // verus!
