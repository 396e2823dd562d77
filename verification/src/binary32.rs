//! Single-precision arithmetic on bit patterns: addition and subtraction
//! rounded to nearest, ties to even, as IEEE 754 defines them, and the
//! comparisons and maximum of the layout code.

use vstd::prelude::*;
use vstd::arithmetic::div_mod::lemma_fundamental_div_mod_converse;
use crate::types::{F32Bits, f32_exp, f32_frac, f32_is_nan, f32_key, two_to, lemma_two_to_mono, bit_len, lemma_bit_len,
    f32_shift, rounded_quotient, bit_length, two_to_u128};
use crate::pdf::decimal_real::lemma_two_to_add;

verus! {

/// The sign bit is set.
pub open spec fn f32_sign(b: u32) -> bool {
    b >= 0x8000_0000
}

/// The pattern encodes an infinity.
pub open spec fn f32_is_inf(b: u32) -> bool {
    f32_exp(b) == 255 && f32_frac(b) == 0
}

/// The significand of a finite pattern: the fraction, with the hidden bit
/// for a normal number.
pub open spec fn f32_sig(b: u32) -> nat {
    if f32_exp(b) == 0 { f32_frac(b) as nat } else { (f32_frac(b) + 0x80_0000) as nat }
}

/// The power of two by which the significand counts units of `2^-149`.
pub open spec fn f32_scale_exp(b: u32) -> nat {
    if f32_exp(b) == 0 { 0 } else { (f32_exp(b) - 1) as nat }
}

/// The magnitude of a finite pattern in units of `2^-149` (the smallest
/// subnormal), of which every finite value is a whole multiple.
pub open spec fn f32_units(b: u32) -> nat {
    f32_sig(b) * two_to(f32_scale_exp(b))
}

/// The signed value of a finite pattern in units of `2^-149`.
pub open spec fn f32_signed_units(b: u32) -> int {
    if f32_sign(b) { -(f32_units(b) as int) } else { f32_units(b) as int }
}

/// The magnitude bits for `n` units rounded to 24 significant digits,
/// before the overflow to infinity: below `2^24` units the pattern is the
/// count itself; above, the exponent field counts the shift and the
/// rounded digits carry into it.
pub open spec fn unit_pattern(n: nat) -> nat {
    if bit_len(n) <= 24 { n } else { ((bit_len(n) - 24) * 0x80_0000 + rounded_quotient(n)) as nat }
}

/// The magnitude bits for `n` units rounded to nearest, ties to even;
/// infinity when the rounded value reaches `2^128`.
pub open spec fn round_units(n: nat) -> u32 {
    if unit_pattern(n) >= 0x7F80_0000 { 0x7F80_0000 } else { unit_pattern(n) as u32 }
}

/// The pattern of an exact result of `s` units: the rounded magnitude
/// with the sign of `s`; for zero, negative zero only when `neg_zero`.
pub open spec fn f32_of_units(s: int, neg_zero: bool) -> u32 {
    if s > 0 {
        round_units(s as nat)
    } else if s < 0 {
        (0x8000_0000 + round_units((-s) as nat)) as u32
    } else if neg_zero {
        0x8000_0000
    } else {
        0
    }
}

/// `n` has exactly `b` binary digits when it lies in `[2^(b-1), 2^b)`.
pub proof fn lemma_bit_len_exact(n: nat, b: nat)
    requires
        b >= 1,
        two_to((b - 1) as nat) <= n < two_to(b),
    ensures
        bit_len(n) == b,
{
    lemma_bit_len(n);
    lemma_two_to_mono(0, (b - 1) as nat);
    let c = bit_len(n);
    if c < b {
        lemma_two_to_mono(c, (b - 1) as nat);
    } else if c > b {
        lemma_two_to_mono(b, (c - 1) as nat);
    }
}

/// Scaling by `2^k` adds `k` binary digits.
pub proof fn lemma_bit_len_scaled(m: nat, k: nat)
    requires
        m > 0,
    ensures
        bit_len(m * two_to(k)) == bit_len(m) + k,
{
    lemma_bit_len(m);
    let b = bit_len(m);
    lemma_two_to_add((b - 1) as nat, k);
    lemma_two_to_add(b, k);
    assert(((b - 1) as nat) + k == (b + k - 1) as nat);
    lemma_two_to_mono(0, k);
    assert(two_to((b - 1) as nat) * two_to(k) <= m * two_to(k)) by (nonlinear_arith)
        requires two_to((b - 1) as nat) <= m, two_to(k) >= 1;
    assert(m * two_to(k) < two_to(b) * two_to(k)) by (nonlinear_arith)
        requires m < two_to(b), two_to(k) >= 1;
    lemma_bit_len_exact(m * two_to(k), b + k);
}

/// Scaling a number of more than 24 digits keeps its rounded digits.
pub proof fn lemma_rounded_scaled_wide(m: nat, k: nat)
    requires
        bit_len(m) > 24,
    ensures
        rounded_quotient(m * two_to(k)) == rounded_quotient(m),
        f32_shift(m * two_to(k)) == f32_shift(m) + k,
{
    lemma_bit_len_scaled(m, k);
    let s = f32_shift(m);
    let p = two_to(s);
    let q = m / p;
    let r = m % p;
    lemma_two_to_mono(0, s);
    lemma_two_to_mono(0, k);
    lemma_two_to_add(s, k);
    let n = m * two_to(k);
    let pk = two_to(s + k);
    assert(pk == p * two_to(k));
    vstd::arithmetic::div_mod::lemma_fundamental_div_mod(m as int, p as int);
    assert(0 <= r < p) by {
        vstd::arithmetic::div_mod::lemma_mod_bound(m as int, p as int);
    }
    assert(n == q * pk + r * two_to(k)) by (nonlinear_arith)
        requires m == p * q + r, n == m * two_to(k), pk == p * two_to(k);
    assert(r * two_to(k) < pk) by (nonlinear_arith)
        requires r < p, pk == p * two_to(k), two_to(k) >= 1;
    lemma_fundamental_div_mod_converse(n as int, pk as int, q as int, (r * two_to(k)) as int);
    assert((2 * (r * two_to(k)) > pk) == (2 * r > p)) by (nonlinear_arith)
        requires pk == p * two_to(k), two_to(k) >= 1;
    assert((2 * (r * two_to(k)) == pk) == (2 * r == p)) by (nonlinear_arith)
        requires pk == p * two_to(k), two_to(k) >= 1;
}

/// A number of at most 24 digits scaled past 24 digits rounds exactly.
pub proof fn lemma_rounded_scaled_narrow(m: nat, k: nat)
    requires
        m > 0,
        bit_len(m) <= 24,
        bit_len(m) + k > 24,
    ensures
        rounded_quotient(m * two_to(k)) == m * two_to((24 - bit_len(m)) as nat),
        f32_shift(m * two_to(k)) == bit_len(m) + k - 24,
{
    lemma_bit_len_scaled(m, k);
    let t = (24 - bit_len(m)) as nat;
    let s = (bit_len(m) + k - 24) as nat;
    lemma_two_to_add(t, s);
    assert(t + s == k);
    let p = two_to(s);
    lemma_two_to_mono(0, s);
    let q = m * two_to(t);
    assert(m * two_to(k) == q * p + 0) by (nonlinear_arith)
        requires two_to(k) == two_to(t) * p, q == m * two_to(t);
    lemma_fundamental_div_mod_converse((m * two_to(k)) as int, p as int, q as int, 0);
}

/// The pattern of `m * 2^k` units.
#[verifier::spinoff_prover]
#[verifier::rlimit(40)]
pub fn scaled_pattern(m: u128, k: u32) -> (r: u32)
    requires
        0 < m < 0x1_0000_0000_0000_0000_0000,
        k <= 400,
    ensures
        r == round_units(m as nat * two_to(k as nat)),
{
    let bl = bit_length(m);
    proof { lemma_bit_len(m as nat); }
    if bl + k <= 24 {
        let p = two_to_u128(k);
        proof {
            lemma_bit_len_scaled(m as nat, k as nat);
            lemma_bit_len(m as nat * two_to(k as nat));
            assert(two_to(24) == 0x100_0000) by { reveal_with_fuel(two_to, 25); }
            lemma_two_to_mono(bit_len(m as nat * two_to(k as nat)), 24);
        }
        let n = m * p;
        return n as u32;
    }
    let q: u128 = if bl <= 24 {
        let p = two_to_u128(24 - bl);
        proof {
            lemma_rounded_scaled_narrow(m as nat, k as nat);
            lemma_two_to_add(bl as nat, (24 - bl) as nat);
            assert(two_to(24) == 0x100_0000) by { reveal_with_fuel(two_to, 25); }
            assert(m * p < 0x100_0000) by (nonlinear_arith)
                requires m < two_to(bl as nat), p == two_to((24 - bl) as nat),
                    0x100_0000 == two_to(bl as nat) * two_to((24 - bl) as nat), p >= 1;
        }
        m * p
    } else {
        let sh = bl - 24;
        let p = two_to_u128(sh);
        let q0 = m / p;
        let r0 = m % p;
        proof {
            lemma_rounded_scaled_wide(m as nat, k as nat);
            lemma_two_to_add(24, sh as nat);
            assert(two_to(24) == 0x100_0000) by { reveal_with_fuel(two_to, 25); }
            assert(q0 < 0x100_0000) by (nonlinear_arith)
                requires m < 0x100_0000 * p, q0 == m / p, p >= 1;
        }
        if 2 * r0 > p || (2 * r0 == p && q0 % 2 == 1) { q0 + 1 } else { q0 }
    };
    proof {
        lemma_bit_len_scaled(m as nat, k as nat);
    }
    let pat: u64 = (bl as u64 + k as u64 - 24) * 0x80_0000 + q as u64;
    if pat >= 0x7F80_0000 { 0x7F80_0000 } else { pat as u32 }
}

/// A pattern is its sign bit, its exponent field and its fraction.
pub proof fn lemma_pattern_fields(b: u32)
    ensures
        b as int == (if f32_sign(b) { 0x8000_0000int } else { 0int }) + f32_exp(b) * 0x80_0000 + f32_frac(b),
        0 <= f32_exp(b) < 256,
        0 <= f32_frac(b) < 0x80_0000,
{
    assert(b == (if b >= 0x8000_0000 { 0x8000_0000u32 } else { 0u32 }) + ((b / 0x80_0000) % 256) * 0x80_0000
        + b % 0x80_0000) by (bit_vector);
}

/// A finite pattern's own value rounds to itself.
pub proof fn lemma_units_round_trip(b: u32)
    requires
        f32_exp(b) < 255,
    ensures
        unit_pattern(f32_units(b)) == f32_exp(b) * 0x80_0000 + f32_frac(b),
        round_units(f32_units(b)) == f32_exp(b) * 0x80_0000 + f32_frac(b),
        (f32_units(b) == 0) == (f32_exp(b) == 0 && f32_frac(b) == 0),
{
    lemma_pattern_fields(b);
    let e = f32_exp(b);
    let f = f32_frac(b);
    assert(two_to(0) == 1);
    assert(two_to(23) == 0x80_0000) by { reveal_with_fuel(two_to, 24); }
    assert(two_to(24) == 0x100_0000) by { reveal_with_fuel(two_to, 25); }
    if e == 0 {
        assert(f32_sig(b) == f);
        assert(f32_scale_exp(b) == 0);
        assert(f32_units(b) == f * 1);
        crate::types::lemma_bit_len_bound(f as nat, 24);
    } else {
        let sig = (f + 0x80_0000) as nat;
        lemma_bit_len_exact(sig, 24);
        let k = (e - 1) as nat;
        lemma_bit_len_scaled(sig, k);
        lemma_two_to_mono(0, k);
        assert(f32_units(b) == sig * two_to(k));
        if e == 1 {
            assert(sig * two_to(0) == sig);
        } else {
            lemma_rounded_scaled_narrow(sig, k);
            assert(sig * two_to(0) == sig);
        }
        assert(f32_units(b) > 0) by (nonlinear_arith)
            requires f32_units(b) == sig * two_to(k), sig > 0, two_to(k) >= 1;
    }
}

/// The rounded digits of `q * 2^s + r` when it has `24 + s` digits.
proof fn lemma_rounded_split(n: nat, s: nat, q: nat, r: nat)
    requires
        bit_len(n) == 24 + s,
        n == q * two_to(s) + r,
        r < two_to(s),
    ensures
        f32_shift(n) == s,
        rounded_quotient(n) == (if 2 * r > two_to(s) || (2 * r == two_to(s) && q % 2 == 1) { q + 1 } else { q }),
{
    if s == 0 {
        assert(f32_shift(n) == 0);
    }
    lemma_two_to_mono(0, s);
    lemma_fundamental_div_mod_converse(n as int, two_to(s) as int, q as int, r as int);
}

/// The digits of the larger operand, when the smaller is far below.
proof fn lemma_far_base(ma: nat, d: nat, k: nat)
    requires
        0x80_0000 <= ma < 0x100_0000,
    ensures
        bit_len(ma * two_to(d)) == 24 + d,
        unit_pattern(ma * two_to(d) * two_to(k)) == (d + k) * 0x80_0000 + ma,
{
    assert(two_to(23) == 0x80_0000) by { reveal_with_fuel(two_to, 24); }
    assert(two_to(24) == 0x100_0000) by { reveal_with_fuel(two_to, 25); }
    lemma_bit_len_exact(ma, 24);
    lemma_bit_len_scaled(ma, d);
    let a = ma * two_to(d);
    lemma_two_to_mono(0, d);
    lemma_rounded_split(a, d, ma, 0);
    if d > 0 {
        lemma_rounded_scaled_wide(a, k);
        lemma_bit_len_scaled(a, k);
    } else {
        assert(a == ma);
        if k == 0 {
            assert(a * two_to(k) == a);
        } else {
            lemma_rounded_scaled_narrow(ma, k);
            lemma_bit_len_scaled(ma, k);
            assert(ma * two_to(0) == ma);
        }
    }
}

/// Adding or subtracting a significand far below the rounding point of a
/// normal significand leaves its rounding unchanged.
pub proof fn lemma_far_rounding(ma: nat, d: nat, mb: nat, k: nat, subtract: bool)
    requires
        0x80_0000 <= ma < 0x100_0000,
        d > 40,
        0 < mb < 0x100_0000,
    ensures
        (if subtract { ma * two_to(d) - mb } else { (ma * two_to(d) + mb) as int }) > 0,
        unit_pattern(((if subtract { ma * two_to(d) - mb } else { (ma * two_to(d) + mb) as int }) as nat) * two_to(k))
            == unit_pattern(ma * two_to(d) * two_to(k)),
{
    lemma_far_base(ma, d, k);
    assert(two_to(23) == 0x80_0000) by { reveal_with_fuel(two_to, 24); }
    assert(two_to(24) == 0x100_0000) by { reveal_with_fuel(two_to, 25); }
    assert(two_to(26) == 0x400_0000) by { reveal_with_fuel(two_to, 27); }
    let d1 = (d - 1) as nat;
    lemma_two_to_mono(26, d1);
    assert(two_to(d) == 2 * two_to(d1));
    let pd = two_to(d);
    let a = ma * pd;
    lemma_two_to_add(23, d);
    lemma_two_to_add(24, d);
    lemma_two_to_add(23, d1);
    lemma_two_to_add(24, d1);
    assert(23 + d1 + 1 == 23 + d);
    assert(a >= 0x80_0000 * 0x400_0000) by (nonlinear_arith)
        requires a == ma * pd, ma >= 0x80_0000, pd >= 0x400_0000;
    if !subtract {
        let m = a + mb;
        assert(two_to(23) * pd <= m < two_to(24) * pd) by (nonlinear_arith)
            requires 0x80_0000 <= ma < 0x100_0000, m == ma * pd + mb, mb < pd,
                two_to(23) == 0x80_0000, two_to(24) == 0x100_0000;
        lemma_bit_len_exact(m, 24 + d);
        lemma_rounded_split(m, d, ma, mb);
        lemma_rounded_scaled_wide(m, k);
        lemma_bit_len_scaled(m, k);
    } else if ma > 0x80_0000 {
        let m = (a - mb) as nat;
        let r = (pd - mb) as nat;
        assert(m == (ma - 1) * pd + r) by (nonlinear_arith)
            requires m == ma * pd - mb, r == pd - mb, ma >= 1;
        assert(two_to(23) * pd <= m < two_to(24) * pd) by (nonlinear_arith)
            requires 0x80_0000 < ma < 0x100_0000, m == (ma - 1) * pd + r, 0 < r < pd,
                two_to(23) == 0x80_0000, two_to(24) == 0x100_0000;
        lemma_bit_len_exact(m, 24 + d);
        lemma_rounded_split(m, d, (ma - 1) as nat, r);
        lemma_rounded_scaled_wide(m, k);
        lemma_bit_len_scaled(m, k);
    } else {
        let p1 = two_to(d1);
        let m = (a - mb) as nat;
        let r = (p1 - mb) as nat;
        assert(m == (0x100_0000 - 1) * p1 + r) by (nonlinear_arith)
            requires m == 0x80_0000 * pd - mb, r == p1 - mb, pd == 2 * p1;
        assert(two_to(22 + d) <= m < two_to(23 + d)) by {
            assert(two_to(23 + d) == 0x80_0000 * pd);
            lemma_two_to_add(22, d);
            assert(two_to(22) == 0x40_0000) by { reveal_with_fuel(two_to, 23); }
            assert(two_to(22 + d) == 0x40_0000 * pd);
            assert(0x40_0000 * pd <= 0x80_0000 * pd - mb) by (nonlinear_arith)
                requires mb < 0x100_0000, pd >= 0x800_0000;
        }
        lemma_bit_len_exact(m, 23 + d);
        assert(23 + d == 24 + d1);
        lemma_rounded_split(m, d1, (0x100_0000 - 1) as nat, r);
        lemma_rounded_scaled_wide(m, k);
        lemma_bit_len_scaled(m, k);
    }
}

/// What IEEE 754 addition gives for two patterns: NaN (here the quiet
/// NaN `0x7FC0_0000`) when an operand is NaN or for infinities of
/// opposite signs; else the infinity when an operand is infinite; else
/// the exact sum rounded to nearest, ties to even, a zero sum negative
/// only when both operands are negative.
pub open spec fn f32_sum(a: u32, b: u32) -> u32 {
    if f32_is_nan(a) || f32_is_nan(b) || (f32_is_inf(a) && f32_is_inf(b) && f32_sign(a) != f32_sign(b)) {
        0x7FC0_0000
    } else if f32_is_inf(a) {
        a
    } else if f32_is_inf(b) {
        b
    } else {
        f32_of_units(f32_signed_units(a) + f32_signed_units(b), f32_sign(a) && f32_sign(b))
    }
}

/// The significand, scale and sign of a finite pattern.
fn decode(x: u32) -> (r: (u128, u32, bool))
    requires
        f32_exp(x) < 255,
    ensures
        r.0 == f32_sig(x),
        r.1 == f32_scale_exp(x),
        r.2 == f32_sign(x),
        r.0 < 0x100_0000,
        r.1 <= 253,
        r.1 > 0 ==> r.0 >= 0x80_0000,
{
    let e = (x / 0x80_0000) % 256;
    let f = x % 0x80_0000;
    if e == 0 {
        (f as u128, 0, x >= 0x8000_0000)
    } else {
        ((f + 0x80_0000) as u128, e - 1, x >= 0x8000_0000)
    }
}

/// A finite pattern is its sign and its rounded units.
proof fn lemma_pattern_of_units(x: u32)
    requires
        f32_exp(x) < 255,
        f32_units(x) > 0,
    ensures
        f32_of_units(f32_signed_units(x), false) == x,
        f32_of_units(f32_signed_units(x), true) == x,
{
    lemma_units_round_trip(x);
    lemma_pattern_fields(x);
}

/// The signed sum `±x * 2^k ± y * 2^k` of two magnitudes, rounded.
fn combine(x: u128, y: u128, k: u32, sx: bool, sy: bool) -> (r: u32)
    requires
        x <= 0x1_0000_0000_0000_0000,
        y < 0x100_0000,
        y > 0,
        k <= 253,
    ensures
        r == f32_of_units((if sx { -(x * two_to(k as nat)) } else { x * two_to(k as nat) })
            + (if sy { -(y * two_to(k as nat)) } else { y * two_to(k as nat) }), sx && sy),
{
    let ghost pk = two_to(k as nat);
    proof { lemma_two_to_mono(0, k as nat); }
    if sx == sy {
        let m = x + y;
        let pat = scaled_pattern(m, k);
        proof {
            assert(m * pk > 0) by (nonlinear_arith) requires m > 0, pk >= 1;
            assert(x * pk + y * pk == m * pk) by (nonlinear_arith) requires m == x + y;
        }
        if sx { (0x8000_0000 + pat as u64) as u32 } else { pat }
    } else if x > y {
        let m = x - y;
        let pat = scaled_pattern(m, k);
        proof {
            assert(m * pk > 0) by (nonlinear_arith) requires m > 0, pk >= 1;
            assert(x * pk - y * pk == m * pk) by (nonlinear_arith) requires m == x - y;
        }
        if sx { (0x8000_0000 + pat as u64) as u32 } else { pat }
    } else if y > x {
        let m = y - x;
        let pat = scaled_pattern(m, k);
        proof {
            assert(m * pk > 0) by (nonlinear_arith) requires m > 0, pk >= 1;
            assert(y * pk - x * pk == m * pk) by (nonlinear_arith) requires m == y - x;
        }
        if sy { (0x8000_0000 + pat as u64) as u32 } else { pat }
    } else {
        0
    }
}

/// The sum when the second operand is far below the first: the first.
proof fn lemma_sum_far(a: u32, b: u32, ma: nat, d: nat, mb: nat, kb: nat)
    requires
        f32_exp(a) < 255,
        f32_exp(b) < 255,
        f32_units(a) == ma * two_to(d) * two_to(kb),
        f32_units(b) == mb * two_to(kb),
        0x80_0000 <= ma < 0x100_0000,
        d > 40,
        0 < mb < 0x100_0000,
    ensures
        f32_of_units(f32_signed_units(a) + f32_signed_units(b), f32_sign(a) && f32_sign(b)) == a,
{
    let sa = f32_sign(a);
    let sb = f32_sign(b);
    lemma_far_rounding(ma, d, mb, kb, sa != sb);
    lemma_units_round_trip(a);
    lemma_pattern_fields(a);
    lemma_two_to_mono(0, kb);
    lemma_two_to_mono(0, d);
    let pk = two_to(kb);
    let x = ma * two_to(d);
    let m: int = if sa != sb { x - mb } else { (x + mb) as int };
    assert(f32_signed_units(a) + f32_signed_units(b) == (if sa { -(m * pk) } else { m * pk })) by (nonlinear_arith)
        requires f32_units(a) == x * pk, f32_units(b) == mb * pk,
            f32_signed_units(a) == (if sa { -(f32_units(a) as int) } else { f32_units(a) as int }),
            f32_signed_units(b) == (if sb { -(f32_units(b) as int) } else { f32_units(b) as int }),
            m == (if sa != sb { x - mb } else { (x + mb) as int });
    assert(m * pk > 0) by (nonlinear_arith) requires m > 0, pk >= 1;
    assert((m as nat) * pk == m * pk);
}

/// The sum of two finite patterns, the first of the larger scale.
#[verifier::spinoff_prover]
#[verifier::rlimit(40)]
fn sum_ordered(a: u32, b: u32) -> (r: u32)
    requires
        f32_exp(a) < 255,
        f32_exp(b) < 255,
        f32_scale_exp(a) >= f32_scale_exp(b),
    ensures
        r == f32_of_units(f32_signed_units(a) + f32_signed_units(b), f32_sign(a) && f32_sign(b)),
{
    let (ma, ka, sa) = decode(a);
    let (mb, kb, sb) = decode(b);
    let d = ka - kb;
    proof {
        lemma_two_to_add(d as nat, kb as nat);
        assert(f32_units(a) == ma * (two_to(d as nat) * two_to(kb as nat)));
        assert(ma * (two_to(d as nat) * two_to(kb as nat)) == ma * two_to(d as nat) * two_to(kb as nat))
            by (nonlinear_arith);
        lemma_two_to_mono(0, kb as nat);
        lemma_two_to_mono(0, d as nat);
    }
    if mb == 0 {
        proof {
            assert(f32_units(b) == 0);
        }
        if ma == 0 {
            proof {
                assert(f32_units(a) == 0) by (nonlinear_arith)
                    requires f32_units(a) == ma * two_to(d as nat) * two_to(kb as nat), ma == 0;
            }
            return if sa && sb { 0x8000_0000 } else { 0 };
        }
        proof {
            assert(f32_units(a) > 0) by (nonlinear_arith)
                requires f32_units(a) == ma * two_to(d as nat) * two_to(kb as nat), ma > 0,
                    two_to(d as nat) >= 1, two_to(kb as nat) >= 1;
            lemma_pattern_of_units(a);
        }
        return a;
    }
    if d > 40 {
        proof { lemma_sum_far(a, b, ma as nat, d as nat, mb as nat, kb as nat); }
        return a;
    }
    let p = two_to_u128(d);
    proof {
        assert(two_to(40) == 0x100_0000_0000) by { reveal_with_fuel(two_to, 41); }
        lemma_two_to_mono(d as nat, 40);
        assert(ma * p <= 0x100_0000 * 0x100_0000_0000) by (nonlinear_arith)
            requires ma < 0x100_0000, p <= 0x100_0000_0000;
    }
    let x: u128 = ma * p;
    combine(x, mb, kb, sa, sb)
}

/// The pattern with its sign bit flipped.
pub open spec fn f32_neg(b: u32) -> u32 {
    if b >= 0x8000_0000 { (b - 0x8000_0000) as u32 } else { (b + 0x8000_0000) as u32 }
}

/// What `f32::max` gives: the other operand when one is NaN, else the
/// larger value, the first operand when the two are equal (two zeros).
pub open spec fn f32_max_of(a: u32, b: u32) -> u32 {
    if f32_is_nan(a) {
        b
    } else if f32_is_nan(b) {
        a
    } else if f32_key(a) >= f32_key(b) {
        a
    } else {
        b
    }
}

/// `a <= b` on the encoded values; false when either is NaN.
pub open spec fn f32_le(a: u32, b: u32) -> bool {
    !f32_is_nan(a) && !f32_is_nan(b) && f32_key(a) <= f32_key(b)
}

/// `a < b` on the encoded values; false when either is NaN.
pub open spec fn f32_lt(a: u32, b: u32) -> bool {
    !f32_is_nan(a) && !f32_is_nan(b) && f32_key(a) < f32_key(b)
}

fn is_nan_bits(x: u32) -> (r: bool)
    ensures
        r == f32_is_nan(x),
{
    (x / 0x80_0000) % 256 == 255 && x % 0x80_0000 != 0
}

fn is_inf_bits(x: u32) -> (r: bool)
    ensures
        r == f32_is_inf(x),
{
    (x / 0x80_0000) % 256 == 255 && x % 0x80_0000 == 0
}

fn key_of(x: u32) -> (r: i64)
    ensures
        r == f32_key(x),
{
    if x >= 0x8000_0000 { -((x - 0x8000_0000) as i64) } else { x as i64 }
}

impl F32Bits {
    /// `self + other` in single precision.
    pub fn sum(&self, other: &F32Bits) -> (r: F32Bits)
        ensures
            r.0 == f32_sum(self.0, other.0),
    {
        let a = self.0;
        let b = other.0;
        let a_inf = is_inf_bits(a);
        let b_inf = is_inf_bits(b);
        if is_nan_bits(a) || is_nan_bits(b) || (a_inf && b_inf && (a >= 0x8000_0000) != (b >= 0x8000_0000)) {
            return F32Bits(0x7FC0_0000);
        }
        if a_inf {
            return *self;
        }
        if b_inf {
            return *other;
        }
        let ea = (a / 0x80_0000) % 256;
        let eb = (b / 0x80_0000) % 256;
        let ka = if ea == 0 { 0 } else { ea - 1 };
        let kb = if eb == 0 { 0 } else { eb - 1 };
        if ka >= kb {
            F32Bits(sum_ordered(a, b))
        } else {
            F32Bits(sum_ordered(b, a))
        }
    }

    /// `self - other` in single precision: the sum with `other` negated.
    pub fn difference(&self, other: &F32Bits) -> (r: F32Bits)
        ensures
            r.0 == f32_sum(self.0, f32_neg(other.0)),
    {
        let b = other.0;
        let nb = if b >= 0x8000_0000 { b - 0x8000_0000 } else { b + 0x8000_0000 };
        proof {
            lemma_pattern_fields(b);
            lemma_pattern_fields(nb);
            assert(f32_exp(nb) == f32_exp(b) && f32_frac(nb) == f32_frac(b));
        }
        self.sum(&F32Bits(nb))
    }

    /// `f32::max`: the larger value, ignoring a NaN.
    pub fn max(&self, other: &F32Bits) -> (r: F32Bits)
        ensures
            r.0 == f32_max_of(self.0, other.0),
    {
        if is_nan_bits(self.0) {
            *other
        } else if is_nan_bits(other.0) {
            *self
        } else if key_of(self.0) >= key_of(other.0) {
            *self
        } else {
            *other
        }
    }

    /// `self <= other`.
    pub fn le(&self, other: &F32Bits) -> (r: bool)
        ensures
            r == f32_le(self.0, other.0),
    {
        !is_nan_bits(self.0) && !is_nan_bits(other.0) && key_of(self.0) <= key_of(other.0)
    }

    /// `self < other`.
    pub fn lt(&self, other: &F32Bits) -> (r: bool)
        ensures
            r == f32_lt(self.0, other.0),
    {
        !is_nan_bits(self.0) && !is_nan_bits(other.0) && key_of(self.0) < key_of(other.0)
    }
}

/// `n` shifted right by `t` binary digits, rounded to nearest, ties to even.
pub open spec fn rounded_shift(n: nat, t: nat) -> nat {
    let p = two_to(t);
    let q = n / p;
    let r = n % p;
    if 2 * r > p || (2 * r == p && q % 2 == 1) { q + 1 } else { q }
}

/// How many low binary digits of `n` are dropped when `n` counts units of
/// `2^-(149 + s)`: enough to keep 24 digits, and at least `s`, so that
/// whole units of `2^-149` remain.
pub open spec fn dropped_digits(n: nat, s: nat) -> nat {
    if bit_len(n) > s + 24 { (bit_len(n) - 24) as nat } else { s }
}

/// The magnitude bits, before overflow, for `n` units of `2^-(149 + s)`
/// rounded to nearest, ties to even.
pub open spec fn fraction_pattern(n: nat, s: nat) -> nat {
    let t = dropped_digits(n, s);
    ((t - s) * 0x80_0000 + rounded_shift(n, t)) as nat
}

/// The magnitude bits for `n` units of `2^-(149 + s)`; infinity when the
/// rounded value reaches `2^128`.
pub open spec fn round_fraction(n: nat, s: nat) -> u32 {
    if fraction_pattern(n, s) >= 0x7F80_0000 { 0x7F80_0000 } else { fraction_pattern(n, s) as u32 }
}

/// The pattern encodes a zero.
pub open spec fn f32_is_zero(b: u32) -> bool {
    f32_exp(b) == 0 && f32_frac(b) == 0
}

/// What IEEE 754 multiplication gives for two patterns: NaN (here the
/// quiet NaN `0x7FC0_0000`) when an operand is NaN or for an infinity
/// times a zero; else an infinity when an operand is infinite; else the
/// exact product rounded to nearest, ties to even; the sign is that of
/// the two signs combined.
pub open spec fn f32_product(a: u32, b: u32) -> u32 {
    let sign: nat = if f32_sign(a) != f32_sign(b) { 0x8000_0000 } else { 0 };
    if f32_is_nan(a) || f32_is_nan(b) || (f32_is_inf(a) && f32_is_zero(b)) || (f32_is_zero(a) && f32_is_inf(b)) {
        0x7FC0_0000
    } else if f32_is_inf(a) || f32_is_inf(b) {
        (sign + 0x7F80_0000) as u32
    } else {
        (sign + round_fraction(f32_units(a) * f32_units(b), 149)) as u32
    }
}

/// Scaling a number and the digits dropped from it by the same power of
/// two rounds alike.
pub proof fn lemma_rounded_shift_scaled(m: nat, t: nat, k: nat)
    ensures
        rounded_shift(m * two_to(k), t + k) == rounded_shift(m, t),
{
    let p = two_to(t);
    let q = m / p;
    let r = m % p;
    lemma_two_to_mono(0, t);
    lemma_two_to_mono(0, k);
    lemma_two_to_add(t, k);
    let n = m * two_to(k);
    let pk = two_to(t + k);
    assert(pk == p * two_to(k));
    vstd::arithmetic::div_mod::lemma_fundamental_div_mod(m as int, p as int);
    vstd::arithmetic::div_mod::lemma_mod_bound(m as int, p as int);
    assert(n == q * pk + r * two_to(k)) by (nonlinear_arith)
        requires m == p * q + r, n == m * two_to(k), pk == p * two_to(k);
    assert(r * two_to(k) < pk) by (nonlinear_arith)
        requires r < p, pk == p * two_to(k), two_to(k) >= 1;
    lemma_fundamental_div_mod_converse(n as int, pk as int, q as int, (r * two_to(k)) as int);
    assert((2 * (r * two_to(k)) > pk) == (2 * r > p)) by (nonlinear_arith)
        requires pk == p * two_to(k), two_to(k) >= 1;
    assert((2 * (r * two_to(k)) == pk) == (2 * r == p)) by (nonlinear_arith)
        requires pk == p * two_to(k), two_to(k) >= 1;
}

/// Scaling a count and its unit by the same power of two rounds alike.
pub proof fn lemma_fraction_scaled(m: nat, s: nat, k: nat)
    ensures
        fraction_pattern(m * two_to(k), s + k) == fraction_pattern(m, s),
{
    lemma_two_to_mono(0, k);
    if m == 0 {
        assert(m * two_to(k) == 0);
        assert(bit_len(0) == 0);
        assert(0nat / two_to(s) == 0 && 0nat % two_to(s) == 0) by {
            lemma_two_to_mono(0, s);
        }
        assert(0nat / two_to(s + k) == 0 && 0nat % two_to(s + k) == 0) by {
            lemma_two_to_mono(0, s + k);
        }
    } else {
        lemma_bit_len_scaled(m, k);
        let t = dropped_digits(m, s);
        assert(dropped_digits(m * two_to(k), s + k) == t + k);
        lemma_rounded_shift_scaled(m, t, k);
    }
}

/// With no fraction, the pattern is that of whole units.
pub proof fn lemma_fraction_whole(n: nat)
    ensures
        fraction_pattern(n, 0) == unit_pattern(n),
{
    assert(two_to(0) == 1);
    if bit_len(n) <= 24 {
        assert(n / 1 == n && n % 1 == 0);
    }
}

/// A count of units of `2^-(149 + s)` far below one unit rounds to zero.
proof fn lemma_fraction_tiny(m: nat, s: nat)
    requires
        m < 0x1_0000_0000_0000,
        s >= 50,
    ensures
        fraction_pattern(m, s) == 0,
{
    assert(two_to(48) == 0x1_0000_0000_0000) by { reveal_with_fuel(two_to, 49); }
    crate::types::lemma_bit_len_bound(m, 48);
    lemma_two_to_mono(49, (s - 1) as nat);
    assert(two_to(49) == 2 * two_to(48));
    assert(two_to(s) == 2 * two_to((s - 1) as nat));
    lemma_fundamental_div_mod_converse(m as int, two_to(s) as int, 0, m as int);
}

/// The product's magnitude bits for `m` units of `2^-(149 + s)`.
#[verifier::spinoff_prover]
fn fraction_bits(m: u128, s: u32) -> (r: u32)
    requires
        m < 0x1_0000_0000_0000,
        s <= 149,
    ensures
        r == round_fraction(m as nat, s as nat),
{
    if s >= 50 {
        proof { lemma_fraction_tiny(m as nat, s as nat); }
        return 0;
    }
    let bl = bit_length(m);
    let t: u32 = if bl > s + 24 { bl - 24 } else { s };
    let p = two_to_u128(t);
    let q = m / p;
    let r = m % p;
    let q2 = if 2 * r > p || (2 * r == p && q % 2 == 1) { q + 1 } else { q };
    proof {
        assert(q <= m) by (nonlinear_arith) requires q == m / p, p >= 1;
    }
    let pat: u64 = (t - s) as u64 * 0x80_0000 + q2 as u64;
    if pat >= 0x7F80_0000 { 0x7F80_0000 } else { pat as u32 }
}

/// The rounded magnitude of the product of two finite patterns.
#[verifier::spinoff_prover]
fn product_finite(a: u32, b: u32) -> (r: u32)
    requires
        f32_exp(a) < 255,
        f32_exp(b) < 255,
    ensures
        r == round_fraction(f32_units(a) * f32_units(b), 149),
{
    let (ma, ka, _sa) = decode(a);
    let (mb, kb, _sb) = decode(b);
    proof {
        assert(ma * mb < 0x1_0000_0000_0000) by (nonlinear_arith)
            requires ma < 0x100_0000, mb < 0x100_0000;
    }
    let m = ma * mb;
    let k = ka + kb;
    let ghost n = f32_units(a) * f32_units(b);
    proof {
        assert(m < 0x1_0000_0000_0000) by (nonlinear_arith)
            requires m == ma * mb, ma < 0x100_0000, mb < 0x100_0000;
        lemma_two_to_add(ka as nat, kb as nat);
        assert(n == m * two_to(k as nat)) by (nonlinear_arith)
            requires n == f32_units(a) * f32_units(b), f32_units(a) == ma * two_to(ka as nat),
                f32_units(b) == mb * two_to(kb as nat), m == ma * mb,
                two_to(k as nat) == two_to(ka as nat) * two_to(kb as nat);
    }
    if m == 0 {
        proof {
            assert(n == 0) by (nonlinear_arith) requires n == m * two_to(k as nat), m == 0;
            lemma_fraction_tiny(0, 149);
        }
        return 0;
    }
    if k >= 149 {
        let j = k - 149;
        let r = scaled_pattern(m, j);
        proof {
            lemma_two_to_add(j as nat, 149);
            let x = (m as nat) * two_to(j as nat);
            assert(n == x * two_to(149)) by (nonlinear_arith)
                requires n == m * two_to(k as nat), x == m * two_to(j as nat),
                    two_to(k as nat) == two_to(j as nat) * two_to(149);
            lemma_fraction_scaled(x, 0, 149);
            lemma_fraction_whole(x);
        }
        r
    } else {
        let sft = 149 - k;
        let r = fraction_bits(m, sft);
        proof {
            lemma_fraction_scaled(m as nat, sft as nat, k as nat);
        }
        r
    }
}

impl F32Bits {
    /// `self * other` in single precision.
    pub fn product(&self, other: &F32Bits) -> (r: F32Bits)
        ensures
            r.0 == f32_product(self.0, other.0),
    {
        let a = self.0;
        let b = other.0;
        let sign: u32 = if (a >= 0x8000_0000) != (b >= 0x8000_0000) { 0x8000_0000 } else { 0 };
        let a_inf = is_inf_bits(a);
        let b_inf = is_inf_bits(b);
        let a_zero = a % 0x8000_0000 == 0;
        let b_zero = b % 0x8000_0000 == 0;
        proof {
            lemma_pattern_fields(a);
            lemma_pattern_fields(b);
        }
        if is_nan_bits(a) || is_nan_bits(b) || (a_inf && b_zero) || (a_zero && b_inf) {
            return F32Bits(0x7FC0_0000);
        }
        if a_inf || b_inf {
            return F32Bits(sign + 0x7F80_0000);
        }
        let m = product_finite(a, b);
        F32Bits(sign + m)
    }
}

/// `n / d` rounded to nearest, ties to even.
pub open spec fn rounded_div(n: nat, d: nat) -> nat {
    let q = n / d;
    let r = n % d;
    if 2 * r > d || (2 * r == d && q % 2 == 1) { q + 1 } else { q }
}

/// How many binary digits are dropped from `n / d` units to keep 24 of
/// them: none below `2^24` units.
pub open spec fn ratio_drop(n: nat, d: nat) -> nat {
    if bit_len(n / d) > 24 { (bit_len(n / d) - 24) as nat } else { 0 }
}

/// The magnitude bits, before overflow, for `n / d` units of `2^-149`
/// rounded to nearest, ties to even.
pub open spec fn ratio_pattern(n: nat, d: nat) -> nat {
    let t = ratio_drop(n, d);
    (t * 0x80_0000 + rounded_div(n, d * two_to(t))) as nat
}

/// The magnitude bits for `n / d` units; infinity when the rounded value
/// reaches `2^128`.
pub open spec fn round_ratio(n: nat, d: nat) -> u32 {
    if ratio_pattern(n, d) >= 0x7F80_0000 { 0x7F80_0000 } else { ratio_pattern(n, d) as u32 }
}

/// What IEEE 754 division gives for two patterns: NaN (here the quiet NaN
/// `0x7FC0_0000`) when an operand is NaN, for two infinities or two zeros;
/// else an infinity for an infinite dividend or a zero divisor; a zero
/// for an infinite divisor; else the exact quotient rounded to nearest,
/// ties to even; the sign is that of the two signs combined.
pub open spec fn f32_quotient(a: u32, b: u32) -> u32 {
    let sign: nat = if f32_sign(a) != f32_sign(b) { 0x8000_0000 } else { 0 };
    if f32_is_nan(a) || f32_is_nan(b) || (f32_is_inf(a) && f32_is_inf(b)) || (f32_is_zero(a) && f32_is_zero(b)) {
        0x7FC0_0000
    } else if f32_is_inf(a) || f32_is_zero(b) {
        (sign + 0x7F80_0000) as u32
    } else if f32_is_inf(b) {
        sign as u32
    } else {
        (sign + round_ratio(f32_units(a) * two_to(149), f32_units(b))) as u32
    }
}

/// Scaling dividend and divisor alike rounds alike.
pub proof fn lemma_rounded_div_scaled(x: nat, y: nat, c: nat)
    requires
        y > 0,
    ensures
        rounded_div(x * two_to(c), y * two_to(c)) == rounded_div(x, y),
{
    lemma_two_to_mono(0, c);
    let pc = two_to(c);
    let q = x / y;
    let r = x % y;
    vstd::arithmetic::div_mod::lemma_fundamental_div_mod(x as int, y as int);
    vstd::arithmetic::div_mod::lemma_mod_bound(x as int, y as int);
    assert(x * pc == q * (y * pc) + r * pc) by (nonlinear_arith)
        requires x == y * q + r;
    assert(r * pc < y * pc) by (nonlinear_arith) requires r < y, pc >= 1;
    lemma_fundamental_div_mod_converse((x * pc) as int, (y * pc) as int, q as int, (r * pc) as int);
    assert((2 * (r * pc) > y * pc) == (2 * r > y)) by (nonlinear_arith) requires pc >= 1;
    assert((2 * (r * pc) == y * pc) == (2 * r == y)) by (nonlinear_arith) requires pc >= 1;
}

/// The bit length of `n / d` when `d * 2^f <= n < d * 2^(f + 1)`.
pub proof fn lemma_ratio_bit_len(n: nat, d: nat, f: nat)
    requires
        d > 0,
        d * two_to(f) <= n,
        n < d * two_to(f + 1),
    ensures
        bit_len(n / d) == f + 1,
{
    lemma_two_to_mono(0, f);
    assert(two_to(f + 1) == 2 * two_to(f));
    let q = n / d;
    vstd::arithmetic::div_mod::lemma_fundamental_div_mod(n as int, d as int);
    vstd::arithmetic::div_mod::lemma_mod_bound(n as int, d as int);
    assert(two_to(f) <= q) by (nonlinear_arith)
        requires d * two_to(f) <= n, n == d * q + n % d, n % d < d, d > 0;
    assert(q < two_to(f + 1)) by (nonlinear_arith)
        requires n < d * two_to(f + 1), n == d * q + n % d, n % d >= 0, d > 0;
    lemma_bit_len_exact(q, f + 1);
}

/// The quotient is below one unit short of `2^24` when `n < d * 2^24`.
pub proof fn lemma_ratio_small(n: nat, d: nat)
    requires
        d > 0,
        n < d * two_to(24),
    ensures
        ratio_drop(n, d) == 0,
{
    assert(two_to(24) == 0x100_0000) by { reveal_with_fuel(two_to, 25); }
    assert(n / d < 0x100_0000) by (nonlinear_arith)
        requires n < d * 0x100_0000, d > 0;
    crate::types::lemma_bit_len_bound(n / d, 24);
}

/// `2^k` for `k` up to 104.
fn power_of_two(k: u32) -> (p: u128)
    requires
        k <= 104,
    ensures
        p == two_to(k as nat),
        1 <= p <= 0x100_0000_0000_0000_0000_0000_0000,
{
    proof {
        assert(two_to(52) == 0x10_0000_0000_0000) by { reveal_with_fuel(two_to, 53); }
        lemma_two_to_add(52, 52);
        assert(two_to(104) == 0x100_0000_0000_0000_0000_0000_0000) by (nonlinear_arith)
            requires two_to(104) == two_to(52) * two_to(52), two_to(52) == 0x10_0000_0000_0000;
        lemma_two_to_mono(k as nat, 104);
        lemma_two_to_mono(0, k as nat);
    }
    let mut p: u128 = 1;
    let mut j: u32 = 0;
    while j < k
        invariant
            j <= k <= 104,
            p == two_to(j as nat),
            two_to(104) == 0x100_0000_0000_0000_0000_0000_0000,
        decreases k - j,
    {
        proof { lemma_two_to_mono((j + 1) as nat, 104); }
        p = p * 2;
        j = j + 1;
    }
    p
}

/// `x / y` rounded to nearest, ties to even, for machine integers.
fn div_rounded(x: u128, y: u128) -> (q: u128)
    requires
        y > 0,
        x / y < 0x100_0000,
    ensures
        q == rounded_div(x as nat, y as nat),
        q <= 0x100_0000,
{
    let q0 = x / y;
    let r0 = x % y;
    proof {
        vstd::arithmetic::div_mod::lemma_mod_bound(x as int, y as int);
    }
    let rest = y - r0;
    if r0 > rest || (r0 == rest && q0 % 2 == 1) { q0 + 1 } else { q0 }
}

/// Nothing divided by anything rounds to zero.
proof fn lemma_ratio_zero(d: nat)
    requires
        d > 0,
    ensures
        round_ratio(0, d) == 0,
{
    assert(0nat / d == 0 && 0nat % d == 0);
    assert(bit_len(0) == 0);
    assert(two_to(0) == 1);
    assert(d * two_to(0) == d);
}

/// The number of digits of `ma * 2^50 / mb`, which places the ratio
/// `ma / mb` between `2^(bl - 51)` and `2^(bl - 50)`.
#[verifier::spinoff_prover]
fn leading_bits(ma: u128, mb: u128) -> (bl: u32)
    requires
        1 <= ma < 0x100_0000,
        1 <= mb < 0x100_0000,
    ensures
        27 <= bl <= 74,
        (mb as nat) * two_to((bl - 1) as nat) <= (ma as nat) * two_to(50),
        (ma as nat) * two_to(50) < (mb as nat) * two_to(bl as nat),
{
    let p50 = two_to_u128(50);
    proof {
        assert(two_to(50) == 0x4_0000_0000_0000) by { reveal_with_fuel(two_to, 51); }
        assert(ma * p50 < 0x400_0000_0000_0000_0000) by (nonlinear_arith)
            requires ma < 0x100_0000, p50 == 0x4_0000_0000_0000;
    }
    let num = ma * p50;
    let w = num / mb;
    proof {
        assert(two_to(26) == 0x400_0000) by { reveal_with_fuel(two_to, 27); }
        assert(two_to(74) == 0x400_0000_0000_0000_0000) by { reveal_with_fuel(two_to, 75); }
        vstd::arithmetic::div_mod::lemma_fundamental_div_mod(num as int, mb as int);
        vstd::arithmetic::div_mod::lemma_mod_bound(num as int, mb as int);
        assert(w >= 0x400_0000) by (nonlinear_arith)
            requires num == mb * w + num % mb, num % mb < mb, num == ma * 0x4_0000_0000_0000, ma >= 1,
                mb < 0x100_0000, mb >= 1;
        assert(w < 0x400_0000_0000_0000_0000) by (nonlinear_arith)
            requires num == mb * w + num % mb, num % mb >= 0, num == ma * 0x4_0000_0000_0000, ma < 0x100_0000,
                mb >= 1;
    }
    let bl = crate::types::bit_length(w);
    proof {
        lemma_bit_len(w as nat);
        crate::types::lemma_bit_len_bound(w as nat, 74);
        if bl < 27 {
            lemma_two_to_mono(bl as nat, 26);
        }
        let lo = (bl - 1) as nat;
        assert(mb * two_to(lo) <= num) by (nonlinear_arith)
            requires two_to(lo) <= w, num == mb * w + num % mb, num % mb >= 0, mb >= 1;
        assert(num < mb * two_to(bl as nat)) by (nonlinear_arith)
            requires w < two_to(bl as nat), num == mb * w + num % mb, num % mb < mb, mb >= 1;
    }
    bl
}

/// The ratio's bounds scaled by `2^(g - 50)`.
proof fn lemma_leading_scaled(ma: nat, mb: nat, g: nat, bl: nat)
    requires
        bl >= 1,
        g >= 50,
        mb * two_to((bl - 1) as nat) <= ma * two_to(50),
        ma * two_to(50) < mb * two_to(bl),
    ensures
        mb * two_to((bl + g - 51) as nat) <= ma * two_to(g),
        ma * two_to(g) < mb * two_to((bl + g - 50) as nat),
{
    let lo = (bl - 1) as nat;
    let up = (g - 50) as nat;
    lemma_two_to_add(50, up);
    lemma_two_to_add(lo, up);
    lemma_two_to_add(bl, up);
    lemma_two_to_mono(0, up);
    assert(lo + up == (bl + g - 51) as nat);
    assert(bl + up == (bl + g - 50) as nat);
    assert(mb * two_to(lo + up) <= ma * two_to(g)) by (nonlinear_arith)
        requires mb * two_to(lo) <= ma * two_to(50),
            two_to(g) == two_to(50) * two_to(up), two_to(lo + up) == two_to(lo) * two_to(up);
    assert(ma * two_to(g) < mb * two_to(bl + up)) by (nonlinear_arith)
        requires ma * two_to(50) < mb * two_to(bl),
            two_to(g) == two_to(50) * two_to(up), two_to(bl + up) == two_to(bl) * two_to(up), two_to(up) >= 1;
}

/// The quotient `ma * 2^g / (mb * 2^kb)` when it has more than 24 digits.
#[verifier::spinoff_prover]
#[verifier::rlimit(40)]
fn quotient_wide(ma: u128, mb: u128, g: u32, kb: u32, bl: u32) -> (r: u32)
    requires
        1 <= ma < 0x100_0000,
        1 <= mb < 0x100_0000,
        149 <= g <= 402,
        kb <= 253,
        27 <= bl <= 74,
        mb * two_to((bl + g - 51) as nat) <= ma * two_to(g as nat),
        ma * two_to(g as nat) < mb * two_to((bl + g - 50) as nat),
        bl + g - 51 - kb >= 24,
    ensures
        r == round_ratio((ma as nat) * two_to(g as nat), (mb as nat) * two_to(kb as nat)),
{
    let ghost n = (ma as nat) * two_to(g as nat);
    let ghost d = (mb as nat) * two_to(kb as nat);
    let ghost ff = (bl + g - 51 - kb) as nat;
    let t = bl + g - 51 - kb - 23;
    let e = 74 - bl;
    let pe = two_to_u128(e);
    proof {
        lemma_two_to_mono(0, kb as nat);
        lemma_two_to_add(kb as nat, ff);
        lemma_two_to_add(kb as nat, ff + 1);
        assert((kb as nat) + ff == (bl + g - 51) as nat);
        assert((kb as nat) + ff + 1 == (bl + g - 50) as nat);
        assert(d * two_to(ff) <= n) by (nonlinear_arith)
            requires d == mb * two_to(kb as nat), two_to((kb as nat) + ff) == two_to(kb as nat) * two_to(ff),
                mb * two_to((kb as nat) + ff) <= n;
        assert(n < d * two_to(ff + 1)) by (nonlinear_arith)
            requires d == mb * two_to(kb as nat), two_to((kb as nat) + ff + 1) == two_to(kb as nat) * two_to(ff + 1),
                n < mb * two_to((kb as nat) + ff + 1);
        assert(d > 0) by (nonlinear_arith) requires d == mb * two_to(kb as nat), mb >= 1, two_to(kb as nat) >= 1;
        lemma_ratio_bit_len(n, d, ff);
        assert(ratio_drop(n, d) == t);
        let kt = (kb + t) as nat;
        lemma_two_to_add(e as nat, kt);
        lemma_two_to_add(kb as nat, t as nat);
        assert(e + kb + t == g);
        assert(n == (ma * pe) * two_to(kt)) by (nonlinear_arith)
            requires n == ma * two_to(g as nat), pe == two_to(e as nat),
                two_to(g as nat) == two_to(e as nat) * two_to(kt);
        assert(d * two_to(t as nat) == mb * two_to(kt)) by (nonlinear_arith)
            requires d == mb * two_to(kb as nat), two_to(kt) == two_to(kb as nat) * two_to(t as nat);
        lemma_rounded_div_scaled((ma * pe) as nat, mb as nat, kt);
        assert(ma * pe <= 0x100_0000 * 0x1000_0000_0000_0000) by (nonlinear_arith)
            requires ma < 0x100_0000, pe <= 0x1000_0000_0000_0000;
        lemma_two_to_add(t as nat, 24);
        assert(ff + 1 == t + 24);
        assert(two_to(24) == 0x100_0000) by { reveal_with_fuel(two_to, 25); }
        lemma_two_to_mono(0, kt);
        assert(ma * pe < mb * 0x100_0000) by (nonlinear_arith)
            requires n == (ma * pe) * two_to(kt), n < d * two_to(ff + 1),
                two_to(ff + 1) == two_to(t as nat) * two_to(24),
                d * two_to(t as nat) == mb * two_to(kt), two_to(24) == 0x100_0000, two_to(kt) >= 1;
    }
    let num2 = ma * pe;
    proof {
        assert(num2 / mb < 0x100_0000) by (nonlinear_arith)
            requires num2 < mb * 0x100_0000, mb >= 1;
    }
    let q = div_rounded(num2, mb);
    let pat: u64 = t as u64 * 0x80_0000 + q as u64;
    if pat >= 0x7F80_0000 { 0x7F80_0000 } else { pat as u32 }
}

/// The quotient `ma * 2^g / (mb * 2^kb)` when it is below `2^24` units.
#[verifier::spinoff_prover]
#[verifier::rlimit(40)]
fn quotient_narrow(ma: u128, mb: u128, g: u32, kb: u32, bl: u32) -> (r: u32)
    requires
        1 <= ma < 0x100_0000,
        1 <= mb < 0x100_0000,
        149 <= g <= 402,
        kb <= 253,
        27 <= bl <= 74,
        ma * two_to(g as nat) < mb * two_to((bl + g - 50) as nat),
        bl + g - 51 - kb < 24,
    ensures
        r == round_ratio((ma as nat) * two_to(g as nat), (mb as nat) * two_to(kb as nat)),
{
    let ghost n = (ma as nat) * two_to(g as nat);
    let ghost d = (mb as nat) * two_to(kb as nat);
    proof {
        lemma_two_to_mono(0, kb as nat);
        lemma_two_to_mono(0, g as nat);
        lemma_two_to_add(kb as nat, 24);
        lemma_two_to_mono((bl + g - 50) as nat, (kb as nat) + 24);
        assert(two_to(24) == 0x100_0000) by { reveal_with_fuel(two_to, 25); }
        assert(n < d * 0x100_0000) by (nonlinear_arith)
            requires n < mb * two_to((bl + g - 50) as nat), two_to((bl + g - 50) as nat) <= two_to((kb as nat) + 24),
                d == mb * two_to(kb as nat), two_to((kb as nat) + 24) == two_to(kb as nat) * 0x100_0000, mb >= 1;
        assert(d > 0) by (nonlinear_arith) requires d == mb * two_to(kb as nat), mb >= 1, two_to(kb as nat) >= 1;
        lemma_ratio_small(n, d);
        assert(two_to(0) == 1);
        assert(d * two_to(0) == d);
    }
    let q: u128 = if g >= kb {
        let e = g - kb;
        let pe = two_to_u128(e);
        proof {
            lemma_two_to_add(e as nat, kb as nat);
            assert(n == (ma * pe) * two_to(kb as nat)) by (nonlinear_arith)
                requires n == ma * two_to(g as nat), pe == two_to(e as nat),
                    two_to(g as nat) == two_to(e as nat) * two_to(kb as nat);
            lemma_rounded_div_scaled((ma * pe) as nat, mb as nat, kb as nat);
            assert(ma * pe <= 0x100_0000 * 0x1000_0000_0000_0000) by (nonlinear_arith)
                requires ma < 0x100_0000, pe <= 0x1000_0000_0000_0000;
            assert(ma * pe < mb * 0x100_0000) by (nonlinear_arith)
                requires n == (ma * pe) * two_to(kb as nat), n < d * 0x100_0000,
                    d == mb * two_to(kb as nat), two_to(kb as nat) >= 1, mb >= 1;
        }
        let num2 = ma * pe;
        proof {
            assert(num2 / mb < 0x100_0000) by (nonlinear_arith)
                requires num2 < mb * 0x100_0000, mb >= 1;
        }
        div_rounded(num2, mb)
    } else {
        let e = kb - g;
        let pe = power_of_two(e);
        proof {
            lemma_two_to_add(g as nat, e as nat);
            assert(d == (mb * pe) * two_to(g as nat)) by (nonlinear_arith)
                requires d == mb * two_to(kb as nat), pe == two_to(e as nat),
                    two_to(kb as nat) == two_to(g as nat) * two_to(e as nat);
            lemma_rounded_div_scaled(ma as nat, (mb * pe) as nat, g as nat);
            assert(mb * pe < 0x1_0000_0000_0000_0000_0000_0000_0000_0000) by (nonlinear_arith)
                requires mb < 0x100_0000, pe <= 0x100_0000_0000_0000_0000_0000_0000;
            assert(mb * pe >= 1) by (nonlinear_arith) requires mb >= 1, pe >= 1;
            assert(ma < (mb * pe) * 0x100_0000) by (nonlinear_arith)
                requires n == ma * two_to(g as nat), d == (mb * pe) * two_to(g as nat), n < d * 0x100_0000,
                    two_to(g as nat) >= 1;
        }
        let den2 = mb * pe;
        proof {
            assert(ma / den2 < 0x100_0000) by (nonlinear_arith)
                requires ma < den2 * 0x100_0000, den2 >= 1;
        }
        div_rounded(ma, den2)
    };
    let pat: u64 = q as u64;
    if pat >= 0x7F80_0000 { 0x7F80_0000 } else { pat as u32 }
}

/// The rounded magnitude of `ma * 2^g / (mb * 2^kb)`.
#[verifier::spinoff_prover]
fn quotient_parts(ma: u128, mb: u128, g: u32, kb: u32) -> (r: u32)
    requires
        ma < 0x100_0000,
        1 <= mb < 0x100_0000,
        149 <= g <= 402,
        kb <= 253,
    ensures
        r == round_ratio((ma as nat) * two_to(g as nat), (mb as nat) * two_to(kb as nat)),
{
    proof {
        lemma_two_to_mono(0, kb as nat);
        assert((mb as nat) * two_to(kb as nat) > 0) by (nonlinear_arith) requires mb >= 1, two_to(kb as nat) >= 1;
    }
    if ma == 0 {
        proof {
            assert((ma as nat) * two_to(g as nat) == 0);
            lemma_ratio_zero((mb as nat) * two_to(kb as nat));
        }
        return 0;
    }
    let bl = leading_bits(ma, mb);
    proof {
        lemma_leading_scaled(ma as nat, mb as nat, g as nat, bl as nat);
    }
    if (bl as i64) + (g as i64) - 51 - (kb as i64) >= 24 {
        quotient_wide(ma, mb, g, kb, bl)
    } else {
        quotient_narrow(ma, mb, g, kb, bl)
    }
}

/// The rounded magnitude of the quotient of two finite patterns, the
/// divisor not zero.
#[verifier::spinoff_prover]
fn quotient_finite(a: u32, b: u32) -> (r: u32)
    requires
        f32_exp(a) < 255,
        f32_exp(b) < 255,
        f32_units(b) > 0,
    ensures
        r == round_ratio(f32_units(a) * two_to(149), f32_units(b)),
{
    let (ma, ka, _sa) = decode(a);
    let (mb, kb, _sb) = decode(b);
    let g = ka + 149;
    proof {
        lemma_two_to_add(ka as nat, 149);
        assert(f32_units(a) * two_to(149) == ma * two_to(g as nat)) by (nonlinear_arith)
            requires f32_units(a) == ma * two_to(ka as nat), two_to(g as nat) == two_to(ka as nat) * two_to(149);
        lemma_two_to_mono(0, kb as nat);
        assert(mb > 0) by (nonlinear_arith) requires f32_units(b) == mb * two_to(kb as nat), f32_units(b) > 0;
    }
    quotient_parts(ma, mb, g, kb)
}

impl F32Bits {
    /// `self / other` in single precision.
    pub fn quotient(&self, other: &F32Bits) -> (r: F32Bits)
        ensures
            r.0 == f32_quotient(self.0, other.0),
    {
        let a = self.0;
        let b = other.0;
        let sign: u32 = if (a >= 0x8000_0000) != (b >= 0x8000_0000) { 0x8000_0000 } else { 0 };
        let a_inf = is_inf_bits(a);
        let b_inf = is_inf_bits(b);
        let a_zero = a % 0x8000_0000 == 0;
        let b_zero = b % 0x8000_0000 == 0;
        proof {
            lemma_pattern_fields(a);
            lemma_pattern_fields(b);
        }
        if is_nan_bits(a) || is_nan_bits(b) || (a_inf && b_inf) || (a_zero && b_zero) {
            return F32Bits(0x7FC0_0000);
        }
        if a_inf || b_zero {
            return F32Bits(sign + 0x7F80_0000);
        }
        if b_inf {
            return F32Bits(sign);
        }
        proof {
            lemma_units_round_trip(b);
        }
        let m = quotient_finite(a, b);
        F32Bits(sign + m)
    }
}

} // verus!
