//! The text of a single-precision number with a fixed count of decimals,
//! as the PDF writer prints reals (`{:.6}`, `{:.3}`): the exact binary
//! value rounded to the last decimal kept, ties to an even last digit.

use vstd::prelude::*;
use crate::types::{two_to, lemma_two_to_mono, f32_exp, f32_frac};
use crate::strings::{decimal, digit_char, push_decimal, push_char, digit};
use crate::pdf::svg::pow10;

verus! {

/// The significand of a finite single-precision bit pattern.
pub open spec fn f32_significand(b: u32) -> nat {
    if f32_exp(b) == 0 { f32_frac(b) as nat } else { (f32_frac(b) + 0x80_0000) as nat }
}

/// The power of two that scales the significand of a finite pattern.
pub open spec fn f32_scale(b: u32) -> int {
    if f32_exp(b) == 0 { -149 } else { f32_exp(b) - 150 }
}

/// `m × 2^p × 10^d` rounded to a whole number, ties to even.
pub open spec fn scaled_fixed(m: nat, p: int, d: nat) -> nat {
    if p >= 0 {
        m * two_to(p as nat) * pow10(d)
    } else {
        let t = m * pow10(d);
        let den = two_to((-p) as nat);
        let q0 = t / den;
        let r = t % den;
        if 2 * r > den || (2 * r == den && q0 % 2 == 1) { q0 + 1 } else { q0 }
    }
}

/// The `d` last decimal digits of `r`, with leading zeros.
pub open spec fn fraction_digits(r: nat, d: nat) -> Seq<char> {
    Seq::new(d, |i: int| digit_char(((r / pow10((d - 1 - i) as nat)) % 10) as int))
}

/// The text of the single-precision value with bit pattern `b` printed with
/// `d` decimals (`{:.d}`): `NaN`, `inf` or `-inf`, or the sign (also of
/// negative zero), the whole part, a point and `d` digits of the value
/// rounded to the last of them, ties to an even last digit.
pub open spec fn real_fixed_text(b: u32, d: nat) -> Seq<char> {
    let sign = if b >= 0x8000_0000 { "-"@ } else { ""@ };
    if f32_exp(b) == 255 {
        if f32_frac(b) != 0 { "NaN"@ } else { sign + "inf"@ }
    } else {
        let q = scaled_fixed(f32_significand(b), f32_scale(b), d);
        sign + decimal(q / pow10(d)) + "."@ + fraction_digits(q % pow10(d), d)
    }
}

/// The text of the value with bit pattern `b` with six decimals (`{:.6}`).
pub open spec fn real_text(b: u32) -> Seq<char> {
    real_fixed_text(b, 6)
}

pub proof fn lemma_two_to_add(a: nat, b: nat)
    ensures
        two_to(a + b) == two_to(a) * two_to(b),
    decreases b,
{
    if b > 0 {
        let b1 = (b - 1) as nat;
        lemma_two_to_add(a, b1);
        assert(two_to(a + b1 + 1) == 2 * two_to(a + b1));
        assert(a + b == a + b1 + 1);
        assert(two_to(b) == 2 * two_to(b1));
        assert(two_to(a) * (2 * two_to(b1)) == 2 * (two_to(a) * two_to(b1))) by (nonlinear_arith);
    } else {
        assert(two_to(0) == 1);
        assert(a + b == a);
    }
}

pub proof fn lemma_two_to_128()
    ensures
        two_to(24) == 0x100_0000,
        two_to(44) == 0x1000_0000_0000,
        two_to(128) == 0x1_0000_0000_0000_0000_0000_0000_0000_0000,
{
    reveal_with_fuel(two_to, 45);
    assert(two_to(32) == 0x1_0000_0000);
    lemma_two_to_add(32, 32);
    assert(two_to(64) == 0x1_0000_0000_0000_0000) by (nonlinear_arith)
        requires two_to(64) == two_to(32) * two_to(32), two_to(32) == 0x1_0000_0000;
    lemma_two_to_add(64, 64);
    assert(two_to(128) == 0x1_0000_0000_0000_0000_0000_0000_0000_0000) by (nonlinear_arith)
        requires two_to(128) == two_to(64) * two_to(64), two_to(64) == 0x1_0000_0000_0000_0000;
}

/// `10^d`.
fn pow10_of(d: u32) -> (r: u128)
    requires
        d <= 6,
    ensures
        r == pow10(d as nat),
        1 <= r <= 1_000_000,
{
    let mut r: u128 = 1;
    let mut i: u32 = 0;
    proof { reveal_with_fuel(pow10, 7); }
    while i < d
        invariant
            i <= d <= 6,
            r == pow10(i as nat),
            1 <= r <= pow10(i as nat),
            pow10(6) == 1_000_000,
            forall|j: nat| j <= 6 ==> pow10(j) <= 1_000_000,
        decreases d - i,
    {
        r = r * 10;
        i = i + 1;
    }
    r
}

/// Appends the `d` last decimal digits of `r`.
pub fn push_fraction_digits(out: &mut String, r: u128, d: u32)
    requires
        d <= 6,
        r < pow10(d as nat),
    ensures
        final(out)@ == old(out)@ + fraction_digits(r as nat, d as nat),
{
    let mut i: u32 = 0;
    let ghost start = out@;
    proof { reveal_with_fuel(pow10, 7); }
    while i < d
        invariant
            i <= d <= 6,
            out@ == start + fraction_digits(r as nat, d as nat).take(i as int),
        decreases d - i,
    {
        let p = pow10_of(d - 1 - i);
        let dg = ((r / p) % 10) as u8;
        push_char(out, digit(dg));
        assert(fraction_digits(r as nat, d as nat).take(i + 1) =~= fraction_digits(r as nat, d as nat).take(i as int).push(digit_char(dg as int)));
        i = i + 1;
    }
    assert(fraction_digits(r as nat, d as nat).take(d as int) =~= fraction_digits(r as nat, d as nat));
}

/// `2^k`.
fn pow2(k: u32) -> (r: u128)
    requires
        k <= 104,
    ensures
        r == two_to(k as nat),
{
    let mut r: u128 = 1;
    let mut i: u32 = 0;
    proof {
        lemma_two_to_128();
        lemma_two_to_add(104, 24);
    }
    while i < k
        invariant
            i <= k <= 104,
            r == two_to(i as nat),
            two_to(104) < two_to(128),
            two_to(128) == 0x1_0000_0000_0000_0000_0000_0000_0000_0000,
        decreases k - i,
    {
        proof { lemma_two_to_mono((i + 1) as nat, 104); }
        r = r * 2;
        i = i + 1;
    }
    r
}

/// Appends the text of the value with bit pattern `b` printed with `d`
/// decimals.
pub fn push_real_fixed(out: &mut String, b: u32, d: u32)
    requires
        d <= 6,
    ensures
        final(out)@ == old(out)@ + real_fixed_text(b, d as nat),
{
    let neg = b >= 0x8000_0000;
    let e = (b / 0x80_0000) % 256;
    let f = b % 0x80_0000;
    let ghost start = out@;
    if e == 255 && f != 0 {
        out.append("NaN");
        return;
    }
    if neg {
        out.append("-");
    }
    proof {
        reveal_strlit("");
        assert(out@ =~= start + (if b >= 0x8000_0000 { "-"@ } else { ""@ }));
    }
    if e == 255 {
        out.append("inf");
        return;
    }
    let ten_d = pow10_of(d);
    let m: u128 = if e == 0 { f as u128 } else { (f as u128) + 0x80_0000 };
    proof { lemma_two_to_128(); }
    let q: u128;
    if e >= 150 {
        let p = e - 150;
        let pw = pow2(p);
        proof { lemma_two_to_mono(p as nat, 104); lemma_two_to_add(24, 104); }
        assert(m * pw < 0x1_0000_0000_0000_0000_0000_0000_0000_0000) by (nonlinear_arith)
            requires m < 0x100_0000, pw <= two_to(104), two_to(24) * two_to(104) == two_to(128),
                two_to(24) == 0x100_0000, two_to(128) == 0x1_0000_0000_0000_0000_0000_0000_0000_0000;
        let whole = m * pw;
        push_decimal(out, whole);
        out.append(".");
        push_fraction_digits(out, 0, d);
        proof {
            let mm = f32_significand(b);
            assert(scaled_fixed(mm, f32_scale(b), d as nat) == whole * ten_d);
            assert((whole * ten_d) as nat / (ten_d as nat) == whole as nat) by (nonlinear_arith)
                requires ten_d >= 1;
            assert((whole * ten_d) as nat % (ten_d as nat) == 0) by (nonlinear_arith)
                requires ten_d >= 1;
            assert(out@ =~= start + real_fixed_text(b, d as nat));
        }
        return;
    }
    let k: u32 = if e == 0 { 149 } else { 150 - e };
    assert(m * ten_d < 0x1000_0000_0000) by (nonlinear_arith)
        requires m < 0x100_0000, ten_d <= 1_000_000;
    let t: u128 = m * ten_d;
    if k > 100 {
        proof {
            lemma_two_to_mono(44, (k - 1) as nat);
            assert(two_to(k as nat) == 2 * two_to((k - 1) as nat));
            assert(t < two_to(44));
        }
        q = 0;
        proof {
            let den = two_to(k as nat);
            assert(t as nat / den == 0) by (nonlinear_arith) requires t < den, den > 0;
            assert(t as nat % den == t) by (nonlinear_arith) requires t < den, den > 0;
        }
    } else {
        let den = pow2(k);
        proof {
            lemma_two_to_mono(0, k as nat);
            lemma_two_to_mono(k as nat, 100);
            lemma_two_to_mono(101, 128);
            assert(two_to(101) == 2 * two_to(100));
        }
        let q0 = t / den;
        let r = t % den;
        q = if 2 * r > den || (2 * r == den && q0 % 2 == 1) { q0 + 1 } else { q0 };
    }
    assert(q == scaled_fixed(f32_significand(b), f32_scale(b), d as nat));
    push_decimal(out, q / ten_d);
    out.append(".");
    push_fraction_digits(out, q % ten_d, d);
    assert(out@ =~= start + real_fixed_text(b, d as nat));
}

/// Appends the text of the value with bit pattern `b` printed with six
/// decimals.
pub fn push_real(out: &mut String, b: u32)
    ensures
        final(out)@ == old(out)@ + real_text(b),
{
    push_real_fixed(out, b, 6);
}

} // verus!
