//! Core value types shared by the converter: colors, the IEEE single
//! values carried through unchanged, and the error type.

use vstd::prelude::*;

verus! {

/// An RGBA color with 8-bit channels.
#[derive(Debug, Clone, Copy, PartialEq, Eq, Structural)]
pub struct Color {
    pub r: u8,
    pub g: u8,
    pub b: u8,
    pub a: u8,
}

impl Color {
    /// An opaque color.
    pub fn new(r: u8, g: u8, b: u8) -> (c: Color)
        ensures
            c == (Color { r, g, b, a: 255 }),
    {
        Color { r, g, b, a: 255 }
    }

    /// A color with an alpha channel.
    pub fn new_rgba(r: u8, g: u8, b: u8, a: u8) -> (c: Color)
        ensures
            c == (Color { r, g, b, a }),
    {
        Color { r, g, b, a }
    }

    /// Opaque black.
    pub fn black() -> (c: Color)
        ensures
            c == (Color { r: 0, g: 0, b: 0, a: 255 }),
    {
        Color::new(0, 0, 0)
    }

    /// Opaque white.
    pub fn white() -> (c: Color)
        ensures
            c == (Color { r: 255, g: 255, b: 255, a: 255 }),
    {
        Color::new(255, 255, 255)
    }
}

/// An IEEE-754 single-precision value held by its bit pattern. The
/// converter carries such values (lengths, numbers) without computing on
/// them here; arithmetic on them happens where floating point is available.
#[derive(Debug, Clone, Copy, PartialEq, Eq, Structural)]
pub struct F32Bits(pub u32);

/// `2^k`.
pub open spec fn two_to(k: nat) -> nat
    decreases k,
{
    if k == 0 { 1 } else { 2 * two_to((k - 1) as nat) }
}

pub proof fn lemma_two_to_mono(a: nat, b: nat)
    requires
        a <= b,
    ensures
        1 <= two_to(a) <= two_to(b),
    decreases b,
{
    if b > 0 {
        if a < b {
            lemma_two_to_mono(a, (b - 1) as nat);
        } else {
            lemma_two_to_mono((b - 1) as nat, (b - 1) as nat);
        }
    }
}

/// The biased exponent field of a single-precision bit pattern.
pub open spec fn f32_exp(b: u32) -> int {
    (b / 0x80_0000) as int % 256
}

/// The fraction field of a single-precision bit pattern.
pub open spec fn f32_frac(b: u32) -> int {
    (b % 0x80_0000) as int
}

/// The bit pattern encodes a NaN.
pub open spec fn f32_is_nan(b: u32) -> bool {
    f32_exp(b) == 255 && f32_frac(b) != 0
}

/// The magnitude of the encoded value truncated toward zero; infinity as
/// `2^128`, beyond the range of every integer type here.
pub open spec fn f32_trunc_mag(b: u32) -> int {
    let e = f32_exp(b);
    let m = f32_frac(b) + 0x80_0000;
    if e == 255 {
        two_to(128) as int
    } else if e == 0 {
        0
    } else if e >= 150 {
        m * two_to((e - 150) as nat)
    } else {
        m / (two_to((150 - e) as nat) as int)
    }
}

/// The encoded value truncated toward zero (as `as` on floats does before
/// saturating).
pub open spec fn f32_trunc(b: u32) -> int {
    if b >= 0x8000_0000 { -f32_trunc_mag(b) } else { f32_trunc_mag(b) }
}

/// `v` brought into `lo..=hi`.
pub open spec fn saturate(v: int, lo: int, hi: int) -> int {
    if v < lo { lo } else if v > hi { hi } else { v }
}

/// The order of a non-NaN pattern as an integer: its magnitude bits,
/// negated when the sign bit is set (so both zeros are 0).
pub open spec fn f32_key(b: u32) -> int {
    if b >= 0x8000_0000 { -((b - 0x8000_0000) as int) } else { b as int }
}

/// `a > b` on the encoded values; false when either is NaN.
pub open spec fn f32_gt(a: u32, b: u32) -> bool {
    !f32_is_nan(a) && !f32_is_nan(b) && f32_key(a) > f32_key(b)
}

/// The number of binary digits of `n` (0 for 0).
pub open spec fn bit_len(n: nat) -> nat
    decreases n,
{
    if n == 0 { 0 } else { 1 + bit_len(n / 2) }
}

pub proof fn lemma_bit_len(n: nat)
    ensures
        n == 0 ==> bit_len(n) == 0,
        n > 0 ==> bit_len(n) >= 1 && two_to((bit_len(n) - 1) as nat) <= n && n < two_to(bit_len(n)),
    decreases n,
{
    if n > 0 {
        lemma_bit_len(n / 2);
        if n / 2 > 0 {
            let b = bit_len(n / 2);
            assert(two_to(b) == 2 * two_to((b - 1) as nat));
            assert(two_to(b + 1) == 2 * two_to(b));
            assert(bit_len(n) == b + 1);
        } else {
            assert(bit_len(n) == 1);
            assert(two_to(1) == 2) by { reveal_with_fuel(two_to, 2); }
        }
    }
}

pub proof fn lemma_bit_len_bound(n: nat, m: nat)
    requires
        n < two_to(m),
    ensures
        bit_len(n) <= m,
{
    lemma_bit_len(n);
    if n > 0 && bit_len(n) > m {
        lemma_two_to_mono(m, (bit_len(n) - 1) as nat);
    }
}

/// How far `n` is shifted right to keep its 24 leading binary digits.
pub open spec fn f32_shift(n: nat) -> nat {
    if bit_len(n) > 24 { (bit_len(n) - 24) as nat } else { 0 }
}

/// `n` divided by `2^f32_shift(n)`, rounded to nearest, ties to even.
pub open spec fn rounded_quotient(n: nat) -> nat {
    let p = two_to(f32_shift(n));
    let q = n / p;
    let r = n % p;
    if 2 * r > p || (2 * r == p && q % 2 == 1) { q + 1 } else { q }
}

/// The value of `n` rounded to single precision (nearest, ties to even).
pub open spec fn round24(n: nat) -> nat {
    rounded_quotient(n) * two_to(f32_shift(n))
}

/// The single-precision bit pattern of `n` rounded to nearest, ties to
/// even (what `as f32` gives for an integer): biased exponent
/// `bit_len(n) + 126` and the 24 leading digits, the leading one falling
/// into the exponent field (so a carry out of rounding raises the exponent).
pub open spec fn f32_of_nat(n: nat) -> u32 {
    if n == 0 {
        0
    } else if bit_len(n) <= 24 {
        ((bit_len(n) + 125) * 0x80_0000 + n * two_to((24 - bit_len(n)) as nat)) as u32
    } else {
        ((bit_len(n) + 125) * 0x80_0000 + rounded_quotient(n)) as u32
    }
}

/// `2^k` as a machine integer.
pub(crate) fn two_to_u128(k: u32) -> (p: u128)
    requires
        k <= 60,
    ensures
        p == two_to(k as nat),
        1 <= p <= 0x1000_0000_0000_0000,
{
    proof {
        assert(two_to(60) == 0x1000_0000_0000_0000) by { reveal_with_fuel(two_to, 61); }
        lemma_two_to_mono(k as nat, 60);
    }
    let mut p: u128 = 1;
    let mut j: u32 = 0;
    while j < k
        invariant
            j <= k <= 60,
            p == two_to(j as nat),
            two_to(60) == 0x1000_0000_0000_0000,
        decreases k - j,
    {
        proof {
            lemma_two_to_mono((j + 1) as nat, 60);
        }
        p = p * 2;
        j = j + 1;
    }
    proof { lemma_two_to_mono(0, k as nat); }
    p
}

/// The number of binary digits of `n`.
pub(crate) fn bit_length(n: u128) -> (bl: u32)
    requires
        n < 0x1_0000_0000_0000_0000_0000,
    ensures
        bl == bit_len(n as nat),
        bl <= 80,
{
    proof {
        crate::pdf::decimal_real::lemma_two_to_add(40, 40);
        assert(two_to(40) == 0x100_0000_0000) by { reveal_with_fuel(two_to, 41); }
        assert(two_to(80) == 0x1_0000_0000_0000_0000_0000) by (nonlinear_arith)
            requires two_to(80) == two_to(40) * two_to(40), two_to(40) == 0x100_0000_0000;
        lemma_bit_len_bound(n as nat, 80);
    }
    let mut t = n;
    let mut bl: u32 = 0;
    while t > 0
        invariant
            bit_len(n as nat) == bl + bit_len(t as nat),
            bit_len(n as nat) <= 80,
        decreases t,
    {
        t = t / 2;
        bl = bl + 1;
    }
    bl
}

/// The pattern of a nonzero `n` of at most 24 binary digits.
fn f32_of_small(n: u128, bl: u32) -> (r: u32)
    requires
        n > 0,
        bl == bit_len(n as nat),
        bl <= 24,
    ensures
        r == f32_of_nat(n as nat),
{
    proof { lemma_bit_len(n as nat); }
    let p = two_to_u128(24 - bl);
    proof {
        crate::pdf::decimal_real::lemma_two_to_add(bl as nat, (24 - bl) as nat);
        assert(two_to(24) == 0x100_0000) by { reveal_with_fuel(two_to, 25); }
        assert(n * p < 0x100_0000) by (nonlinear_arith)
            requires n < two_to(bl as nat), p == two_to((24 - bl) as nat),
                0x100_0000 == two_to(bl as nat) * two_to((24 - bl) as nat), p >= 1;
    }
    let bits = (bl as u128 + 125) * 0x80_0000 + n * p;
    bits as u32
}

/// The pattern of `n` of more than 24 binary digits, and the value it encodes.
fn f32_of_large(n: u128, bl: u32) -> (r: (u32, u128))
    requires
        bl == bit_len(n as nat),
        24 < bl <= 80,
    ensures
        r.0 == f32_of_nat(n as nat),
        r.1 == round24(n as nat),
        r.1 <= 2 * n,
{
    proof { lemma_bit_len(n as nat); }
    let k = bl - 24;
    let p = two_to_u128(k);
    let q = n / p;
    let r = n % p;
    proof {
        crate::pdf::decimal_real::lemma_two_to_add(24, k as nat);
        assert(two_to(24) == 0x100_0000) by { reveal_with_fuel(two_to, 25); }
        assert(q < 0x100_0000) by (nonlinear_arith)
            requires n < 0x100_0000 * p, q == n / p, p >= 1;
    }
    let q2 = if 2 * r > p || (2 * r == p && q % 2 == 1) { q + 1 } else { q };
    let bits = (bl as u128 + 125) * 0x80_0000 + q2;
    proof {
        assert(q2 * p <= 0x100_0000 * 0x1000_0000_0000_0000) by (nonlinear_arith)
            requires q2 <= 0x100_0000, p <= 0x1000_0000_0000_0000;
        lemma_two_to_mono(k as nat, (bl - 1) as nat);
        assert(q2 * p <= 2 * n) by (nonlinear_arith)
            requires q == n / p, q2 <= q + 1, p >= 1, p <= n;
    }
    (bits as u32, q2 * p)
}

/// The single-precision pattern of `n` and the value it encodes.
pub fn f32_of_u128(n: u128) -> (r: (u32, u128))
    requires
        n < 0x1_0000_0000_0000_0000_0000,
    ensures
        r.0 == f32_of_nat(n as nat),
        r.1 == round24(n as nat),
        r.1 <= 2 * n,
{
    if n == 0 {
        proof {
            assert(two_to(0) == 1);
            assert(bit_len(0) == 0);
            assert(f32_shift(0) == 0);
            assert(0nat / 1nat == 0 && 0nat % 1nat == 0);
            assert(rounded_quotient(0) == 0);
        }
        return (0, 0);
    }
    let bl = bit_length(n);
    if bl <= 24 {
        proof {
            assert(two_to(0) == 1);
            assert(f32_shift(n as nat) == 0);
        }
        (f32_of_small(n, bl), n)
    } else {
        f32_of_large(n, bl)
    }
}

impl F32Bits {
    /// The value truncated toward zero and saturated to `[-2^40, 2^40]`.
    fn trunc_clamped(&self) -> (r: i64)
        ensures
            r == saturate(f32_trunc(self.0), -0x100_0000_0000, 0x100_0000_0000),
    {
        let b = self.0;
        let e = (b / 0x80_0000) % 256;
        let m: u64 = (b % 0x80_0000) as u64 + 0x80_0000;
        let neg = b >= 0x8000_0000;
        let mag: u64 = if e == 255 {
            proof {
                lemma_two_to_mono(41, 128);
                assert(two_to(41) == 0x200_0000_0000) by { reveal_with_fuel(two_to, 42); }
            }
            0x100_0000_0000
        } else if e == 0 {
            0
        } else if e >= 150 {
            if e >= 167 {
                proof {
                    lemma_two_to_mono(17, (e - 150) as nat);
                    assert(two_to(17) == 0x2_0000) by { reveal_with_fuel(two_to, 18); }
                    assert(m * two_to((e - 150) as nat) >= 0x80_0000 * 0x2_0000) by (nonlinear_arith)
                        requires m >= 0x80_0000, two_to((e - 150) as nat) >= 0x2_0000;
                }
                0x100_0000_0000
            } else {
                let k = e - 150;
                let mut p: u64 = 1;
                let mut j: u32 = 0;
                while j < k
                    invariant
                        j <= k <= 16,
                        p == two_to(j as nat),
                        p <= 0x1_0000,
                    decreases k - j,
                {
                    proof { lemma_two_to_mono((j + 1) as nat, 16); assert(two_to(16) == 0x1_0000) by { reveal_with_fuel(two_to, 17); } }
                    p = p * 2;
                    j = j + 1;
                }
                assert(m * p <= 0x100_0000 * 0x1_0000) by (nonlinear_arith)
                    requires m <= 0x100_0000, p <= 0x1_0000;
                m * p
            }
        } else {
            let k = 150 - e;
            if k >= 25 {
                proof {
                    lemma_two_to_mono(25, k as nat);
                    assert(two_to(25) == 0x200_0000) by { reveal_with_fuel(two_to, 26); }
                    assert((m as int) / (two_to(k as nat) as int) == 0) by (nonlinear_arith)
                        requires 0 <= m < 0x200_0000, two_to(k as nat) >= 0x200_0000;
                }
                0
            } else {
                let mut p: u64 = 1;
                let mut j: u32 = 0;
                while j < k
                    invariant
                        j <= k <= 24,
                        p == two_to(j as nat),
                        p <= 0x100_0000,
                    decreases k - j,
                {
                    proof { lemma_two_to_mono((j + 1) as nat, 24); assert(two_to(24) == 0x100_0000) by { reveal_with_fuel(two_to, 25); } }
                    p = p * 2;
                    j = j + 1;
                }
                m / p
            }
        };
        if neg { -(mag as i64) } else { mag as i64 }
    }

    /// Whether this value is greater than `other` (`>` on the floats).
    pub fn gt(&self, other: &F32Bits) -> (r: bool)
        ensures
            r == f32_gt(self.0, other.0),
    {
        let a = self.0;
        let b = other.0;
        let a_nan = (a / 0x80_0000) % 256 == 255 && a % 0x80_0000 != 0;
        let b_nan = (b / 0x80_0000) % 256 == 255 && b % 0x80_0000 != 0;
        if a_nan || b_nan {
            return false;
        }
        let ka: i64 = if a >= 0x8000_0000 { -((a - 0x8000_0000) as i64) } else { a as i64 };
        let kb: i64 = if b >= 0x8000_0000 { -((b - 0x8000_0000) as i64) } else { b as i64 };
        ka > kb
    }

    /// The value as `as i32` converts it: truncated toward zero,
    /// saturated, NaN as 0.
    pub fn to_i32(&self) -> (r: i32)
        ensures
            r == if f32_is_nan(self.0) { 0 } else { saturate(f32_trunc(self.0), i32::MIN as int, i32::MAX as int) },
    {
        let b = self.0;
        if (b / 0x80_0000) % 256 == 255 && b % 0x80_0000 != 0 {
            return 0;
        }
        let t = self.trunc_clamped();
        if t < i32::MIN as i64 { i32::MIN } else if t > i32::MAX as i64 { i32::MAX } else { t as i32 }
    }

    /// The value as `as u16` converts it: truncated toward zero,
    /// saturated, NaN as 0.
    pub fn to_u16(&self) -> (r: u16)
        ensures
            r == if f32_is_nan(self.0) { 0 } else { saturate(f32_trunc(self.0), 0, u16::MAX as int) },
    {
        let b = self.0;
        if (b / 0x80_0000) % 256 == 255 && b % 0x80_0000 != 0 {
            return 0;
        }
        let t = self.trunc_clamped();
        if t < 0 { 0 } else if t > u16::MAX as i64 { u16::MAX } else { t as u16 }
    }

    /// The value as `as u32` converts it: truncated toward zero,
    /// saturated, NaN as 0.
    pub fn to_u32(&self) -> (r: u32)
        ensures
            r == if f32_is_nan(self.0) { 0 } else { saturate(f32_trunc(self.0), 0, u32::MAX as int) },
    {
        let b = self.0;
        if (b / 0x80_0000) % 256 == 255 && b % 0x80_0000 != 0 {
            return 0;
        }
        let t = self.trunc_clamped();
        if t < 0 { 0 } else if t > u32::MAX as i64 { u32::MAX } else { t as u32 }
    }
}


/// A CSS length: a number (a single-precision pattern) in its unit, or
/// `auto`. Lengths compare by bit pattern.
#[derive(Debug, Clone, Copy, PartialEq, Eq, Structural)]
pub enum Length {
    Px(F32Bits),
    Pt(F32Bits),
    Mm(F32Bits),
    Cm(F32Bits),
    In(F32Bits),
    Em(F32Bits),
    Rem(F32Bits),
    Percent(F32Bits),
    Auto,
}

/// A point in PDF user space, coordinates as single-precision patterns.
#[derive(Debug, Clone, Copy, PartialEq, Eq, Structural)]
pub struct Point {
    pub x: F32Bits,
    pub y: F32Bits,
}

/// A rectangle in PDF user space: lower-left corner and size, as
/// single-precision patterns.
#[derive(Debug, Clone, Copy, PartialEq, Eq, Structural)]
pub struct Rect {
    pub x: F32Bits,
    pub y: F32Bits,
    pub width: F32Bits,
    pub height: F32Bits,
}


impl Rect {
    pub fn new(x: F32Bits, y: F32Bits, width: F32Bits, height: F32Bits) -> (r: Self)
        ensures
            r == (Rect { x, y, width, height }),
    {
        Rect { x, y, width, height }
    }
}

/// A width and a height, as single-precision patterns.
#[derive(Debug, Clone, Copy, PartialEq, Eq, Structural)]
pub struct Size {
    pub width: F32Bits,
    pub height: F32Bits,
}

impl Size {
    pub fn new(width: F32Bits, height: F32Bits) -> (r: Self)
        ensures
            r == (Size { width, height }),
    {
        Size { width, height }
    }
}

/// Page margins in points, as single-precision patterns.
#[derive(Debug, Clone, Copy, PartialEq, Eq, Structural)]
pub struct Margins {
    pub top: F32Bits,
    pub right: F32Bits,
    pub bottom: F32Bits,
    pub left: F32Bits,
}

impl Margins {
    /// The same margin on all four sides.
    pub fn all(v: F32Bits) -> (r: Self)
        ensures
            r == (Margins { top: v, right: v, bottom: v, left: v }),
    {
        Margins { top: v, right: v, bottom: v, left: v }
    }
}

/// Errors of the converter.
#[derive(Debug, Clone, PartialEq, Eq)]
pub enum PdfError {
    /// An image could not be decoded.
    Image(String),
    /// Input could not be parsed.
    Parse(String),
}

/// The converter's result type.
pub type Result<T> = core::result::Result<T, PdfError>;

} // verus!
