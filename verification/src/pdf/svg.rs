//! SVG sizes: the numbers of the `width`, `height` and `viewBox`
//! attributes, read as single-precision numbers and truncated to whole
//! pixels, all in exact integer arithmetic.

use vstd::prelude::*;
use crate::types::{two_to, lemma_two_to_mono};
use crate::strings::{ascii_lower_seq, index_of_char, chars_from, ascii_lower_vec, chars_are, find_char, chars_range,
    trim, words, trim_chars, split_ws, find_text, find_text_of, index_of_quote, find_quote};

verus! {

/// `10^25`.
pub const TEN_25: u128 = 10000000000000000000000000;

/// `5^25`, so that `10^25 == 5^25 * 2^25`.
pub const FIVE_25: u128 = 298023223876953125;

/// Past this, a scaled value is above every rounding threshold used here.
pub const WINDOW_CAP: u128 = 1000000000000000000000000000000;

/// Past this, an exponent moves every digit out of (or far into) the
/// whole part, whatever the length of the text.
pub const EXPONENT_CAP: u128 = 1000000000000000000000;

/// `10^k`.
pub open spec fn pow10(k: nat) -> nat
    decreases k,
{
    if k == 0 { 1 } else { 10 * pow10((k - 1) as nat) }
}

/// Whether `c` is an ASCII decimal digit.
pub open spec fn is_digit(c: char) -> bool {
    '0' <= c && c <= '9'
}

/// The value of a decimal digit character.
pub open spec fn digit_value(c: char) -> nat {
    ((c as u32) - 48) as nat
}

/// Whether every character of `s` is a decimal digit.
pub open spec fn all_digits(s: Seq<char>) -> bool {
    forall|i: int| 0 <= i < s.len() ==> is_digit(#[trigger] s[i])
}

/// The number that the digits `s` write, most significant first.
pub open spec fn digits_value(s: Seq<char>) -> nat
    decreases s.len(),
{
    if s.len() == 0 { 0 } else { digits_value(s.drop_last()) * 10 + digit_value(s.last()) }
}

/// The `i`-th digit of `d`, with zeros past its end.
pub open spec fn padded_digit(d: Seq<char>, i: nat) -> nat {
    if i < d.len() { digit_value(d[i as int]) } else { 0 }
}

/// The number that the first `k` digits of `d` write, zeros past its end
/// included: `⌊0.d × 10^k⌋`.
pub open spec fn digit_window(d: Seq<char>, k: nat) -> nat
    decreases k,
{
    if k == 0 { 0 } else { digit_window(d, (k - 1) as nat) * 10 + padded_digit(d, (k - 1) as nat) }
}

/// `⌊v × 10^25⌋` for the value `v = 0.d × 10^q` (the digits `d` with the
/// decimal point after the first `q` of them).
pub open spec fn scaled_e25(d: Seq<char>, q: int) -> nat {
    if q + 25 <= 0 { 0 } else { digit_window(d, (q + 25) as nat) }
}

/// `⌊log2 n⌋` (0 for 0 and 1).
pub open spec fn log2_floor(n: nat) -> nat
    decreases n,
{
    if n <= 1 { 0 } else { 1 + log2_floor(n / 2) }
}

/// `10^25 × (n − h)`, where `n − h` is the midpoint between the whole
/// number `n` (1 ≤ n < 2^24, exact in single precision with an even last
/// mantissa bit) and the largest single-precision value below it. With
/// `2^e ≤ n < 2^(e+1)`, the spacing below `n` is `2^(e−23)`, or `2^(e−24)`
/// when `n = 2^e`; `h` is half of it. As `10^25 = 5^25 × 2^25`, the
/// product is a whole number.
pub open spec fn midpoint_below_e25(n: nat) -> int {
    let e = log2_floor(n);
    let h_e25 = if two_to(e) == n { two_to(e) } else { two_to(e + 1) };
    n * (TEN_25 as int) - (FIVE_25 as int) * h_e25
}

/// Of the whole numbers `m ≤ n`, the largest that a value `v ≥ 0` with
/// `⌊v × 10^25⌋ = w` reaches when rounded to single precision (to nearest,
/// ties to even), or 0. Rounding gives at least `m` exactly when `v` is at
/// least the midpoint below `m` (a tie goes to `m`, whose last mantissa bit
/// is even); as that midpoint times `10^25` is whole, comparing `w` decides.
pub open spec fn pixels_up_to(w: nat, n: nat) -> nat
    decreases n,
{
    if n == 0 {
        0
    } else if w >= midpoint_below_e25(n) {
        n
    } else {
        pixels_up_to(w, (n - 1) as nat)
    }
}

/// The sign of a number's text and the rest: `(negative, rest)`.
pub open spec fn split_sign(t: Seq<char>) -> (bool, Seq<char>) {
    if t.len() > 0 && (t[0] == '+' || t[0] == '-') {
        (t[0] == '-', t.drop_first())
    } else {
        (false, t)
    }
}

/// The pixels of the number whose digits before the point are `ip`, after
/// it `fp`, with the decimal exponent `x`.
pub open spec fn digits_pixels(ip: Seq<char>, fp: Seq<char>, x: int) -> nat {
    pixels_up_to(scaled_e25(ip + fp, ip.len() + x), 2000)
}

/// `e` or `E` and what follows, read as an exponent: its sign and digits.
pub open spec fn exponent_digits(ex: Seq<char>) -> Option<(bool, Seq<char>)> {
    let ed = split_sign(ex).1;
    if ed.len() == 0 || !all_digits(ed) { None } else { Some((split_sign(ex).0, ed)) }
}

/// The pixels of an unsigned, lowercase number text `l` that is neither
/// `inf`, `infinity` nor `nan` (0 for a negative number).
pub open spec fn number_pixels(neg: bool, l: Seq<char>) -> Option<nat> {
    let ie = index_of_char(l, 'e');
    let m = l.take(ie as int);
    let id = index_of_char(m, '.');
    let ip = m.take(id as int);
    let fp = if id < m.len() { m.skip(id + 1int) } else { Seq::<char>::empty() };
    let has_exp = ie < l.len();
    let ex = if has_exp { exponent_digits(l.skip(ie + 1int)) } else { Some((false, seq!['0'])) };
    if !all_digits(ip) || !all_digits(fp) || ip.len() + fp.len() == 0 || ex is None {
        None
    } else if neg {
        Some(0)
    } else {
        let x: int = if ex.unwrap().0 { -(digits_value(ex.unwrap().1) as int) } else { digits_value(ex.unwrap().1) as int };
        Some(digits_pixels(ip, fp, x))
    }
}

/// The whole pixels that a number's text gives when read as `f32` (as
/// `str::parse` reads it: an optional sign, then `inf`, `infinity` or `nan`
/// in any case, or digits with at most one point, at least one digit, and
/// an optional exponent `e` or `E` with an optional sign and digits), then
/// truncated to `u32` (`as`: NaN and negative values give 0, values past the
/// range the largest), then capped at 2000. None when the text is no
/// number.
pub open spec fn float_pixels(t: Seq<char>) -> Option<nat> {
    let neg = split_sign(t).0;
    let l = ascii_lower_seq(split_sign(t).1);
    if l == "inf"@ || l == "infinity"@ {
        Some(if neg { 0 } else { 2000 })
    } else if l == "nan"@ {
        Some(0)
    } else {
        number_pixels(neg, l)
    }
}

/// `w` capped at `WINDOW_CAP`.
pub open spec fn capped(w: nat) -> nat {
    if w >= WINDOW_CAP { WINDOW_CAP as nat } else { w }
}

pub proof fn lemma_pixels_le(w: nat, n: nat)
    ensures
        pixels_up_to(w, n) <= n,
    decreases n,
{
    if n > 0 {
        lemma_pixels_le(w, (n - 1) as nat);
    }
}

pub proof fn lemma_log2_bound(n: nat, k: nat)
    requires
        1 <= k,
        n < two_to(k),
    ensures
        log2_floor(n) < k,
    decreases n,
{
    if n > 1 {
        assert(two_to(k) == 2 * two_to((k - 1) as nat));
        if k == 1 {
            assert(two_to(0) == 1);
        } else {
            lemma_log2_bound(n / 2, (k - 1) as nat);
        }
    }
}

pub proof fn lemma_midpoint_bounds(n: nat)
    requires
        1 <= n <= 2000,
    ensures
        0 < midpoint_below_e25(n) < WINDOW_CAP,
        log2_floor(n) <= 10,
{
    reveal_with_fuel(two_to, 12);
    assert(two_to(11) == 2048);
    lemma_log2_bound(n, 11);
    lemma_two_to_mono(log2_floor(n) + 1, 11);
    lemma_two_to_mono(log2_floor(n), 11);
}

pub proof fn lemma_pixels_capped(w: nat, n: nat)
    requires
        n <= 2000,
    ensures
        pixels_up_to(capped(w), n) == pixels_up_to(w, n),
    decreases n,
{
    if n > 0 {
        lemma_midpoint_bounds(n);
        lemma_pixels_capped(w, (n - 1) as nat);
    }
}

pub proof fn lemma_window_mono(d: Seq<char>, a: nat, b: nat)
    requires
        a <= b,
    ensures
        digit_window(d, a) <= digit_window(d, b),
    decreases b,
{
    if a < b {
        lemma_window_mono(d, a, (b - 1) as nat);
    }
}

pub proof fn lemma_window_zero_tail(d: Seq<char>, a: nat, b: nat)
    requires
        d.len() <= a <= b,
        digit_window(d, a) == 0,
    ensures
        digit_window(d, b) == 0,
    decreases b,
{
    if a < b {
        lemma_window_zero_tail(d, a, (b - 1) as nat);
    }
}

pub proof fn lemma_window_grows(d: Seq<char>, a: nat, m: nat)
    requires
        d.len() <= a,
        digit_window(d, a) >= 1,
    ensures
        digit_window(d, a + m) >= pow10(m),
    decreases m,
{
    if m > 0 {
        lemma_window_grows(d, a, (m - 1) as nat);
        assert(digit_window(d, a + m) == digit_window(d, (a + m - 1) as nat) * 10);
    }
}

/// Far from the decimal point, the exponent no longer changes the capped
/// scaled value.
pub proof fn lemma_far_exponents(d: Seq<char>, q1: int, q2: int)
    requires
        (q1 + 25 >= d.len() + 30 && q2 + 25 >= d.len() + 30) || (q1 + 25 <= 0 && q2 + 25 <= 0),
    ensures
        capped(scaled_e25(d, q1)) == capped(scaled_e25(d, q2)),
{
    if q1 + 25 > 0 {
        let a = d.len();
        let k1 = (q1 + 25) as nat;
        let k2 = (q2 + 25) as nat;
        if digit_window(d, a) == 0 {
            lemma_window_zero_tail(d, a, k1);
            lemma_window_zero_tail(d, a, k2);
        } else {
            lemma_window_grows(d, a, 30);
            reveal_with_fuel(pow10, 31);
            assert(pow10(30) == WINDOW_CAP);
            lemma_window_mono(d, a + 30, k1);
            lemma_window_mono(d, a + 30, k2);
        }
    }
}

/// Whether every character is a decimal digit.
pub fn digits_only(v: &Vec<char>) -> (r: bool)
    ensures
        r == all_digits(v@),
{
    let mut i: usize = 0;
    while i < v.len()
        invariant
            i <= v@.len(),
            forall|j: int| 0 <= j < i ==> is_digit(#[trigger] v@[j]),
        decreases v@.len() - i,
    {
        if !('0' <= v[i] && v[i] <= '9') {
            return false;
        }
        i = i + 1;
    }
    true
}

/// The characters of `a` followed by those of `b`.
pub fn concat_chars(a: &Vec<char>, b: &Vec<char>) -> (r: Vec<char>)
    ensures
        r@ == a@ + b@,
{
    let mut r: Vec<char> = Vec::new();
    let mut i: usize = 0;
    while i < a.len()
        invariant
            i <= a@.len(),
            r@ == a@.take(i as int),
        decreases a@.len() - i,
    {
        r.push(a[i]);
        assert(a@.take(i + 1) =~= a@.take(i as int).push(a@[i as int]));
        i = i + 1;
    }
    let mut j: usize = 0;
    while j < b.len()
        invariant
            j <= b@.len(),
            r@ == a@ + b@.take(j as int),
        decreases b@.len() - j,
    {
        r.push(b[j]);
        assert(b@.take(j + 1) =~= b@.take(j as int).push(b@[j as int]));
        j = j + 1;
    }
    assert(b@.take(b@.len() as int) =~= b@);
    r
}

/// The number that the digits write, capped at `EXPONENT_CAP`.
fn digits_value_capped(v: &Vec<char>) -> (r: u128)
    requires
        all_digits(v@),
    ensures
        r == (if digits_value(v@) >= EXPONENT_CAP { EXPONENT_CAP as nat } else { digits_value(v@) }),
{
    let mut r: u128 = 0;
    let mut i: usize = 0;
    while i < v.len()
        invariant
            i <= v@.len(),
            all_digits(v@),
            r == (if digits_value(v@.take(i as int)) >= EXPONENT_CAP { EXPONENT_CAP as nat } else { digits_value(v@.take(i as int)) }),
        decreases v@.len() - i,
    {
        let ghost t = v@.take(i + 1);
        assert(t.drop_last() =~= v@.take(i as int));
        assert(t.last() == v@[i as int]);
        assert(is_digit(v@[i as int]));
        let dgt: u128 = ((v[i] as u32) - 48) as u128;
        if r < EXPONENT_CAP {
            r = r * 10 + dgt;
            if r > EXPONENT_CAP {
                r = EXPONENT_CAP;
            }
        }
        i = i + 1;
    }
    assert(v@.take(v@.len() as int) =~= v@);
    r
}

/// `capped(⌊0.d × 10^k⌋)` (0 when `k ≤ 0`).
fn window_capped(d: &Vec<char>, k: i128) -> (w: u128)
    requires
        all_digits(d@),
    ensures
        w == capped(if k <= 0 { 0 } else { digit_window(d@, k as nat) }),
{
    if k <= 0 {
        return 0;
    }
    let n = d.len();
    let mut w: u128 = 0;
    let mut i: i128 = 0;
    while i < k
        invariant
            0 <= i <= k,
            n == d@.len(),
            all_digits(d@),
            w == capped(digit_window(d@, i as nat)),
        decreases k - i,
    {
        if w >= WINDOW_CAP {
            proof { lemma_window_mono(d@, i as nat, k as nat); }
            return WINDOW_CAP;
        }
        if w == 0 && i >= n as i128 {
            proof { lemma_window_zero_tail(d@, i as nat, k as nat); }
            return 0;
        }
        let dgt: u128 = if i < n as i128 {
            let c = d[i as usize];
            assert(is_digit(d@[i as int]));
            ((c as u32) - 48) as u128
        } else {
            0
        };
        assert(digit_window(d@, (i + 1) as nat) == digit_window(d@, i as nat) * 10 + padded_digit(d@, i as nat));
        w = w * 10 + dgt;
        if w > WINDOW_CAP {
            w = WINDOW_CAP;
        }
        i = i + 1;
    }
    w
}

/// `midpoint_below_e25(n)`.
fn midpoint_e25(n: u32) -> (t: u128)
    requires
        1 <= n <= 2000,
    ensures
        t == midpoint_below_e25(n as nat),
{
    proof { lemma_midpoint_bounds(n as nat); }
    let mut e: u32 = 0;
    let mut r: u32 = n;
    while r > 1
        invariant
            1 <= r <= n,
            e + log2_floor(r as nat) == log2_floor(n as nat),
            log2_floor(n as nat) <= 10,
        decreases r,
    {
        r = r / 2;
        e = e + 1;
    }
    let mut p: u32 = 1;
    let mut i: u32 = 0;
    proof { reveal_with_fuel(two_to, 12); }
    while i < e
        invariant
            i <= e,
            e == log2_floor(n as nat),
            e <= 10,
            p == two_to(i as nat),
        decreases e - i,
    {
        proof { lemma_two_to_mono((i + 1) as nat, 10); reveal_with_fuel(two_to, 12); }
        p = p * 2;
        i = i + 1;
    }
    proof { lemma_two_to_mono(e as nat, 10); reveal_with_fuel(two_to, 12); }
    let h: u128 = if p == n { p as u128 } else { 2 * (p as u128) };
    assert(two_to((e + 1) as nat) == 2 * two_to(e as nat));
    (n as u128) * TEN_25 - FIVE_25 * h
}

/// `pixels_up_to(w, 2000)`.
fn pixels_search(w: u128) -> (r: u32)
    ensures
        r == pixels_up_to(w as nat, 2000),
{
    let mut n: u32 = 2000;
    while n > 0
        invariant
            n <= 2000,
            pixels_up_to(w as nat, 2000) == pixels_up_to(w as nat, n as nat),
        decreases n,
    {
        let t = midpoint_e25(n);
        if w >= t {
            return n;
        }
        n = n - 1;
    }
    0
}


/// The sign and the capped value of an exponent's text.
fn exponent_of(ex: &Vec<char>) -> (r: Option<(bool, u128)>)
    ensures
        r is None <==> exponent_digits(ex@) is None,
        r matches Some((neg, mag)) ==> neg == exponent_digits(ex@).unwrap().0
            && mag == (if digits_value(exponent_digits(ex@).unwrap().1) >= EXPONENT_CAP { EXPONENT_CAP as nat } else { digits_value(exponent_digits(ex@).unwrap().1) }),
{
    let mut es: usize = 0;
    let mut neg = false;
    if ex.len() > 0 && (ex[0] == '+' || ex[0] == '-') {
        neg = ex[0] == '-';
        es = 1;
        assert(ex@.skip(1) =~= ex@.drop_first());
    } else {
        assert(ex@.skip(0) =~= ex@);
    }
    let ed = chars_from(ex, es);
    assert(split_sign(ex@) == (neg, ed@));
    if ed.len() == 0 || !digits_only(&ed) {
        return None;
    }
    Some((neg, digits_value_capped(&ed)))
}

/// `digits_pixels(ip, fp, x)`, where the exponent `x` comes as its sign and
/// its magnitude capped at `EXPONENT_CAP`.
fn digits_pixels_of(ip: &Vec<char>, fp: &Vec<char>, x_neg: bool, x_mag: u128, Ghost(x): Ghost<int>) -> (r: u32)
    requires
        all_digits(ip@),
        all_digits(fp@),
        x_neg ==> x <= 0,
        !x_neg ==> x >= 0,
        x_mag == (if (if x_neg { -x } else { x }) >= EXPONENT_CAP { EXPONENT_CAP as int } else { if x_neg { -x } else { x } }),
    ensures
        r == digits_pixels(ip@, fp@, x),
        r <= 2000,
{
    let d = concat_chars(ip, fp);
    assert(all_digits(d@)) by {
        assert forall|i: int| 0 <= i < d@.len() implies is_digit(#[trigger] d@[i]) by {
            if i < ip@.len() {
                assert(d@[i] == ip@[i]);
            } else {
                assert(d@[i] == fp@[i - ip@.len()]);
            }
        }
    }
    let ni = ip.len();
    let nf = fp.len();
    let q: i128 = if x_neg { ni as i128 - x_mag as i128 } else { ni as i128 + x_mag as i128 };
    let w = window_capped(&d, q + 25);
    proof {
        let q_true = ip@.len() + x;
        if q_true != q as int {
            lemma_far_exponents(d@, q_true, q as int);
        }
        lemma_pixels_capped(scaled_e25(d@, q_true), 2000);
        lemma_pixels_le(scaled_e25(d@, q_true), 2000);
    }
    pixels_search(w)
}

/// What `number_pixels` gives.
fn number_pixels_of(neg: bool, l: &Vec<char>) -> (r: Option<u32>)
    ensures
        r is None <==> number_pixels(neg, l@) is None,
        r matches Some(v) ==> number_pixels(neg, l@) == Some(v as nat) && v <= 2000,
{
    let ie = find_char(l, 0, 'e');
    assert(l@.skip(0) =~= l@);
    let m = chars_range(l, 0, ie);
    let id = find_char(&m, 0, '.');
    assert(m@.skip(0) =~= m@);
    let ip = chars_range(&m, 0, id);
    let fp = if id < m.len() { chars_from(&m, id + 1) } else { Vec::new() };
    assert(fp@ == (if id < m@.len() { m@.skip(id + 1int) } else { Seq::<char>::empty() }));
    let ex = if ie < l.len() {
        let rest = chars_from(l, ie + 1);
        exponent_of(&rest)
    } else {
        Some((false, 0))
    };
    proof {
        if ie >= l@.len() {
            reveal_with_fuel(digits_value, 2);
            assert(seq!['0'].drop_last() =~= Seq::<char>::empty());
            assert(all_digits(seq!['0']));
        }
    }
    if !digits_only(&ip) || !digits_only(&fp) || (ip.len() == 0 && fp.len() == 0) {
        return None;
    }
    match ex {
        None => None,
        Some((x_neg, x_mag)) => {
            if neg {
                return Some(0);
            }
            let ghost e = if ie < l@.len() { exponent_digits(l@.skip(ie + 1int)) } else { Some((false, seq!['0'])) };
            let ghost x: int = if e.unwrap().0 { -(digits_value(e.unwrap().1) as int) } else { digits_value(e.unwrap().1) as int };
            Some(digits_pixels_of(&ip, &fp, x_neg, x_mag, Ghost(x)))
        }
    }
}

/// What `float_pixels` gives for the characters of `t`.
pub fn float_pixels_of(t: &Vec<char>) -> (r: Option<u32>)
    ensures
        r is None <==> float_pixels(t@) is None,
        r matches Some(v) ==> float_pixels(t@) == Some(v as nat) && v <= 2000,
{
    let mut start: usize = 0;
    let mut neg = false;
    if t.len() > 0 && (t[0] == '+' || t[0] == '-') {
        neg = t[0] == '-';
        start = 1;
        assert(t@.skip(1) =~= t@.drop_first());
    } else {
        assert(t@.skip(0) =~= t@);
    }
    let u = chars_from(t, start);
    assert(split_sign(t@) == (neg, u@));
    let l = ascii_lower_vec(&u);
    if chars_are(&l, "inf") || chars_are(&l, "infinity") {
        return Some(if neg { 0 } else { 2000 });
    }
    if chars_are(&l, "nan") {
        return Some(0);
    }
    number_pixels_of(neg, &l)
}


/// The number of leading digits and points of `s`.
pub open spec fn number_prefix_len(s: Seq<char>) -> nat
    decreases s.len(),
{
    if s.len() == 0 || !(is_digit(s[0]) || s[0] == '.') { 0 } else { 1 + number_prefix_len(s.drop_first()) }
}

/// The value of an attribute written `name=` and a quote: the text from
/// the character after the quote's place up to the next quote, when there
/// is one.
pub open spec fn attr_text(v: Seq<char>, pat: Seq<char>) -> Option<Seq<char>> {
    match find_text(v, pat) {
        None => None,
        Some(p) => {
            let rest = v.skip(p + pat.len() + 1int);
            let q = index_of_quote(rest);
            if q < rest.len() { Some(rest.take(q as int)) } else { None }
        },
    }
}

/// Whether the text after the first `pat` in `v` can be cut one character
/// past it: the character after `pat` exists and takes one byte.
pub open spec fn attr_cut_ok(v: Seq<char>, pat: Seq<char>) -> bool {
    match find_text(v, pat) {
        None => true,
        Some(p) => p + pat.len() < v.len() && (v[p + pat.len() as int] as u32) < 128,
    }
}

/// Whether reading the sizes of `v` stays inside character boundaries.
pub open spec fn svg_text_ok(v: Seq<char>) -> bool {
    attr_cut_ok(v, "width="@) && attr_cut_ok(v, "height="@) && attr_cut_ok(v, "viewBox="@)
}

/// The pixels of a length attribute: its leading digits and points once
/// trimmed, read as a number.
pub open spec fn length_pixels(a: Seq<char>) -> Option<nat> {
    float_pixels(trim(a).take(number_prefix_len(trim(a)) as int))
}

/// The pixels that the attribute `pat` gives, or `dflt`.
pub open spec fn length_attr(v: Seq<char>, pat: Seq<char>, dflt: nat) -> nat {
    match attr_text(v, pat) {
        Some(a) => match length_pixels(a) {
            Some(p) => p,
            None => dflt,
        },
        None => dflt,
    }
}

/// `n` kept within 1 and 2000.
pub open spec fn clamp_size(n: nat) -> nat {
    if n < 1 { 1 } else if n > 2000 { 2000 } else { n }
}

/// The width and height of an SVG text: `width` and `height` attributes
/// (300 and 150 without them); where one is absent, the size that a
/// four-number `viewBox` gives; each kept within 1 and 2000.
pub open spec fn svg_size(v: Seq<char>) -> (nat, nat) {
    let w0 = length_attr(v, "width="@, 300);
    let h0 = length_attr(v, "height="@, 150);
    let (w1, h1) = match attr_text(v, "viewBox="@) {
        Some(vb) => {
            let parts = words(vb);
            if parts.len() == 4 && float_pixels(parts[2]) is Some && float_pixels(parts[3]) is Some {
                (if find_text(v, "width="@) is None { float_pixels(parts[2]).unwrap() } else { w0 },
                 if find_text(v, "height="@) is None { float_pixels(parts[3]).unwrap() } else { h0 })
            } else {
                (w0, h0)
            }
        },
        None => (w0, h0),
    };
    (clamp_size(w1), clamp_size(h1))
}

/// The leading digits and points of `v`.
fn number_prefix(v: &Vec<char>) -> (r: Vec<char>)
    ensures
        r@ == v@.take(number_prefix_len(v@) as int),
{
    let mut j: usize = 0;
    assert(v@.skip(0) =~= v@);
    while j < v.len() && (('0' <= v[j] && v[j] <= '9') || v[j] == '.')
        invariant
            j <= v@.len(),
            number_prefix_len(v@) == j + number_prefix_len(v@.skip(j as int)),
        decreases v@.len() - j,
    {
        assert(v@.skip(j as int).drop_first() =~= v@.skip(j + 1));
        j = j + 1;
    }
    if j < v.len() {
        assert(v@.skip(j as int)[0] == v@[j as int]);
    }
    chars_range(v, 0, j)
}

/// What `attr_text` gives for `pat`.
fn attr_text_of(v: &Vec<char>, pat: &Vec<char>) -> (r: Option<Vec<char>>)
    requires
        attr_cut_ok(v@, pat@),
    ensures
        r is None <==> attr_text(v@, pat@) is None,
        r matches Some(a) ==> attr_text(v@, pat@) == Some(a@),
{
    let n = v.len();
    match find_text_of(v, pat) {
        None => None,
        Some(p) => {
            let start = p + pat.len() + 1;
            let q = find_quote(v, start);
            if q < v.len() {
                assert(v@.skip(start as int).take((q - start) as int) =~= v@.subrange(start as int, q as int));
                Some(chars_range(v, start, q))
            } else {
                None
            }
        },
    }
}

/// What `length_attr` gives.
fn length_attr_of(v: &Vec<char>, pat: &Vec<char>, dflt: u32) -> (r: u32)
    requires
        attr_cut_ok(v@, pat@),
        dflt <= 2000,
    ensures
        r == length_attr(v@, pat@, dflt as nat),
        r <= 2000,
{
    match attr_text_of(v, pat) {
        Some(a) => {
            let t = trim_chars(&a);
            let n = number_prefix(&t);
            match float_pixels_of(&n) {
                Some(p) => p,
                None => dflt,
            }
        },
        None => dflt,
    }
}

/// `n` kept within 1 and 2000.
fn clamp_size_of(n: u32) -> (r: u32)
    ensures
        r == clamp_size(n as nat),
{
    if n < 1 { 1 } else if n > 2000 { 2000 } else { n }
}

/// The width and height of an SVG text, as `svg_size` gives them.
pub fn svg_size_of(svg: &str) -> (r: (u32, u32))
    requires
        svg_text_ok(svg@),
    ensures
        r.0 as nat == svg_size(svg@).0,
        r.1 as nat == svg_size(svg@).1,
{
    let v = crate::strings::chars_of(svg);
    let wpat = crate::strings::chars_of("width=");
    let hpat = crate::strings::chars_of("height=");
    let vpat = crate::strings::chars_of("viewBox=");
    let w0 = length_attr_of(&v, &wpat, 300);
    let h0 = length_attr_of(&v, &hpat, 150);
    let mut w1 = w0;
    let mut h1 = h0;
    match attr_text_of(&v, &vpat) {
        Some(vb) => {
            let parts = split_ws(&vb);
            proof {
                assert(parts@.len() == words(vb@).len());
            }
            if parts.len() == 4 {
                let ghost ps = parts@.map_values(|w: Vec<char>| w@);
                assert(ps[2] == parts@[2]@);
                assert(ps[3] == parts@[3]@);
                let a = float_pixels_of(&parts[2]);
                let b = float_pixels_of(&parts[3]);
                if a.is_some() && b.is_some() {
                    if find_text_of(&v, &wpat).is_none() {
                        w1 = a.unwrap();
                    }
                    if find_text_of(&v, &hpat).is_none() {
                        h1 = b.unwrap();
                    }
                }
            }
        },
        None => {},
    }
    (clamp_size_of(w1), clamp_size_of(h1))
}


pub proof fn lemma_size_bounds(v: Seq<char>)
    ensures
        1 <= svg_size(v).0 <= 2000,
        1 <= svg_size(v).1 <= 2000,
{
}

} // verus!
