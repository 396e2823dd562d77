//! Stages of a conversion, statistics collected during it, and the
//! human-readable formatting of durations and byte counts.

use vstd::prelude::*;
use std::time::Duration;
use crate::strings::{decimal, push_decimal, push_char, decimal_string, digit_char};

verus! {

/// A stage in the conversion process, in the order in which they run.
#[derive(Debug, Clone, Copy, PartialEq, Eq, Structural, Hash, PartialOrd, Ord)]
pub enum ProgressStage {
    /// Loading input (file, URL, or string)
    Loading,
    /// Parsing HTML into DOM
    ParsingHtml,
    /// Executing JavaScript (optional)
    ExecutingScripts,
    /// Parsing CSS stylesheets
    ParsingCss,
    /// Computing styles (cascade, inheritance)
    ComputingStyles,
    /// Building the layout box tree
    BuildingLayout,
    /// Performing layout computation
    LayingOut,
    /// Rendering to PDF pages
    Rendering,
    /// Writing PDF to output
    WritingPdf,
    /// Conversion complete
    Complete,
}

/// The stages in the order in which a conversion runs through them.
pub open spec fn stage_order() -> Seq<ProgressStage> {
    seq![
        ProgressStage::Loading,
        ProgressStage::ParsingHtml,
        ProgressStage::ExecutingScripts,
        ProgressStage::ParsingCss,
        ProgressStage::ComputingStyles,
        ProgressStage::BuildingLayout,
        ProgressStage::LayingOut,
        ProgressStage::Rendering,
        ProgressStage::WritingPdf,
        ProgressStage::Complete,
    ]
}

/// The position of a stage in `stage_order()`.
pub open spec fn stage_index(s: ProgressStage) -> int {
    match s {
        ProgressStage::Loading => 0,
        ProgressStage::ParsingHtml => 1,
        ProgressStage::ExecutingScripts => 2,
        ProgressStage::ParsingCss => 3,
        ProgressStage::ComputingStyles => 4,
        ProgressStage::BuildingLayout => 5,
        ProgressStage::LayingOut => 6,
        ProgressStage::Rendering => 7,
        ProgressStage::WritingPdf => 8,
        ProgressStage::Complete => 9,
    }
}

/// The stage that follows `s` in the conversion order, if any.
pub open spec fn stage_after(s: ProgressStage) -> Option<ProgressStage> {
    if stage_index(s) + 1 < stage_order().len() {
        Some(stage_order()[stage_index(s) + 1])
    } else {
        None
    }
}

/// The stage that precedes `s` in the conversion order, if any.
pub open spec fn stage_before(s: ProgressStage) -> Option<ProgressStage> {
    if stage_index(s) > 0 {
        Some(stage_order()[stage_index(s) - 1])
    } else {
        None
    }
}

/// The human-readable name of a stage.
pub open spec fn stage_name(s: ProgressStage) -> Seq<char> {
    match s {
        ProgressStage::Loading => "Loading"@,
        ProgressStage::ParsingHtml => "Parsing HTML"@,
        ProgressStage::ExecutingScripts => "Executing Scripts"@,
        ProgressStage::ParsingCss => "Parsing CSS"@,
        ProgressStage::ComputingStyles => "Computing Styles"@,
        ProgressStage::BuildingLayout => "Building Layout Tree"@,
        ProgressStage::LayingOut => "Layout"@,
        ProgressStage::Rendering => "Rendering"@,
        ProgressStage::WritingPdf => "Writing PDF"@,
        ProgressStage::Complete => "Complete"@,
    }
}

/// The short code of a stage.
pub open spec fn stage_code(s: ProgressStage) -> Seq<char> {
    match s {
        ProgressStage::Loading => "LOAD"@,
        ProgressStage::ParsingHtml => "HTML"@,
        ProgressStage::ExecutingScripts => "SCRP"@,
        ProgressStage::ParsingCss => "CSS"@,
        ProgressStage::ComputingStyles => "STYL"@,
        ProgressStage::BuildingLayout => "BLDT"@,
        ProgressStage::LayingOut => "LAYO"@,
        ProgressStage::Rendering => "REND"@,
        ProgressStage::WritingPdf => "WRIT"@,
        ProgressStage::Complete => "DONE"@,
    }
}

impl ProgressStage {
    /// Get a human-readable name for this stage
    pub fn name(&self) -> (r: &'static str)
        ensures
            r@ == stage_name(*self),
    {
        match self {
            ProgressStage::Loading => "Loading",
            ProgressStage::ParsingHtml => "Parsing HTML",
            ProgressStage::ExecutingScripts => "Executing Scripts",
            ProgressStage::ParsingCss => "Parsing CSS",
            ProgressStage::ComputingStyles => "Computing Styles",
            ProgressStage::BuildingLayout => "Building Layout Tree",
            ProgressStage::LayingOut => "Layout",
            ProgressStage::Rendering => "Rendering",
            ProgressStage::WritingPdf => "Writing PDF",
            ProgressStage::Complete => "Complete",
        }
    }

    /// Get a short (3-4 character) code for this stage
    pub fn code(&self) -> (r: &'static str)
        ensures
            r@ == stage_code(*self),
            3 <= r@.len() <= 4,
    {
        proof { lemma_stage_codes(*self, *self); }
        match self {
            ProgressStage::Loading => "LOAD",
            ProgressStage::ParsingHtml => "HTML",
            ProgressStage::ExecutingScripts => "SCRP",
            ProgressStage::ParsingCss => "CSS",
            ProgressStage::ComputingStyles => "STYL",
            ProgressStage::BuildingLayout => "BLDT",
            ProgressStage::LayingOut => "LAYO",
            ProgressStage::Rendering => "REND",
            ProgressStage::WritingPdf => "WRIT",
            ProgressStage::Complete => "DONE",
        }
    }

    /// Returns true if this is a terminal stage
    pub fn is_terminal(&self) -> (r: bool)
        ensures
            r <==> *self == ProgressStage::Complete,
    {
        matches!(self, ProgressStage::Complete)
    }

    /// Get all stages in order
    pub fn all_stages() -> (r: Vec<ProgressStage>)
        ensures
            r@ == stage_order(),
    {
        let r = vec![
            ProgressStage::Loading,
            ProgressStage::ParsingHtml,
            ProgressStage::ExecutingScripts,
            ProgressStage::ParsingCss,
            ProgressStage::ComputingStyles,
            ProgressStage::BuildingLayout,
            ProgressStage::LayingOut,
            ProgressStage::Rendering,
            ProgressStage::WritingPdf,
            ProgressStage::Complete,
        ];
        assert(r@ =~= stage_order());
        r
    }

    /// Get the next stage
    pub fn next(&self) -> (r: Option<ProgressStage>)
        ensures
            r == stage_after(*self),
    {
        match self {
            ProgressStage::Loading => Some(ProgressStage::ParsingHtml),
            ProgressStage::ParsingHtml => Some(ProgressStage::ExecutingScripts),
            ProgressStage::ExecutingScripts => Some(ProgressStage::ParsingCss),
            ProgressStage::ParsingCss => Some(ProgressStage::ComputingStyles),
            ProgressStage::ComputingStyles => Some(ProgressStage::BuildingLayout),
            ProgressStage::BuildingLayout => Some(ProgressStage::LayingOut),
            ProgressStage::LayingOut => Some(ProgressStage::Rendering),
            ProgressStage::Rendering => Some(ProgressStage::WritingPdf),
            ProgressStage::WritingPdf => Some(ProgressStage::Complete),
            ProgressStage::Complete => None,
        }
    }

    /// Get the previous stage
    pub fn previous(&self) -> (r: Option<ProgressStage>)
        ensures
            r == stage_before(*self),
    {
        match self {
            ProgressStage::Loading => None,
            ProgressStage::ParsingHtml => Some(ProgressStage::Loading),
            ProgressStage::ExecutingScripts => Some(ProgressStage::ParsingHtml),
            ProgressStage::ParsingCss => Some(ProgressStage::ExecutingScripts),
            ProgressStage::ComputingStyles => Some(ProgressStage::ParsingCss),
            ProgressStage::BuildingLayout => Some(ProgressStage::ComputingStyles),
            ProgressStage::LayingOut => Some(ProgressStage::BuildingLayout),
            ProgressStage::Rendering => Some(ProgressStage::LayingOut),
            ProgressStage::WritingPdf => Some(ProgressStage::Rendering),
            ProgressStage::Complete => Some(ProgressStage::WritingPdf),
        }
    }
}

/// `next` and `previous` undo each other: the stage after `s` has `s`
/// before it, and the stage before `s` has `s` after it.
pub proof fn lemma_next_previous_inverse(s: ProgressStage)
    ensures
        stage_after(s) matches Some(t) ==> stage_before(t) == Some(s),
        stage_before(s) matches Some(t) ==> stage_after(t) == Some(s),
{
}

/// Every stage stands in the conversion order at its index, and the order
/// visits each stage exactly once; `Complete` is the only stage with no
/// successor and `Loading` the only one with no predecessor.
pub proof fn lemma_stage_order(s: ProgressStage)
    ensures
        0 <= stage_index(s) < stage_order().len(),
        stage_order()[stage_index(s)] == s,
        forall|i: int| 0 <= i < stage_order().len() ==> stage_index(#[trigger] stage_order()[i]) == i,
        stage_after(s) is None <==> s == ProgressStage::Complete,
        stage_before(s) is None <==> s == ProgressStage::Loading,
{
    assert forall|i: int| 0 <= i < stage_order().len() implies stage_index(#[trigger] stage_order()[i]) == i by {
        assert(0 <= i < 10);
    }
}

/// Stage codes are three or four characters long, and no two stages share one.
pub proof fn lemma_stage_codes(s: ProgressStage, t: ProgressStage)
    ensures
        3 <= stage_code(s).len() <= 4,
        s != t ==> stage_code(s) != stage_code(t),
{
    reveal_strlit("LOAD");
    reveal_strlit("HTML");
    reveal_strlit("SCRP");
    reveal_strlit("CSS");
    reveal_strlit("STYL");
    reveal_strlit("BLDT");
    reveal_strlit("LAYO");
    reveal_strlit("REND");
    reveal_strlit("WRIT");
    reveal_strlit("DONE");
    if s != t && stage_code(s).len() == stage_code(t).len() {
        let a = stage_code(s);
        let b = stage_code(t);
        assert(a[0] != b[0] || a[1] != b[1] || a[2] != b[2] || a[3] != b[3]);
    }
}

/// Walking the conversion order, each stage's successor is the next one in
/// it and each stage's predecessor the one before; the last stage is
/// terminal and has no successor, the first has no predecessor.
pub proof fn lemma_order_links(i: int)
    requires
        0 <= i < stage_order().len() - 1,
    ensures
        stage_after(stage_order()[i]) == Some(stage_order()[i + 1]),
        stage_before(stage_order()[i + 1]) == Some(stage_order()[i]),
        stage_after(stage_order()[stage_order().len() - 1]) is None,
        stage_order()[stage_order().len() - 1] == ProgressStage::Complete,
        stage_before(stage_order()[0]) is None,
{
}

/// A progress callback that ignores everything (the default).
pub struct NoOpProgressCallback;

} // verus!

verus! {

/// At least three digits: `decimal(n)` left-padded with zeros.
pub open spec fn pad3(n: nat) -> Seq<char> {
    if n < 10 {
        "00"@ + decimal(n)
    } else if n < 100 {
        "0"@ + decimal(n)
    } else {
        decimal(n)
    }
}

/// The text of a duration of `secs` whole seconds and `millis`
/// milliseconds: `"{m}m {s}s"` from one minute on, `"{s}.{ms:03}s"` from
/// one second on, and `"{ms}ms"` below that.
pub open spec fn duration_text(secs: nat, millis: nat) -> Seq<char> {
    if secs >= 60 {
        decimal(secs / 60) + "m "@ + decimal(secs % 60) + "s"@
    } else if secs > 0 {
        decimal(secs) + "."@ + pad3(millis) + "s"@
    } else {
        decimal(millis) + "ms"@
    }
}

/// Whole seconds of a duration (`Duration::as_secs`): a duration is its
/// whole seconds and fewer than a billion nanoseconds, and this is the
/// seconds part.
#[verifier::external_body]
fn duration_secs(d: &Duration) -> (r: u64)
    ensures
        exists|n: u32| #[trigger] splits_into(*d, r, n),
        forall|s: u64, n: u32| n < 1_000_000_000 && *d == #[trigger] duration_of(s, n) ==> r == s,
{
    d.as_secs()
}

/// Milliseconds of a duration beyond its whole seconds
/// (`Duration::subsec_millis`): the whole milliseconds of its nanoseconds
/// part, so always less than one thousand.
#[verifier::external_body]
fn duration_subsec_millis(d: &Duration) -> (r: u32)
    ensures
        r < 1000,
        forall|s: u64, n: u32| n < 1_000_000_000 && *d == #[trigger] duration_of(s, n) ==> r == n / 1_000_000,
{
    d.subsec_millis()
}

/// Formats a duration given as whole seconds and milliseconds.
pub fn format_duration_parts(secs: u64, millis: u32) -> (r: String)
    ensures
        r@ == duration_text(secs as nat, millis as nat),
{
    let mut r = String::new();
    if secs >= 60 {
        push_decimal(&mut r, (secs / 60) as u128);
        r.append("m ");
        push_decimal(&mut r, (secs % 60) as u128);
        r.append("s");
    } else if secs > 0 {
        push_decimal(&mut r, secs as u128);
        r.append(".");
        if millis < 10 {
            r.append("00");
        } else if millis < 100 {
            r.append("0");
        }
        push_decimal(&mut r, millis as u128);
        r.append("s");
    } else {
        push_decimal(&mut r, millis as u128);
        r.append("ms");
    }
    proof {
        assert(r@ =~= duration_text(secs as nat, millis as nat));
    }
    r
}

/// Format a duration as a human-readable string
pub fn format_duration(duration: Duration) -> (r: String)
    ensures
        forall|s: u64, n: u32| n < 1_000_000_000 && duration == #[trigger] duration_of(s, n)
            ==> r@ == duration_text(s as nat, (n / 1_000_000) as nat),
{
    let secs = duration_secs(&duration);
    let millis = duration_subsec_millis(&duration);
    format_duration_parts(secs, millis)
}

} // verus!

verus! {

/// `2` to the power `k`.
pub open spec fn pow2n(k: nat) -> nat
    decreases k,
{
    if k == 0 { 1 } else { 2 * pow2n((k - 1) as nat) }
}

/// The number of binary digits of `b` (0 for 0).
pub open spec fn bit_len(b: nat) -> nat
    decreases b,
{
    if b == 0 { 0 } else { 1 + bit_len(b / 2) }
}

/// `n / d` rounded to the nearest integer, ties to the even one.
pub open spec fn div_round_even(n: nat, d: nat) -> nat
    recommends
        d > 0,
{
    let q = n / d;
    let r = n % d;
    if 2 * r > d || (2 * r == d && q % 2 == 1) { q + 1 } else { q }
}

/// `b` converted to a double: kept when it has at most 53 significant
/// bits, else rounded to the nearest multiple of the place of its 53rd
/// bit, ties to the even multiple.
pub open spec fn as_double(b: nat) -> nat {
    if bit_len(b) <= 53 {
        b
    } else {
        let u = pow2n((bit_len(b) - 53) as nat);
        div_round_even(b, u) * u
    }
}

/// The unit exponent used for `b` bytes: the largest `k <= 3` with
/// `1024^k <= b` (0 below 1024).
pub open spec fn byte_exp(b: nat) -> nat {
    if b >= 1024 * 1024 * 1024 {
        3
    } else if b >= 1024 * 1024 {
        2
    } else if b >= 1024 {
        1
    } else {
        0
    }
}

/// `1024` to the power `k`, for the units in use.
pub open spec fn unit_size(k: nat) -> nat {
    if k == 3 {
        1024 * 1024 * 1024
    } else if k == 2 {
        1024 * 1024
    } else if k == 1 {
        1024
    } else {
        1
    }
}

/// The name of the unit `1024^k`.
pub open spec fn unit_name(k: nat) -> Seq<char> {
    if k == 3 {
        "GB"@
    } else if k == 2 {
        "MB"@
    } else if k == 1 {
        "KB"@
    } else {
        "B"@
    }
}

/// The value of `b` bytes in its unit, in hundredths, rounded as a double
/// printed with two decimals is.
pub open spec fn byte_hundredths(b: nat) -> nat {
    div_round_even(as_double(b) * 100, unit_size(byte_exp(b)))
}

/// The text of a byte count: `"0 B"`, `"{n} B"` below 1 KB, else the value
/// in KB, MB or GB with two decimals.
pub open spec fn bytes_text(b: nat) -> Seq<char> {
    if b == 0 {
        "0 B"@
    } else if byte_exp(b) == 0 {
        decimal(b) + " B"@
    } else {
        let h = byte_hundredths(b);
        decimal(h / 100) + "."@ + seq![digit_char(((h % 100) / 10) as int), digit_char((h % 10) as int)]
            + " "@ + unit_name(byte_exp(b))
    }
}

proof fn lemma_bit_len_bound(b: nat, k: nat)
    requires
        b < pow2n(k),
    ensures
        bit_len(b) <= k,
    decreases k,
{
    if k > 0 && b > 0 {
        lemma_bit_len_bound(b / 2, (k - 1) as nat);
    }
}

proof fn lemma_pow2n_pos(k: nat)
    ensures
        pow2n(k) >= 1,
    decreases k,
{
    if k > 0 {
        lemma_pow2n_pos((k - 1) as nat);
    }
}

proof fn lemma_pow2n_mono(a: nat, b: nat)
    requires
        a <= b,
    ensures
        pow2n(a) <= pow2n(b),
    decreases b,
{
    if a < b {
        lemma_pow2n_mono(a, (b - 1) as nat);
    }
}

proof fn lemma_pow2n_values()
    ensures
        pow2n(11) == 2048,
        pow2n(64) == 0x1_0000_0000_0000_0000,
{
    reveal_with_fuel(pow2n, 65);
}

/// `b` converted to a double, computed exactly.
fn to_double(b: u64) -> (r: u128)
    ensures
        r == as_double(b as nat),
        r <= 2 * (b as nat),
{
    // bit length of b
    let mut len: u32 = 0;
    let mut rest: u64 = b;
    proof { lemma_pow2n_values(); }
    while rest > 0
        invariant
            bit_len(b as nat) == len + bit_len(rest as nat),
            len <= 64,
            rest < pow2n((64 - len) as nat),
        decreases rest,
    {
        proof {
            assert(pow2n((64 - len) as nat) == 2 * pow2n((64 - len - 1) as nat));
        }
        rest = rest / 2;
        len = len + 1;
    }
    if len <= 53 {
        return b as u128;
    }
    let k = len - 53;
    let mut u: u128 = 1;
    let mut i: u32 = 0;
    proof { lemma_pow2n_values(); lemma_pow2n_mono(0, 11); }
    while i < k
        invariant
            i <= k,
            k <= 11,
            u == pow2n(i as nat),
            u <= pow2n(11),
        decreases k - i,
    {
        proof { lemma_pow2n_mono((i + 1) as nat, 11); lemma_pow2n_values(); }
        u = u * 2;
        i = i + 1;
    }
    proof { lemma_pow2n_pos(k as nat); }
    let q = (b as u128) / u;
    let rm = (b as u128) % u;
    let qq = if 2 * rm > u || (2 * rm == u && q % 2 == 1) { q + 1 } else { q };
    proof {
        assert(q * u + rm == b as nat) by (nonlinear_arith)
            requires q == (b as nat) / (u as nat), rm == (b as nat) % (u as nat), u > 0;
        assert(qq * u <= (b as nat) + u) by (nonlinear_arith)
            requires q * u + rm == b as nat, qq <= q + 1, u > 0;
        assert(u <= b as nat) by {
            lemma_pow2n_mono(k as nat, 64);
            assert(bit_len(b as nat) == len as nat);
            if (b as nat) < u {
                lemma_bit_len_bound(b as nat, k as nat);
            }
        }
    }
    qq * u
}

/// Format bytes as a human-readable string
pub fn format_bytes(bytes: usize) -> (r: String)
    ensures
        r@ == bytes_text(bytes as nat),
{
    if bytes == 0 {
        let r = String::from_str("0 B");
        return r;
    }
    let b = bytes as u64;
    let (exp, unit): (u32, u128) = if b >= 1024 * 1024 * 1024 {
        (3, 1024 * 1024 * 1024)
    } else if b >= 1024 * 1024 {
        (2, 1024 * 1024)
    } else if b >= 1024 {
        (1, 1024)
    } else {
        (0, 1)
    };
    let mut r = String::new();
    if exp == 0 {
        push_decimal(&mut r, b as u128);
        r.append(" B");
        proof { assert(r@ =~= bytes_text(bytes as nat)); }
        return r;
    }
    let d = to_double(b);
    let n = d * 100;
    let q = n / unit;
    let rm = n % unit;
    let h = if 2 * rm > unit || (2 * rm == unit && q % 2 == 1) { q + 1 } else { q };
    push_decimal(&mut r, h / 100);
    r.append(".");
    push_char(&mut r, crate::strings::digit(((h % 100) / 10) as u8));
    push_char(&mut r, crate::strings::digit((h % 10) as u8));
    r.append(" ");
    if exp == 3 {
        r.append("GB");
    } else if exp == 2 {
        r.append("MB");
    } else {
        r.append("KB");
    }
    proof { assert(r@ =~= bytes_text(bytes as nat)); }
    r
}

} // verus!

verus! {

/// The largest number of nanoseconds a `Duration` can hold
/// (`Duration::MAX`: `u64::MAX` seconds and 999,999,999 nanoseconds).
pub open spec fn max_duration_nanos() -> nat {
    0xFFFF_FFFF_FFFF_FFFF * 1_000_000_000 + 999_999_999
}

/// Total nanoseconds of a duration (`Duration::as_nanos`); a `Duration`
/// holds at most `Duration::MAX`, as documented.
#[verifier::external_body]
fn duration_as_nanos(d: &Duration) -> (r: u128)
    ensures
        r <= max_duration_nanos(),
        forall|s: u64, n: u32| n < 1_000_000_000 && *d == #[trigger] duration_of(s, n)
            ==> r == s * 1_000_000_000 + n,
{
    d.as_nanos()
}

/// The duration that `Duration::new` makes of whole seconds and
/// nanoseconds.
pub uninterp spec fn duration_of(secs: u64, nanos: u32) -> Duration;

/// Whether `d` is the duration of `secs` whole seconds and `nanos`
/// nanoseconds, fewer than a second.
pub open spec fn splits_into(d: Duration, secs: u64, nanos: u32) -> bool {
    nanos < 1_000_000_000 && d == duration_of(secs, nanos)
}

/// A duration of `secs` seconds and `nanos` nanoseconds (`Duration::new`),
/// which panics only when the nanoseconds carry past `u64::MAX` seconds;
/// its result is named `duration_of` of the two arguments.
#[verifier::external_body]
fn duration_new(secs: u64, nanos: u32) -> (r: Duration)
    requires
        nanos < 1_000_000_000,
    ensures
        r == duration_of(secs, nanos),
{
    Duration::new(secs, nanos)
}

/// A duration divided by a nonzero count (`Duration / u32`): the
/// duration of its total nanoseconds divided by the count, rounded down.
#[verifier::external_body]
fn duration_div(d: Duration, n: u32) -> (r: Duration)
    requires
        n != 0,
    ensures
        forall|s: u64, k: u32| k < 1_000_000_000 && d == #[trigger] duration_of(s, k)
            ==> r == duration_of_nanos(((s * 1_000_000_000 + k) / (n as int)) as nat),
{
    d / n
}

/// The nanoseconds recorded for `stage`: those of its first entry, 0 if it
/// has none.
pub open spec fn recorded_nanos(entries: Seq<(ProgressStage, u128)>, stage: ProgressStage) -> nat
    decreases entries.len(),
{
    if entries.len() == 0 {
        0
    } else if entries[0].0 == stage {
        entries[0].1 as nat
    } else {
        recorded_nanos(entries.drop_first(), stage)
    }
}

/// Whether `stage` has an entry.
pub open spec fn has_stage(entries: Seq<(ProgressStage, u128)>, stage: ProgressStage) -> bool {
    exists|i: int| 0 <= i < entries.len() && entries[i].0 == stage
}

/// The sum of all recorded nanoseconds.
pub open spec fn total_nanos_of(entries: Seq<(ProgressStage, u128)>) -> nat
    decreases entries.len(),
{
    if entries.len() == 0 {
        0
    } else {
        entries[0].1 as nat + total_nanos_of(entries.drop_first())
    }
}

/// `a + n`, saturated at `u128::MAX`.
pub open spec fn saturating_sum(a: nat, n: nat) -> nat {
    if a + n <= u128::MAX { a + n } else { u128::MAX as nat }
}

/// The duration of `n` nanoseconds: its whole seconds and the
/// nanoseconds left over, or `Duration::MAX` when the seconds pass
/// `u64::MAX`.
pub open spec fn duration_of_nanos(n: nat) -> Duration {
    duration_of((clamp_nanos(n) / 1_000_000_000) as u64, (clamp_nanos(n) % 1_000_000_000) as u32)
}

/// `n` nanoseconds, or the most a duration holds when `n` has more whole
/// seconds than `u64::MAX`.
pub open spec fn clamp_nanos(n: nat) -> nat {
    if n / 1_000_000_000 > u64::MAX { max_duration_nanos() } else { n }
}

/// The parts of a clamped count are what `duration_of_nanos` takes.
pub proof fn lemma_clamp_parts(n: nat)
    ensures
        clamp_nanos(n) / 1_000_000_000 <= u64::MAX,
        clamp_nanos(n) % 1_000_000_000 < 1_000_000_000,
        clamp_nanos(n) == (clamp_nanos(n) / 1_000_000_000) * 1_000_000_000 + clamp_nanos(n) % 1_000_000_000,
        n / 1_000_000_000 > u64::MAX ==> clamp_nanos(n) / 1_000_000_000 == u64::MAX
            && clamp_nanos(n) % 1_000_000_000 == 999_999_999,
{
    vstd::arithmetic::div_mod::lemma_fundamental_div_mod_converse(
        max_duration_nanos() as int, 1_000_000_000, u64::MAX as int, 999_999_999);
}

/// A duration of `n` nanoseconds, saturated at `Duration::MAX`.
fn duration_from_nanos(n: u128) -> (r: Duration)
    ensures
        r == duration_of_nanos(n as nat),
{
    let secs = n / 1_000_000_000;
    let nanos = (n % 1_000_000_000) as u32;
    proof { lemma_clamp_parts(n as nat); }
    if secs > 0xFFFF_FFFF_FFFF_FFFFu128 {
        duration_new(0xFFFF_FFFF_FFFF_FFFFu64, 999_999_999)
    } else {
        duration_new(secs as u64, nanos)
    }
}

/// Statistics collected during conversion
#[derive(Debug)]
pub struct ConversionStats {
    /// Number of HTML elements processed
    pub elements_processed: usize,
    /// Number of CSS rules parsed
    pub css_rules_parsed: usize,
    /// Number of layout boxes created
    pub layout_boxes_created: usize,
    /// Number of pages generated
    pub pages_generated: usize,
    /// Number of images embedded
    pub images_embedded: usize,
    /// Number of fonts used
    pub fonts_used: usize,
    /// Input size in bytes
    pub input_bytes: usize,
    /// Output size in bytes
    pub output_bytes: usize,
    /// Nanoseconds spent in each stage, one entry per stage that ran
    pub stage_times: Vec<(ProgressStage, u128)>,
    /// Peak memory usage in bytes (if available)
    pub peak_memory_bytes: Option<usize>,
    /// Current memory usage in bytes (if available)
    pub current_memory_bytes: Option<usize>,
}

impl ConversionStats {
    /// The per-stage entries, in the order in which stages were first timed.
    pub open spec fn entries(&self) -> Seq<(ProgressStage, u128)> {
        self.stage_times@
    }

    /// Whether every count is zero and no stage has been timed.
    pub open spec fn is_empty_stats(&self) -> bool {
        &&& self.elements_processed == 0
        &&& self.css_rules_parsed == 0
        &&& self.layout_boxes_created == 0
        &&& self.pages_generated == 0
        &&& self.images_embedded == 0
        &&& self.fonts_used == 0
        &&& self.input_bytes == 0
        &&& self.output_bytes == 0
        &&& self.entries().len() == 0
        &&& self.peak_memory_bytes is None
        &&& self.current_memory_bytes is None
    }

    /// Create new empty stats
    pub fn new() -> (r: Self)
        ensures
            r.is_empty_stats(),
    {
        ConversionStats {
            elements_processed: 0,
            css_rules_parsed: 0,
            layout_boxes_created: 0,
            pages_generated: 0,
            images_embedded: 0,
            fonts_used: 0,
            input_bytes: 0,
            output_bytes: 0,
            stage_times: Vec::new(),
            peak_memory_bytes: None,
            current_memory_bytes: None,
        }
    }

    /// Nanoseconds recorded for a stage (0 if it never ran).
    pub fn stage_nanos(&self, stage: ProgressStage) -> (r: u128)
        ensures
            r == recorded_nanos(self.entries(), stage),
    {
        let mut i: usize = 0;
        assert(self.entries().skip(0) =~= self.entries());
        while i < self.stage_times.len()
            invariant
                i <= self.stage_times@.len(),
                recorded_nanos(self.entries(), stage) == recorded_nanos(self.entries().skip(i as int), stage),
            decreases self.stage_times@.len() - i,
        {
            assert(self.entries().skip(i as int).drop_first() =~= self.entries().skip(i + 1));
            if self.stage_times[i].0 == stage {
                return self.stage_times[i].1;
            }
            i = i + 1;
        }
        0
    }

    /// Total nanoseconds over all stages, saturated at `u128::MAX`.
    pub fn total_nanos(&self) -> (r: u128)
        ensures
            total_nanos_of(self.entries()) <= u128::MAX ==> r == total_nanos_of(self.entries()),
            total_nanos_of(self.entries()) > u128::MAX ==> r == u128::MAX,
    {
        let mut total: u128 = 0;
        let mut i: usize = self.stage_times.len();
        let ghost es = self.entries();
        proof {
            assert(es.skip(es.len() as int) =~= Seq::<(ProgressStage, u128)>::empty());
        }
        while i > 0
            invariant
                i <= es.len(),
                es == self.stage_times@,
                total_nanos_of(es.skip(i as int)) <= u128::MAX ==> total == total_nanos_of(es.skip(i as int)),
                total_nanos_of(es.skip(i as int)) > u128::MAX ==> total == u128::MAX,
            decreases i,
        {
            i = i - 1;
            assert(es.skip(i as int).drop_first() =~= es.skip(i + 1));
            total = total.saturating_add(self.stage_times[i].1);
        }
        assert(es.skip(0) =~= es);
        total
    }

    /// The nanoseconds that the total time holds: the recorded sum,
    /// saturated at `u128::MAX` and at the most a duration holds.
    pub open spec fn total_time_nanos(&self) -> nat {
        clamp_nanos(saturating_sum(total_nanos_of(self.entries()), 0))
    }

    /// The total time is the duration of its nanoseconds, split into whole
    /// seconds and the rest.
    pub proof fn lemma_total_time_parts(&self)
        ensures
            duration_of_nanos(saturating_sum(total_nanos_of(self.entries()), 0)) == duration_of(
                (self.total_time_nanos() / 1_000_000_000) as u64, (self.total_time_nanos() % 1_000_000_000) as u32),
            self.total_time_nanos() / 1_000_000_000 <= u64::MAX,
            self.total_time_nanos() % 1_000_000_000 < 1_000_000_000,
            self.total_time_nanos() == (self.total_time_nanos() / 1_000_000_000) * 1_000_000_000
                + self.total_time_nanos() % 1_000_000_000,
    {
        lemma_clamp_parts(saturating_sum(total_nanos_of(self.entries()), 0));
    }

    /// Get total conversion time
    pub fn total_time(&self) -> (r: Duration)
        ensures
            r == duration_of_nanos(saturating_sum(total_nanos_of(self.entries()), 0)),
    {
        duration_from_nanos(self.total_nanos())
    }

    /// Get time spent in a specific stage
    pub fn stage_time(&self, stage: ProgressStage) -> (r: Duration)
        ensures
            r == duration_of_nanos(recorded_nanos(self.entries(), stage) as nat),
    {
        duration_from_nanos(self.stage_nanos(stage))
    }

    /// Add time to a stage: the stage's entry grows by the duration
    /// (saturating at `u128::MAX` nanoseconds); a stage without an entry
    /// gets one at the end.
    pub fn add_stage_time(&mut self, stage: ProgressStage, duration: Duration)
        ensures
            final(self).elements_processed == old(self).elements_processed,
            final(self).pages_generated == old(self).pages_generated,
            has_stage(final(self).entries(), stage),
            forall|secs: u64, nanos: u32| nanos < 1_000_000_000 && duration == #[trigger] duration_of(secs, nanos)
                ==> recorded_nanos(final(self).entries(), stage)
                == saturating_sum(recorded_nanos(old(self).entries(), stage), (secs * 1_000_000_000 + nanos) as nat),
            forall|s: ProgressStage| s != stage ==> recorded_nanos(#[trigger] final(self).entries(), s)
                == recorded_nanos(old(self).entries(), s),
    {
        let n = duration_as_nanos(&duration);
        let ghost old_es = self.stage_times@;
        let mut i: usize = 0;
        while i < self.stage_times.len()
            invariant
                i <= self.stage_times@.len(),
                self.stage_times@ == old_es,
                old_es == old(self).stage_times@,
                n <= max_duration_nanos(),
                forall|secs: u64, nanos: u32| nanos < 1_000_000_000 && duration == #[trigger] duration_of(secs, nanos)
                    ==> n == secs * 1_000_000_000 + nanos,
                self.elements_processed == old(self).elements_processed,
                self.pages_generated == old(self).pages_generated,
                forall|j: int| 0 <= j < i ==> old_es[j].0 != stage,
            decreases self.stage_times@.len() - i,
        {
            if self.stage_times[i].0 == stage {
                let v = self.stage_times[i].1.saturating_add(n);
                self.stage_times.set(i, (stage, v));
                proof {
                    lemma_recorded_update(old_es, i as int, stage, v);
                    assert(recorded_nanos(self.entries(), stage) == saturating_sum(recorded_nanos(old(self).entries(), stage), n as nat));
                }
                return;
            }
            i = i + 1;
        }
        self.stage_times.push((stage, n));
        proof {
            lemma_recorded_push(old_es, stage, n);
            assert(recorded_nanos(self.entries(), stage) == saturating_sum(recorded_nanos(old(self).entries(), stage), n as nat));
        }
    }

    /// Get average time per element
    pub fn avg_time_per_element(&self) -> (r: Option<Duration>)
        requires
            self.elements_processed == 0 || (self.elements_processed as int) % 0x1_0000_0000 != 0,
        ensures
            r is None <==> self.elements_processed == 0,
            r matches Some(d) ==> d == duration_of_nanos(self.total_time_nanos()
                / ((self.elements_processed as int) % 0x1_0000_0000) as nat),
    {
        proof { self.lemma_total_time_parts(); }
        if self.elements_processed == 0 {
            None
        } else {
            let n = ((self.elements_processed as u64) % 0x1_0000_0000) as u32;
            Some(duration_div(self.total_time(), n))
        }
    }

    /// Get average time per page
    pub fn avg_time_per_page(&self) -> (r: Option<Duration>)
        requires
            self.pages_generated == 0 || (self.pages_generated as int) % 0x1_0000_0000 != 0,
        ensures
            r is None <==> self.pages_generated == 0,
            r matches Some(d) ==> d == duration_of_nanos(self.total_time_nanos()
                / ((self.pages_generated as int) % 0x1_0000_0000) as nat),
    {
        proof { self.lemma_total_time_parts(); }
        if self.pages_generated == 0 {
            None
        } else {
            let n = ((self.pages_generated as u64) % 0x1_0000_0000) as u32;
            Some(duration_div(self.total_time(), n))
        }
    }

    /// Format total time as human-readable string
    pub fn format_total_time(&self) -> (r: String)
        ensures
            r@ == duration_text(self.total_time_nanos() / 1_000_000_000,
                (self.total_time_nanos() % 1_000_000_000) / 1_000_000),
    {
        proof { self.lemma_total_time_parts(); }
        format_duration(self.total_time())
    }

    /// Format memory usage
    pub fn format_memory(&self) -> (r: String)
        ensures
            r@ == match self.peak_memory_bytes {
                Some(b) => bytes_text(b as nat),
                None => "unknown"@,
            },
    {
        match self.peak_memory_bytes {
            Some(bytes) => format_bytes(bytes),
            None => String::from_str("unknown"),
        }
    }

    /// Reset all counters
    pub fn reset(&mut self)
        ensures
            final(self).is_empty_stats(),
    {
        *self = Self::new();
    }
}

proof fn lemma_recorded_update(es: Seq<(ProgressStage, u128)>, i: int, stage: ProgressStage, v: u128)
    requires
        0 <= i < es.len(),
        es[i].0 == stage,
        forall|j: int| 0 <= j < i ==> es[j].0 != stage,
    ensures
        recorded_nanos(es.update(i, (stage, v)), stage) == v,
        recorded_nanos(es, stage) == es[i].1,
        has_stage(es.update(i, (stage, v)), stage),
        forall|s: ProgressStage| s != stage ==> recorded_nanos(#[trigger] es.update(i, (stage, v)), s)
            == recorded_nanos(es, s),
    decreases i,
{
    let es2 = es.update(i, (stage, v));
    assert(es2[i].0 == stage);
    if i > 0 {
        assert(es.drop_first().update(i - 1, (stage, v)) =~= es2.drop_first());
        lemma_recorded_update(es.drop_first(), i - 1, stage, v);
        assert forall|s: ProgressStage| s != stage implies #[trigger] recorded_nanos(es2, s) == recorded_nanos(es, s) by {
            assert(es2[0] == es[0]);
            assert(recorded_nanos(es.drop_first().update(i - 1, (stage, v)), s) == recorded_nanos(es.drop_first(), s));
        }
    } else {
        assert(es2.drop_first() =~= es.drop_first());
    }
}

proof fn lemma_recorded_push(es: Seq<(ProgressStage, u128)>, stage: ProgressStage, n: u128)
    requires
        forall|j: int| 0 <= j < es.len() ==> es[j].0 != stage,
    ensures
        recorded_nanos(es.push((stage, n)), stage) == n,
        recorded_nanos(es, stage) == 0,
        has_stage(es.push((stage, n)), stage),
        forall|s: ProgressStage| s != stage ==> recorded_nanos(#[trigger] es.push((stage, n)), s)
            == recorded_nanos(es, s),
    decreases es.len(),
{
    let es2 = es.push((stage, n));
    assert(es2[es.len() as int].0 == stage);
    if es.len() > 0 {
        assert(es.drop_first().push((stage, n)) =~= es2.drop_first());
        lemma_recorded_push(es.drop_first(), stage, n);
        assert forall|s: ProgressStage| s != stage implies #[trigger] recorded_nanos(es.push((stage, n)), s) == recorded_nanos(es, s) by {
            assert(es2[0] == es[0]);
            assert(recorded_nanos(es.drop_first().push((stage, n)), s) == recorded_nanos(es.drop_first(), s));
        }
    } else {
        assert(es2.drop_first() =~= Seq::<(ProgressStage, u128)>::empty());
        assert forall|s: ProgressStage| s != stage implies #[trigger] recorded_nanos(es.push((stage, n)), s) == recorded_nanos(es, s) by {
            assert(recorded_nanos(es2.drop_first(), s) == 0);
        }
    }
}

} // verus!
