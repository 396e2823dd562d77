//! Text breaking properties, break opportunities, white-space collapsing
//! and case transforms.

use vstd::prelude::*;
use crate::strings::{chars_of, chars_from, split_ws, words, word_len, lemma_word_len_bound, is_ws, is_whitespace,
    string_of, push_char};
use crate::layout::style::{TextTransform, WhiteSpace, WordWrap};
use crate::types::{F32Bits, f32_gt};
use crate::binary32::f32_product;

verus! {

/// Text metrics for a font at a given size
#[derive(Debug, Clone, Copy, PartialEq, Eq, Structural)]
pub struct TextMetrics {
    /// Font size in points
    pub font_size: F32Bits,
    /// Ascent (distance from baseline to top)
    pub ascent: F32Bits,
    /// Descent (distance from baseline to bottom)
    pub descent: F32Bits,
    /// Line height
    pub line_height: F32Bits,
    /// Average character width (approximate)
    pub avg_char_width: F32Bits,
    /// Space width
    pub space_width: F32Bits,
    /// X-height (height of lowercase 'x')
    pub x_height: F32Bits,
}

/// The metrics of a font size: ascent 0.8, descent 0.2, line height 1.2,
/// average character width and x-height 0.5, space width 0.25 of it
/// (each product in single precision).
pub open spec fn metrics_of(font_size: F32Bits) -> TextMetrics {
    TextMetrics {
        font_size,
        ascent: F32Bits(f32_product(font_size.0, 0x3F4C_CCCD)),
        descent: F32Bits(f32_product(font_size.0, 0x3E4C_CCCD)),
        line_height: F32Bits(f32_product(font_size.0, 0x3F99_999A)),
        avg_char_width: F32Bits(f32_product(font_size.0, 0x3F00_0000)),
        space_width: F32Bits(f32_product(font_size.0, 0x3E80_0000)),
        x_height: F32Bits(f32_product(font_size.0, 0x3F00_0000)),
    }
}

impl TextMetrics {
    pub fn new(font_size: F32Bits) -> (r: Self)
        ensures
            r == metrics_of(font_size),
    {
        let ascent = font_size.product(&F32Bits(0x3F4C_CCCD));
        let descent = font_size.product(&F32Bits(0x3E4C_CCCD));
        let line_height = font_size.product(&F32Bits(0x3F99_999A));
        let avg_char_width = font_size.product(&F32Bits(0x3F00_0000));
        let space_width = font_size.product(&F32Bits(0x3E80_0000));
        let x_height = font_size.product(&F32Bits(0x3F00_0000));
        TextMetrics { font_size, ascent, descent, line_height, avg_char_width, space_width, x_height }
    }

    /// Get the height of a line
    pub fn line_height(&self) -> (r: F32Bits)
        ensures
            r == self.line_height,
    {
        self.line_height
    }

    /// Get the baseline offset from the top of the line
    pub fn baseline_offset(&self) -> (r: F32Bits)
        ensures
            r == self.ascent,
    {
        self.ascent
    }
}

/// Word break behavior
#[derive(Debug, Clone, Copy, PartialEq, Eq, Structural)]
pub enum WordBreak {
    Normal,
    BreakAll,
    KeepAll,
}

/// Overflow wrap behavior
#[derive(Debug, Clone, Copy, PartialEq, Eq, Structural)]
pub enum OverflowWrap {
    Normal,
    BreakWord,
    Anywhere,
}

/// A character of the CJK ideographs, Hiragana, Katakana or Hangul blocks.
pub open spec fn is_cjk(c: char) -> bool {
    let v = c as u32;
    (0x4E00 <= v && v <= 0x9FFF) || (0x3040 <= v && v <= 0x309F) || (0x30A0 <= v && v <= 0x30FF)
        || (0xAC00 <= v && v <= 0xD7AF)
}

/// Whether a line may break at `ch` (after `prev`): anywhere under
/// `break-all`; at white space or a hyphen under `keep-all`; and under
/// `normal` also between two CJK characters.
pub open spec fn break_allowed(wb: WordBreak, ch: char, prev: Option<char>) -> bool {
    match wb {
        WordBreak::BreakAll => true,
        WordBreak::KeepAll => is_ws(ch) || ch == '-',
        WordBreak::Normal => is_ws(ch) || ch == '-' || (prev matches Some(p) && is_cjk(p) && is_cjk(ch)),
    }
}

fn cjk(c: char) -> (r: bool)
    ensures
        r == is_cjk(c),
{
    let v = c as u32;
    (0x4E00 <= v && v <= 0x9FFF) || (0x3040 <= v && v <= 0x309F) || (0x30A0 <= v && v <= 0x30FF)
        || (0xAC00 <= v && v <= 0xD7AF)
}

/// Word breaking state
#[derive(Debug, Clone)]
pub struct WordBreaker {
    pub word_break: WordBreak,
    pub overflow_wrap: OverflowWrap,
}

impl WordBreaker {
    pub fn new(word_break: WordBreak, overflow_wrap: OverflowWrap) -> (r: Self)
        ensures
            r.word_break == word_break,
            r.overflow_wrap == overflow_wrap,
    {
        WordBreaker { word_break, overflow_wrap }
    }

    /// Whether a line may break at `ch`, `prev_ch` being the character before it.
    pub fn can_break_at(&self, ch: char, prev_ch: Option<char>) -> (r: bool)
        ensures
            r == break_allowed(self.word_break, ch, prev_ch),
    {
        match self.word_break {
            WordBreak::BreakAll => true,
            WordBreak::KeepAll => is_whitespace(ch) || ch == '-',
            WordBreak::Normal => {
                if is_whitespace(ch) {
                    true
                } else if ch == '-' {
                    true
                } else if let Some(prev) = prev_ch {
                    cjk(prev) && cjk(ch)
                } else {
                    false
                }
            },
        }
    }

    /// Whether a word of `width` is split to fit `max_width`: only when
    /// overflow-wrap allows it and the word is wider.
    pub fn should_break_word(&self, word: &str, width: F32Bits, max_width: F32Bits) -> (r: bool)
        ensures
            r == ((self.overflow_wrap is BreakWord || self.overflow_wrap is Anywhere) && f32_gt(width.0, max_width.0)),
    {
        match self.overflow_wrap {
            OverflowWrap::BreakWord | OverflowWrap::Anywhere => width.gt(&max_width),
            OverflowWrap::Normal => false,
        }
    }
}

/// A piece of text between break opportunities.
#[derive(Debug, Clone)]
pub struct WordInfo {
    pub text: String,
    pub is_break_opportunity: bool,
}

/// The pieces finished and the piece in progress after reading `s`: white
/// space ends a piece and is dropped; a break opportunity before a
/// character ends the piece in progress and starts a new one with it.
pub open spec fn split_state(wb: WordBreak, s: Seq<char>) -> (Seq<Seq<char>>, Seq<char>)
    decreases s.len(),
{
    if s.len() == 0 {
        (Seq::empty(), Seq::empty())
    } else {
        let st = split_state(wb, s.drop_last());
        let done = st.0;
        let cur = st.1;
        let ch = s.last();
        let prev = if s.len() >= 2 { Some(s[s.len() - 2]) } else { None::<char> };
        if is_ws(ch) {
            if cur.len() > 0 { (done.push(cur), Seq::empty()) } else { (done, cur) }
        } else if break_allowed(wb, ch, prev) && cur.len() > 0 {
            (done.push(cur), seq![ch])
        } else {
            (done, cur.push(ch))
        }
    }
}

/// The pieces of a text, the last one included when it is not empty.
pub open spec fn split_pieces(wb: WordBreak, s: Seq<char>) -> Seq<Seq<char>> {
    let st = split_state(wb, s);
    if st.1.len() > 0 { st.0.push(st.1) } else { st.0 }
}

impl WordBreaker {
    /// Splits a text into pieces at white space and at break opportunities.
    pub fn split_text_into_words(&self, text: &str) -> (r: Vec<WordInfo>)
        ensures
            r@.len() == split_pieces(self.word_break, text@).len(),
            forall|k: int| 0 <= k < r@.len() ==> (#[trigger] r@[k]).text@ == split_pieces(self.word_break, text@)[k]
                && r@[k].is_break_opportunity,
    {
        let cs = chars_of(text);
        let ghost wb = self.word_break;
        let mut words: Vec<WordInfo> = Vec::new();
        let mut cur: Vec<char> = Vec::new();
        let mut prev_ch: Option<char> = None;
        let mut i: usize = 0;
        assert(cs@.take(0) =~= Seq::<char>::empty());
        while i < cs.len()
            invariant
                i <= cs@.len(),
                cs@ == text@,
                wb == self.word_break,
                prev_ch == (if i > 0 { Some(cs@[i - 1]) } else { None::<char> }),
                cur@ == split_state(wb, cs@.take(i as int)).1,
                words@.len() == split_state(wb, cs@.take(i as int)).0.len(),
                forall|k: int| 0 <= k < words@.len() ==> (#[trigger] words@[k]).text@
                    == split_state(wb, cs@.take(i as int)).0[k] && words@[k].is_break_opportunity,
            decreases cs@.len() - i,
        {
            let ch = cs[i];
            let ghost t = cs@.take(i + 1);
            proof {
                assert(t.drop_last() =~= cs@.take(i as int));
                assert(t.last() == ch);
                if i >= 1 {
                    assert(t[t.len() - 2] == cs@[i - 1]);
                }
            }
            if is_whitespace(ch) {
                if cur.len() > 0 {
                    words.push(WordInfo { text: string_of(&cur), is_break_opportunity: true });
                    cur = Vec::new();
                }
            } else if self.can_break_at(ch, prev_ch) && cur.len() > 0 {
                words.push(WordInfo { text: string_of(&cur), is_break_opportunity: true });
                cur = Vec::new();
                cur.push(ch);
            } else {
                cur.push(ch);
            }
            proof {
                assert(cur@ =~= split_state(wb, t).1);
            }
            prev_ch = Some(ch);
            i = i + 1;
        }
        assert(cs@.take(cs@.len() as int) =~= cs@);
        if cur.len() > 0 {
            words.push(WordInfo { text: string_of(&cur), is_break_opportunity: true });
        }
        words
    }
}

/// The word-break that a `word-wrap` value stands for.
pub open spec fn word_break_of(w: WordWrap) -> WordBreak {
    match w {
        WordWrap::BreakWord => WordBreak::BreakAll,
        WordWrap::Anywhere => WordBreak::BreakAll,
        WordWrap::Normal => WordBreak::Normal,
    }
}

/// The word-break of a style, read from its `word-wrap`.
pub fn parse_word_break(word_wrap: WordWrap) -> (r: WordBreak)
    ensures
        r == word_break_of(word_wrap),
{
    match word_wrap {
        WordWrap::BreakWord => WordBreak::BreakAll,
        WordWrap::Anywhere => WordBreak::BreakAll,
        WordWrap::Normal => WordBreak::Normal,
    }
}

/// The overflow-wrap that a `word-wrap` value stands for.
pub open spec fn overflow_wrap_of(w: WordWrap) -> OverflowWrap {
    match w {
        WordWrap::BreakWord => OverflowWrap::BreakWord,
        WordWrap::Anywhere => OverflowWrap::Anywhere,
        WordWrap::Normal => OverflowWrap::Normal,
    }
}

/// The overflow-wrap of a style, read from its `word-wrap`.
pub fn parse_overflow_wrap(word_wrap: WordWrap) -> (r: OverflowWrap)
    ensures
        r == overflow_wrap_of(word_wrap),
{
    match word_wrap {
        WordWrap::BreakWord => OverflowWrap::BreakWord,
        WordWrap::Anywhere => OverflowWrap::Anywhere,
        WordWrap::Normal => OverflowWrap::Normal,
    }
}

/// Words joined with single spaces.
pub open spec fn join_spaced(ws: Seq<Seq<char>>) -> Seq<char>
    decreases ws.len(),
{
    if ws.len() == 0 {
        Seq::empty()
    } else if ws.len() == 1 {
        ws[0]
    } else {
        join_spaced(ws.drop_last()) + seq![' '] + ws.last()
    }
}

/// The text as white-space handling lays it out: kept as it is under
/// `pre` and `pre-wrap`, else its words joined by single spaces.
pub open spec fn collapsed_text(s: Seq<char>, white_space: WhiteSpace) -> Seq<char> {
    match white_space {
        WhiteSpace::Pre | WhiteSpace::PreWrap => s,
        _ => join_spaced(words(s)),
    }
}

/// A word: not empty and without white space.
pub open spec fn is_word(w: Seq<char>) -> bool {
    w.len() > 0 && forall|j: int| 0 <= j < w.len() ==> !is_ws(#[trigger] w[j])
}

proof fn lemma_word_len_append(a: Seq<char>, t: Seq<char>)
    requires
        word_len(a) < a.len() || (t.len() > 0 && is_ws(t[0])),
    ensures
        word_len(a + t) == word_len(a),
    decreases a.len(),
{
    if a.len() == 0 {
        assert((a + t)[0] == t[0]);
    } else {
        assert((a + t)[0] == a[0]);
        if !is_ws(a[0]) {
            assert((a + t).drop_first() =~= a.drop_first() + t);
            lemma_word_len_append(a.drop_first(), t);
        }
    }
}

/// A space separates: the words of `a`, a space and `b` are those of `a`
/// followed by those of `b`.
proof fn lemma_words_space(a: Seq<char>, b: Seq<char>)
    ensures
        words(a + seq![' '] + b) == words(a) + words(b),
    decreases a.len(),
{
    let s = a + seq![' '] + b;
    assert(is_ws(' '));
    if a.len() == 0 {
        assert(s[0] == ' ');
        assert(s.drop_first() =~= b);
        assert(words(a) =~= Seq::<Seq<char>>::empty());
        assert(words(a) + words(b) =~= words(b));
    } else if is_ws(a[0]) {
        assert(s[0] == a[0]);
        assert(s.drop_first() =~= a.drop_first() + seq![' '] + b);
        lemma_words_space(a.drop_first(), b);
    } else {
        assert(s[0] == a[0]);
        lemma_word_len_bound(a);
        let k = word_len(a);
        assert(s =~= a + (seq![' '] + b));
        lemma_word_len_append(a, seq![' '] + b);
        assert(s.take(k as int) =~= a.take(k as int));
        assert(s.skip(k as int) =~= a.skip(k as int) + seq![' '] + b);
        lemma_words_space(a.skip(k as int), b);
        assert(words(a) == seq![a.take(k as int)] + words(a.skip(k as int)));
        assert(words(s) == seq![s.take(k as int)] + words(s.skip(k as int)));
        assert(words(s) =~= words(a) + words(b));
    }
}

/// A word's only word is itself.
proof fn lemma_words_of_word(w: Seq<char>)
    requires
        is_word(w),
    ensures
        words(w) == seq![w],
{
    assert forall|i: int| 0 <= i <= w.len() implies word_len(w.skip(i)) == w.len() - i by {
        lemma_word_len_tail(w, i);
    }
    assert(w.skip(0) =~= w);
    assert(w.take(w.len() as int) =~= w);
    assert(w.skip(w.len() as int) =~= Seq::<char>::empty());
    assert(words(w.skip(w.len() as int)) =~= Seq::<Seq<char>>::empty());
    assert(words(w) =~= seq![w]);
}

proof fn lemma_word_len_tail(w: Seq<char>, i: int)
    requires
        0 <= i <= w.len(),
        forall|j: int| 0 <= j < w.len() ==> !is_ws(#[trigger] w[j]),
    ensures
        word_len(w.skip(i)) == w.len() - i,
    decreases w.len() - i,
{
    if i < w.len() {
        assert(w.skip(i)[0] == w[i]);
        assert(w.skip(i).drop_first() =~= w.skip(i + 1));
        lemma_word_len_tail(w, i + 1);
    }
}

/// The words of a text are words.
proof fn lemma_words_are_words(s: Seq<char>)
    ensures
        forall|i: int| 0 <= i < words(s).len() ==> is_word(#[trigger] words(s)[i]),
    decreases s.len(),
{
    if s.len() > 0 {
        if is_ws(s[0]) {
            lemma_words_are_words(s.drop_first());
            assert(words(s) == words(s.drop_first()));
        } else {
            lemma_word_len_bound(s);
            let k = word_len(s);
            lemma_words_are_words(s.skip(k as int));
            let ws = words(s);
            assert(ws == seq![s.take(k as int)] + words(s.skip(k as int)));
            assert forall|i: int| 0 <= i < ws.len() implies is_word(#[trigger] ws[i]) by {
                if i == 0 {
                    let w = s.take(k as int);
                    assert(ws[0] == w);
                    assert(k >= 1);
                    assert forall|j: int| 0 <= j < w.len() implies !is_ws(#[trigger] w[j]) by {
                        assert(w[j] == s[j]);
                    }
                } else {
                    assert(ws[i] == words(s.skip(k as int))[i - 1]);
                }
            }
        }
    }
}

/// Joining words with single spaces gives back the same words.
proof fn lemma_words_join(ws: Seq<Seq<char>>)
    requires
        forall|i: int| 0 <= i < ws.len() ==> is_word(#[trigger] ws[i]),
    ensures
        words(join_spaced(ws)) == ws,
    decreases ws.len(),
{
    if ws.len() == 0 {
        assert(words(Seq::<char>::empty()) =~= Seq::<Seq<char>>::empty());
    } else if ws.len() == 1 {
        lemma_words_of_word(ws[0]);
        assert(seq![ws[0]] =~= ws);
    } else {
        let init = ws.drop_last();
        assert forall|i: int| 0 <= i < init.len() implies is_word(#[trigger] init[i]) by {
            assert(init[i] == ws[i]);
        }
        lemma_words_join(init);
        lemma_words_space(join_spaced(init), ws.last());
        lemma_words_of_word(ws.last());
        assert(init + seq![ws.last()] =~= ws);
    }
}

/// Collapsing white space twice gives what collapsing it once gives.
pub proof fn lemma_collapse_idempotent(s: Seq<char>, white_space: WhiteSpace)
    ensures
        collapsed_text(collapsed_text(s, white_space), white_space) == collapsed_text(s, white_space),
{
    match white_space {
        WhiteSpace::Pre | WhiteSpace::PreWrap => {},
        _ => {
            lemma_words_are_words(s);
            lemma_words_join(words(s));
        },
    }
}

/// Appends the characters of `v`.
fn push_chars(out: &mut String, v: &Vec<char>)
    ensures
        final(out)@ == old(out)@ + v@,
{
    let mut i: usize = 0;
    while i < v.len()
        invariant
            i <= v@.len(),
            out@ == old(out)@ + v@.take(i as int),
        decreases v@.len() - i,
    {
        push_char(out, v[i]);
        assert(v@.take(i + 1) =~= v@.take(i as int).push(v@[i as int]));
        i = i + 1;
    }
    assert(v@.take(v@.len() as int) =~= v@);
}

/// Collapse white space according to CSS rules
pub fn collapse_whitespace(text: &str, white_space: WhiteSpace) -> (r: String)
    ensures
        r@ == collapsed_text(text@, white_space),
{
    match white_space {
        WhiteSpace::Pre | WhiteSpace::PreWrap => String::from_str(text),
        _ => {
            let cs = chars_of(text);
            let ws = split_ws(&cs);
            let ghost wv = ws@.map_values(|w: Vec<char>| w@);
            let mut out = String::new();
            let mut i: usize = 0;
            while i < ws.len()
                invariant
                    i <= ws@.len(),
                    wv == ws@.map_values(|w: Vec<char>| w@),
                    wv == words(text@),
                    out@ == join_spaced(wv.take(i as int)),
                decreases ws@.len() - i,
            {
                let ghost before = out@;
                if i > 0 {
                    push_char(&mut out, ' ');
                }
                push_chars(&mut out, &ws[i]);
                proof {
                    let t = wv.take(i + 1);
                    assert(t.drop_last() =~= wv.take(i as int));
                    assert(t.last() == ws@[i as int]@);
                    if i == 0 {
                        assert(wv.take(0) =~= Seq::<Seq<char>>::empty());
                        assert(out@ =~= t[0]);
                    }
                }
                i = i + 1;
            }
            assert(wv.take(ws@.len() as int) =~= wv);
            out
        },
    }
}

/// What `str::to_uppercase` gives for a text.
pub uninterp spec fn upper_text(s: Seq<char>) -> Seq<char>;

/// What `str::to_lowercase` gives for a text.
pub uninterp spec fn lower_text(s: Seq<char>) -> Seq<char>;

/// What `char::to_uppercase` gives for a character, collected into a text.
pub uninterp spec fn upper_char(c: char) -> Seq<char>;

/// `str::to_uppercase`: its result is named `upper_text` of the text
/// (the Unicode case mapping is not written out here).
#[verifier::external_body]
fn text_to_upper(s: &str) -> (r: String)
    ensures
        r@ == upper_text(s@),
{
    s.to_uppercase()
}

/// `str::to_lowercase`: its result is named `lower_text` of the text.
#[verifier::external_body]
fn text_to_lower(s: &str) -> (r: String)
    ensures
        r@ == lower_text(s@),
{
    s.to_lowercase()
}

/// `char::to_uppercase`, collected into a string: its result is named
/// `upper_char` of the character.
#[verifier::external_body]
fn char_to_upper(c: char) -> (r: String)
    ensures
        r@ == upper_char(c),
{
    c.to_uppercase().collect::<String>()
}

/// A word with its first character uppercased and the rest lowercased.
pub open spec fn capitalized(w: Seq<char>) -> Seq<char> {
    if w.len() == 0 { Seq::empty() } else { upper_char(w[0]) + lower_text(w.skip(1)) }
}

/// Each word capitalized.
pub open spec fn capitalized_words(ws: Seq<Seq<char>>) -> Seq<Seq<char>> {
    Seq::new(ws.len(), |i: int| capitalized(ws[i]))
}

/// The text a `text-transform` makes of `s`; `capitalize` also collapses
/// white space between words to single spaces.
pub open spec fn transformed_text(s: Seq<char>, transform: TextTransform) -> Seq<char> {
    match transform {
        TextTransform::NoTransform => s,
        TextTransform::Uppercase => upper_text(s),
        TextTransform::Lowercase => lower_text(s),
        TextTransform::Capitalize => join_spaced(capitalized_words(words(s))),
    }
}

/// One word capitalized.
fn capitalize_word(w: &Vec<char>) -> (r: String)
    ensures
        r@ == capitalized(w@),
{
    if w.len() == 0 {
        return String::new();
    }
    let mut out = char_to_upper(w[0]);
    let rest = string_of(&chars_from(w, 1));
    let low = text_to_lower(rest.as_str());
    out.append(low.as_str());
    out
}

/// Apply text transformation
pub fn apply_text_transform(text: &str, transform: TextTransform) -> (r: String)
    ensures
        r@ == transformed_text(text@, transform),
{
    match transform {
        TextTransform::NoTransform => String::from_str(text),
        TextTransform::Uppercase => text_to_upper(text),
        TextTransform::Lowercase => text_to_lower(text),
        TextTransform::Capitalize => {
            let cs = chars_of(text);
            let ws = split_ws(&cs);
            let ghost wv = ws@.map_values(|w: Vec<char>| w@);
            let ghost cw = capitalized_words(wv);
            let mut out = String::new();
            let mut i: usize = 0;
            while i < ws.len()
                invariant
                    i <= ws@.len(),
                    wv == ws@.map_values(|w: Vec<char>| w@),
                    wv == words(text@),
                    cw == capitalized_words(wv),
                    out@ == join_spaced(cw.take(i as int)),
                decreases ws@.len() - i,
            {
                if i > 0 {
                    push_char(&mut out, ' ');
                }
                let c = capitalize_word(&ws[i]);
                out.append(c.as_str());
                proof {
                    let t = cw.take(i + 1);
                    assert(t.drop_last() =~= cw.take(i as int));
                    assert(t.last() == capitalized(ws@[i as int]@));
                    if i == 0 {
                        assert(cw.take(0) =~= Seq::<Seq<char>>::empty());
                        assert(out@ =~= t[0]);
                    }
                }
                i = i + 1;
            }
            assert(cw.take(ws@.len() as int) =~= cw);
            out
        },
    }
}


/// The columns a character occupies (`UnicodeWidthChar::width` of the
/// `unicode-width` crate): `None` for control characters.
pub uninterp spec fn char_columns(c: char) -> Option<usize>;

/// `UnicodeWidthChar::width`: its result is named `char_columns` of the
/// character (the Unicode width tables are not written out here).
#[verifier::external_body]
fn unicode_char_width(c: char) -> (r: Option<usize>)
    ensures
        r == char_columns(c),
{
    unicode_width::UnicodeWidthChar::width(c)
}

/// The columns a character counts for when text is measured: its Unicode
/// width, or 1 for a control character.
pub open spec fn measured_columns(c: char) -> int {
    match char_columns(c) {
        Some(w) => w as int,
        None => 1,
    }
}

/// The spaces of a text and the columns of its other characters.
pub open spec fn text_units(s: Seq<char>) -> (int, int)
    decreases s.len(),
{
    if s.len() == 0 {
        (0, 0)
    } else {
        let (sp, cols) = text_units(s.drop_last());
        if s.last() == ' ' { (sp + 1, cols) } else { (sp, cols + measured_columns(s.last())) }
    }
}

/// What a text's width is made of: its number of spaces (each as wide as a
/// space) and the columns of its other characters (each column as wide as
/// an average character), the latter saturated at `u128::MAX`.
pub fn measure_units(text: &str) -> (r: (usize, u128))
    ensures
        r.0 == text_units(text@).0,
        text_units(text@).1 <= u128::MAX ==> r.1 == text_units(text@).1,
        text_units(text@).1 > u128::MAX ==> r.1 == u128::MAX,
{
    let cs = chars_of(text);
    let mut spaces: usize = 0;
    let mut cols: u128 = 0;
    let mut i: usize = 0;
    assert(cs@.take(0) =~= Seq::<char>::empty());
    while i < cs.len()
        invariant
            i <= cs@.len(),
            cs@ == text@,
            spaces == text_units(cs@.take(i as int)).0,
            spaces <= i,
            text_units(cs@.take(i as int)).1 >= 0,
            text_units(cs@.take(i as int)).1 <= u128::MAX ==> cols == text_units(cs@.take(i as int)).1,
            text_units(cs@.take(i as int)).1 > u128::MAX ==> cols == u128::MAX,
        decreases cs@.len() - i,
    {
        assert(cs@.take(i + 1).drop_last() =~= cs@.take(i as int));
        let c = cs[i];
        if c == ' ' {
            spaces = spaces + 1;
        } else {
            let w: u128 = match unicode_char_width(c) {
                Some(w) => w as u128,
                None => 1,
            };
            cols = cols.saturating_add(w);
        }
        i = i + 1;
    }
    assert(cs@.take(cs@.len() as int) =~= cs@);
    (spaces, cols)
}

} // verus!
