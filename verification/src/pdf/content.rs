//! Page content streams: the operators that draw text, paths and images,
//! with numbers printed to three decimals.

use vstd::prelude::*;
use vstd::string::StrSliceExecFns;
use vstd::utf8::encode_utf8;
use crate::types::{Color, F32Bits, Point, Rect};
use crate::strings::{decimal, push_char, push_decimal, chars_of};
use crate::pdf::decimal_real::{real_fixed_text, fraction_digits, push_real_fixed, push_fraction_digits};

verus! {

/// A number of user space printed with three decimals (`{:.3}`).
pub open spec fn num3(v: F32Bits) -> Seq<char> {
    real_fixed_text(v.0, 3)
}

/// A color channel as a fraction of 255 with three decimals: `c × 1000 /
/// 255` rounded to the nearest whole number. This is the text `{:.3}`
/// gives for the single-precision quotient `c / 255`: the exact quotient
/// is never within `1/510000` of a tie, far beyond the quotient's rounding
/// error (below `2^-24`).
pub open spec fn channel_text(c: u8) -> Seq<char> {
    let q = (2000 * (c as nat) + 255) / 510;
    decimal(q / 1000) + "."@ + fraction_digits(q % 1000, 3)
}

/// The three channels of a color as fractions, separated by spaces.
pub open spec fn color_text(c: Color) -> Seq<char> {
    channel_text(c.r) + " "@ + channel_text(c.g) + " "@ + channel_text(c.b)
}

/// A character of shown text as written: `\`, `(` and `)` behind a
/// backslash, newline, return and tab as `\n`, `\r` and `\t`.
pub open spec fn text_char(c: char) -> Seq<char> {
    if c == '\\' || c == '(' || c == ')' {
        seq!['\\', c]
    } else if c == '\n' {
        seq!['\\', 'n']
    } else if c == '\r' {
        seq!['\\', 'r']
    } else if c == '\t' {
        seq!['\\', 't']
    } else {
        seq![c]
    }
}

/// Shown text as written.
pub open spec fn escaped_text(s: Seq<char>) -> Seq<char>
    decreases s.len(),
{
    if s.len() == 0 { Seq::empty() } else { escaped_text(s.drop_last()) + text_char(s.last()) }
}

/// A PDF page content builder
pub struct PageContent {
    /// The content stream so far.
    pub content: Vec<u8>,
    /// The last font set, with its size.
    pub current_font: Option<(String, F32Bits)>,
    /// The last fill color set.
    pub current_color: Option<Color>,
}

/// `p` is `q` with `text` appended to its content stream (as UTF-8) and
/// the font and color kept.
pub open spec fn appended(p: PageContent, q: PageContent, text: Seq<char>) -> bool {
    &&& p.content@ == q.content@ + encode_utf8(text)
    &&& p.current_font == q.current_font
    &&& p.current_color == q.current_color
}

/// Appends the text of a color channel.
fn push_channel(out: &mut String, c: u8)
    ensures
        final(out)@ == old(out)@ + channel_text(c),
{
    let q: u32 = (2000 * (c as u32) + 255) / 510;
    push_decimal(out, (q / 1000) as u128);
    out.append(".");
    let r = q % 1000;
    proof { reveal_with_fuel(crate::pdf::svg::pow10, 4); }
    push_fraction_digits(out, r as u128, 3);
    assert(final(out)@ =~= old(out)@ + channel_text(c));
}

impl PageContent {
    pub fn new() -> (r: Self)
        ensures
            r.content@.len() == 0,
            r.current_font is None,
            r.current_color is None,
    {
        PageContent { content: Vec::new(), current_font: None, current_color: None }
    }

    /// Appends the UTF-8 bytes of `line` to the content stream.
    fn emit(&mut self, line: String)
        ensures
            appended(*final(self), *old(self), line@),
    {
        let mut bytes = line.as_str().as_bytes_vec();
        self.content.append(&mut bytes);
    }

    /// Start a new text object
    pub fn begin_text(&mut self)
        ensures
            appended(*final(self), *old(self), "BT\n"@),
    {
        self.emit(String::from_str("BT\n"));
    }

    /// End text object
    pub fn end_text(&mut self)
        ensures
            appended(*final(self), *old(self), "ET\n"@),
    {
        self.emit(String::from_str("ET\n"));
    }

    /// Set text position
    pub fn text_position(&mut self, x: F32Bits, y: F32Bits)
        ensures
            appended(*final(self), *old(self), num3(x) + " "@ + num3(y) + " Td\n"@),
    {
        let mut s = String::new();
        push_real_fixed(&mut s, x.0, 3);
        s.append(" ");
        push_real_fixed(&mut s, y.0, 3);
        s.append(" Td\n");
        proof { reveal_strlit(""); }
        assert(s@ =~= num3(x) + " "@ + num3(y) + " Td\n"@);
        self.emit(s);
    }

    /// Set font
    pub fn set_font(&mut self, font_name: &str, size: F32Bits)
        ensures
            final(self).content@ == old(self).content@ + encode_utf8("/"@ + font_name@ + " "@ + num3(size) + " Tf\n"@),
            final(self).current_font matches Some((n, sz)) && n@ == font_name@ && sz == size,
            final(self).current_color == old(self).current_color,
    {
        self.current_font = Some((String::from_str(font_name), size));
        let mut s = String::from_str("/");
        s.append(font_name);
        s.append(" ");
        push_real_fixed(&mut s, size.0, 3);
        s.append(" Tf\n");
        self.emit(s);
    }

    /// Show text
    pub fn show_text(&mut self, text: &str)
        ensures
            appended(*final(self), *old(self), "("@ + escaped_text(text@) + ") Tj\n"@),
    {
        let cs = chars_of(text);
        let mut s = String::from_str("(");
        let mut i: usize = 0;
        let ghost start = s@;
        while i < cs.len()
            invariant
                i <= cs@.len(),
                cs@ == text@,
                s@ == start + escaped_text(cs@.subrange(0, i as int)),
            decreases cs@.len() - i,
        {
            let c = cs[i];
            if c == '\\' || c == '(' || c == ')' {
                push_char(&mut s, '\\');
                push_char(&mut s, c);
            } else if c == '\n' {
                push_char(&mut s, '\\');
                push_char(&mut s, 'n');
            } else if c == '\r' {
                push_char(&mut s, '\\');
                push_char(&mut s, 'r');
            } else if c == '\t' {
                push_char(&mut s, '\\');
                push_char(&mut s, 't');
            } else {
                push_char(&mut s, c);
            }
            proof {
                assert(cs@.subrange(0, i + 1).drop_last() =~= cs@.subrange(0, i as int));
                assert(s@ =~= start + escaped_text(cs@.subrange(0, i + 1)));
            }
            i = i + 1;
        }
        assert(cs@.subrange(0, cs@.len() as int) =~= cs@);
        s.append(") Tj\n");
        self.emit(s);
    }

    /// Set fill color
    pub fn set_fill_color(&mut self, color: Color)
        ensures
            final(self).content@ == old(self).content@ + encode_utf8(color_text(color) + " rg\n"@),
            final(self).current_color == Some(color),
            final(self).current_font == old(self).current_font,
    {
        self.current_color = Some(color);
        let mut s = String::new();
        push_channel(&mut s, color.r);
        s.append(" ");
        push_channel(&mut s, color.g);
        s.append(" ");
        push_channel(&mut s, color.b);
        s.append(" rg\n");
        proof { reveal_strlit(""); }
        assert(s@ =~= color_text(color) + " rg\n"@);
        self.emit(s);
    }

    /// Set stroke color
    pub fn set_stroke_color(&mut self, color: Color)
        ensures
            appended(*final(self), *old(self), color_text(color) + " RG\n"@),
    {
        let mut s = String::new();
        push_channel(&mut s, color.r);
        s.append(" ");
        push_channel(&mut s, color.g);
        s.append(" ");
        push_channel(&mut s, color.b);
        s.append(" RG\n");
        proof { reveal_strlit(""); }
        assert(s@ =~= color_text(color) + " RG\n"@);
        self.emit(s);
    }

    /// Draw a rectangle
    pub fn draw_rect(&mut self, rect: Rect)
        ensures
            appended(*final(self), *old(self),
                num3(rect.x) + " "@ + num3(rect.y) + " "@ + num3(rect.width) + " "@ + num3(rect.height) + " re\n"@),
    {
        let mut s = String::new();
        push_real_fixed(&mut s, rect.x.0, 3);
        s.append(" ");
        push_real_fixed(&mut s, rect.y.0, 3);
        s.append(" ");
        push_real_fixed(&mut s, rect.width.0, 3);
        s.append(" ");
        push_real_fixed(&mut s, rect.height.0, 3);
        s.append(" re\n");
        proof { reveal_strlit(""); }
        assert(s@ =~= num3(rect.x) + " "@ + num3(rect.y) + " "@ + num3(rect.width) + " "@ + num3(rect.height) + " re\n"@);
        self.emit(s);
    }

    /// Fill path
    pub fn fill(&mut self)
        ensures
            appended(*final(self), *old(self), "f\n"@),
    {
        self.emit(String::from_str("f\n"));
    }

    /// Stroke path
    pub fn stroke(&mut self)
        ensures
            appended(*final(self), *old(self), "S\n"@),
    {
        self.emit(String::from_str("S\n"));
    }

    /// Fill and stroke (non-zero winding rule)
    pub fn fill_and_stroke(&mut self)
        ensures
            appended(*final(self), *old(self), "B\n"@),
    {
        self.emit(String::from_str("B\n"));
    }

    /// Fill and stroke with even-odd rule
    pub fn fill_and_stroke_even_odd(&mut self)
        ensures
            appended(*final(self), *old(self), "B*\n"@),
    {
        self.emit(String::from_str("B*\n"));
    }

    /// Fill with even-odd rule
    pub fn fill_even_odd(&mut self)
        ensures
            appended(*final(self), *old(self), "f*\n"@),
    {
        self.emit(String::from_str("f*\n"));
    }

    /// Draw a line
    pub fn draw_line(&mut self, from: Point, to: Point)
        ensures
            appended(*final(self), *old(self),
                num3(from.x) + " "@ + num3(from.y) + " m\n"@ + num3(to.x) + " "@ + num3(to.y) + " l\n"@),
    {
        let mut s = String::new();
        push_real_fixed(&mut s, from.x.0, 3);
        s.append(" ");
        push_real_fixed(&mut s, from.y.0, 3);
        s.append(" m\n");
        push_real_fixed(&mut s, to.x.0, 3);
        s.append(" ");
        push_real_fixed(&mut s, to.y.0, 3);
        s.append(" l\n");
        proof { reveal_strlit(""); }
        assert(s@ =~= num3(from.x) + " "@ + num3(from.y) + " m\n"@ + num3(to.x) + " "@ + num3(to.y) + " l\n"@);
        self.emit(s);
    }

    /// Set line width
    pub fn set_line_width(&mut self, width: F32Bits)
        ensures
            appended(*final(self), *old(self), num3(width) + " w\n"@),
    {
        let mut s = String::new();
        push_real_fixed(&mut s, width.0, 3);
        s.append(" w\n");
        proof { reveal_strlit(""); }
        assert(s@ =~= num3(width) + " w\n"@);
        self.emit(s);
    }

    /// Draw an image: the image scaled to `width` by `height` at `(x, y)`,
    /// inside a saved graphics state.
    pub fn draw_image(&mut self, image_name: &str, x: F32Bits, y: F32Bits, width: F32Bits, height: F32Bits)
        ensures
            appended(*final(self), *old(self),
                "q\n"@ + num3(width) + " 0 0 "@ + num3(height) + " "@ + num3(x) + " "@ + num3(y) + " cm\n"@
                + "/"@ + image_name@ + " Do\n"@ + "Q\n"@),
    {
        let mut s = String::from_str("q\n");
        push_real_fixed(&mut s, width.0, 3);
        s.append(" 0 0 ");
        push_real_fixed(&mut s, height.0, 3);
        s.append(" ");
        push_real_fixed(&mut s, x.0, 3);
        s.append(" ");
        push_real_fixed(&mut s, y.0, 3);
        s.append(" cm\n");
        s.append("/");
        s.append(image_name);
        s.append(" Do\n");
        s.append("Q\n");
        self.emit(s);
    }

    /// Save graphics state
    pub fn save_state(&mut self)
        ensures
            appended(*final(self), *old(self), "q\n"@),
    {
        self.emit(String::from_str("q\n"));
    }

    /// Restore graphics state
    pub fn restore_state(&mut self)
        ensures
            appended(*final(self), *old(self), "Q\n"@),
    {
        self.emit(String::from_str("Q\n"));
    }

    /// Get the content as bytes
    pub fn into_bytes(self) -> (r: Vec<u8>)
        ensures
            r@ == self.content@,
    {
        self.content
    }

    /// Get content length
    pub fn len(&self) -> (r: usize)
        ensures
            r == self.content@.len(),
    {
        self.content.len()
    }

    pub fn is_empty(&self) -> (r: bool)
        ensures
            r == (self.content@.len() == 0),
    {
        self.content.len() == 0
    }

    /// Append raw PDF content
    pub fn append_raw(&mut self, s: &str)
        ensures
            appended(*final(self), *old(self), s@),
    {
        self.emit(String::from_str(s));
    }
}

impl Default for PageContent {
    fn default() -> (r: Self)
        ensures
            r.content@.len() == 0,
            r.current_font is None,
            r.current_color is None,
    {
        PageContent::new()
    }
}

} // verus!
