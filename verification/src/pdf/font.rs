//! PDF fonts: the standard Type 1 fonts, font dictionaries and simple
//! metrics.

use vstd::prelude::*;
use crate::pdf::object::{PdfDictionary, PdfObject};
use crate::strings::{str_eq, chars_of};

verus! {

/// PDF Font representation
#[derive(Debug, Clone, PartialEq)]
pub struct PdfFont {
    pub name: String,
    pub base_font: String,
    pub subtype: FontSubtype,
    pub encoding: Option<String>,
    pub descriptor: Option<FontDescriptor>,
}

/// Font subtypes of PDF
#[derive(Debug, Clone, Copy, PartialEq, Eq, Structural)]
pub enum FontSubtype {
    Type1,
    Type3,
    TrueType,
    CIDFontType0,
    CIDFontType2,
}

/// The PDF name of a font subtype.
pub open spec fn subtype_name(s: FontSubtype) -> Seq<char> {
    match s {
        FontSubtype::Type1 => "Type1"@,
        FontSubtype::Type3 => "Type3"@,
        FontSubtype::TrueType => "TrueType"@,
        FontSubtype::CIDFontType0 => "CIDFontType0"@,
        FontSubtype::CIDFontType2 => "CIDFontType2"@,
    }
}

impl FontSubtype {
    pub fn as_str(&self) -> (r: &'static str)
        ensures
            r@ == subtype_name(*self),
    {
        match self {
            FontSubtype::Type1 => "Type1",
            FontSubtype::Type3 => "Type3",
            FontSubtype::TrueType => "TrueType",
            FontSubtype::CIDFontType0 => "CIDFontType0",
            FontSubtype::CIDFontType2 => "CIDFontType2",
        }
    }
}

/// Font descriptor
#[derive(Debug, Clone, Copy, PartialEq, Eq, Default)]
pub struct FontDescriptor {
    pub ascent: i32,
    pub descent: i32,
    pub cap_height: i32,
    pub flags: u32,
    pub font_bbox: (i32, i32, i32, i32),
    pub italic_angle: i32,
    pub stem_v: i32,
}

impl PdfFont {
    /// Create a standard PDF font: Type 1 in WinAnsiEncoding, no descriptor
    pub fn standard(name: &str, base_font: &str) -> (r: Self)
        ensures
            r.name@ == name@,
            r.base_font@ == base_font@,
            r.subtype == FontSubtype::Type1,
            r.encoding matches Some(e) && e@ == "WinAnsiEncoding"@,
            r.descriptor is None,
    {
        PdfFont {
            name: String::from_str(name),
            base_font: String::from_str(base_font),
            subtype: FontSubtype::Type1,
            encoding: Some(String::from_str("WinAnsiEncoding")),
            descriptor: None,
        }
    }

    /// Convert to PDF dictionary: type, subtype, base font and encoding.
    pub fn to_dictionary(&self) -> (r: PdfDictionary)
        ensures
            r.value_of("Type"@) matches Some(PdfObject::Name(n)) && n@ == "Font"@,
            r.value_of("Subtype"@) matches Some(PdfObject::Name(n)) && n@ == subtype_name(self.subtype),
            r.value_of("BaseFont"@) matches Some(PdfObject::Name(n)) && n@ == self.base_font@,
            match self.encoding {
                Some(e) => r.value_of("Encoding"@) matches Some(PdfObject::Name(n)) && n@ == e@,
                None => r.value_of("Encoding"@) is None,
            },
            r.entries().len() == if self.encoding is Some { 4int } else { 3int },
    {
        proof {
            reveal_strlit("Type");
            reveal_strlit("Subtype");
            reveal_strlit("BaseFont");
            reveal_strlit("Encoding");
            assert("Type"@.len() == 4 && "Subtype"@.len() == 7 && "BaseFont"@.len() == 8 && "Encoding"@.len() == 8);
            assert("BaseFont"@[0] != "Encoding"@[0]);
        }
        let mut dict = PdfDictionary::new();
        dict.insert("Type", PdfObject::Name(String::from_str("Font")));
        dict.insert("Subtype", PdfObject::Name(String::from_str(self.subtype.as_str())));
        dict.insert("BaseFont", PdfObject::Name(self.base_font.clone()));
        if let Some(encoding) = &self.encoding {
            dict.insert("Encoding", PdfObject::Name(encoding.clone()));
        }
        dict
    }
}

/// Standard PDF font names
pub open spec fn standard_font_names() -> Seq<Seq<char>> {
    seq![
        "Courier"@,
        "Courier-Bold"@,
        "Courier-Oblique"@,
        "Courier-BoldOblique"@,
        "Helvetica"@,
        "Helvetica-Bold"@,
        "Helvetica-Oblique"@,
        "Helvetica-BoldOblique"@,
        "Times-Roman"@,
        "Times-Bold"@,
        "Times-Italic"@,
        "Times-BoldItalic"@,
        "Symbol"@,
        "ZapfDingbats"@
    ]
}

/// Check if a font is a standard PDF font
pub fn is_standard_font(name: &str) -> (r: bool)
    ensures
        r == standard_font_names().contains(name@),
{
    let r = str_eq(name, "Courier")
        || str_eq(name, "Courier-Bold")
        || str_eq(name, "Courier-Oblique")
        || str_eq(name, "Courier-BoldOblique")
        || str_eq(name, "Helvetica")
        || str_eq(name, "Helvetica-Bold")
        || str_eq(name, "Helvetica-Oblique")
        || str_eq(name, "Helvetica-BoldOblique")
        || str_eq(name, "Times-Roman")
        || str_eq(name, "Times-Bold")
        || str_eq(name, "Times-Italic")
        || str_eq(name, "Times-BoldItalic")
        || str_eq(name, "Symbol")
        || str_eq(name, "ZapfDingbats");
    proof {
        let names = standard_font_names();
        if r {
            assert(exists|i: int| 0 <= i < names.len() && names[i] == name@) by {
                if name@ == "Courier"@ { assert(names[0] == name@); }
                if name@ == "Courier-Bold"@ { assert(names[1] == name@); }
                if name@ == "Courier-Oblique"@ { assert(names[2] == name@); }
                if name@ == "Courier-BoldOblique"@ { assert(names[3] == name@); }
                if name@ == "Helvetica"@ { assert(names[4] == name@); }
                if name@ == "Helvetica-Bold"@ { assert(names[5] == name@); }
                if name@ == "Helvetica-Oblique"@ { assert(names[6] == name@); }
                if name@ == "Helvetica-BoldOblique"@ { assert(names[7] == name@); }
                if name@ == "Times-Roman"@ { assert(names[8] == name@); }
                if name@ == "Times-Bold"@ { assert(names[9] == name@); }
                if name@ == "Times-Italic"@ { assert(names[10] == name@); }
                if name@ == "Times-BoldItalic"@ { assert(names[11] == name@); }
                if name@ == "Symbol"@ { assert(names[12] == name@); }
                if name@ == "ZapfDingbats"@ { assert(names[13] == name@); }
            }
        } else {
            assert forall|i: int| 0 <= i < names.len() implies names[i] != name@ by {
                assert(names[0] == "Courier"@);
                assert(names[1] == "Courier-Bold"@);
                assert(names[2] == "Courier-Oblique"@);
                assert(names[3] == "Courier-BoldOblique"@);
                assert(names[4] == "Helvetica"@);
                assert(names[5] == "Helvetica-Bold"@);
                assert(names[6] == "Helvetica-Oblique"@);
                assert(names[7] == "Helvetica-BoldOblique"@);
                assert(names[8] == "Times-Roman"@);
                assert(names[9] == "Times-Bold"@);
                assert(names[10] == "Times-Italic"@);
                assert(names[11] == "Times-BoldItalic"@);
                assert(names[12] == "Symbol"@);
                assert(names[13] == "ZapfDingbats"@);
            }
        }
    }
    r
}

/// Font metrics: glyph widths in thousandths of the font size
/// (simplified, with a default width for characters not listed)
pub struct FontMetrics {
    pub widths: Vec<(char, u16)>,
    pub default_width: u16,
    pub ascent: i16,
    pub descent: i16,
    pub x_height: i16,
    pub cap_height: i16,
}

/// The width of `c`: the first entry for it, else the default.
pub open spec fn char_width(widths: Seq<(char, u16)>, dflt: u16, c: char) -> u16
    decreases widths.len(),
{
    if widths.len() == 0 {
        dflt
    } else if widths[0].0 == c {
        widths[0].1
    } else {
        char_width(widths.drop_first(), dflt, c)
    }
}

/// The total width of a text in thousandths of the font size.
pub open spec fn text_width(widths: Seq<(char, u16)>, dflt: u16, s: Seq<char>) -> nat
    decreases s.len(),
{
    if s.len() == 0 { 0 } else { text_width(widths, dflt, s.drop_last()) + char_width(widths, dflt, s.last()) as nat }
}

proof fn lemma_text_width_mono(widths: Seq<(char, u16)>, dflt: u16, s: Seq<char>, k: int)
    requires
        0 <= k <= s.len(),
    ensures
        text_width(widths, dflt, s.take(k)) <= text_width(widths, dflt, s),
    decreases s.len() - k,
{
    if k < s.len() {
        lemma_text_width_mono(widths, dflt, s, k + 1);
        assert(s.take(k + 1).drop_last() =~= s.take(k));
    } else {
        assert(s.take(k) =~= s);
    }
}

impl FontMetrics {
    /// Create metrics for Helvetica (approximate values)
    pub fn helvetica() -> (r: Self)
        ensures
            r.widths@.len() == 0,
            r.default_width == 500,
            r.ascent == 718,
            r.descent == -207,
            r.x_height == 523,
            r.cap_height == 718,
    {
        FontMetrics { widths: Vec::new(), default_width: 500, ascent: 718, descent: -207, x_height: 523, cap_height: 718 }
    }

    /// Create metrics for Times Roman
    pub fn times_roman() -> (r: Self)
        ensures
            r.widths@.len() == 0,
            r.default_width == 500,
            r.ascent == 683,
            r.descent == -217,
            r.x_height == 450,
            r.cap_height == 662,
    {
        FontMetrics { widths: Vec::new(), default_width: 500, ascent: 683, descent: -217, x_height: 450, cap_height: 662 }
    }

    /// Create metrics for Courier
    pub fn courier() -> (r: Self)
        ensures
            r.widths@.len() == 0,
            r.default_width == 600,
            r.ascent == 629,
            r.descent == -157,
            r.x_height == 441,
            r.cap_height == 562,
    {
        FontMetrics { widths: Vec::new(), default_width: 600, ascent: 629, descent: -157, x_height: 441, cap_height: 562 }
    }

    /// The width of a character.
    pub fn char_width(&self, c: char) -> (r: u16)
        ensures
            r == char_width(self.widths@, self.default_width, c),
    {
        let mut i: usize = 0;
        assert(self.widths@.skip(0) =~= self.widths@);
        while i < self.widths.len()
            invariant
                i <= self.widths@.len(),
                char_width(self.widths@, self.default_width, c) == char_width(self.widths@.skip(i as int), self.default_width, c),
            decreases self.widths@.len() - i,
        {
            assert(self.widths@.skip(i as int).drop_first() =~= self.widths@.skip(i + 1));
            if self.widths[i].0 == c {
                return self.widths[i].1;
            }
            i = i + 1;
        }
        self.default_width
    }

    /// The total width of a string in thousandths of the font size (the
    /// sum that the width in points scales by the font size).
    pub fn string_width_units(&self, s: &str) -> (r: u32)
        requires
            text_width(self.widths@, self.default_width, s@) <= u32::MAX,
        ensures
            r == text_width(self.widths@, self.default_width, s@),
    {
        let cs = chars_of(s);
        let mut total: u32 = 0;
        let mut i: usize = 0;
        while i < cs.len()
            invariant
                cs@ == s@,
                i <= cs@.len(),
                text_width(self.widths@, self.default_width, s@) <= u32::MAX,
                total == text_width(self.widths@, self.default_width, s@.take(i as int)),
            decreases cs@.len() - i,
        {
            proof {
                assert(s@.take(i + 1).drop_last() =~= s@.take(i as int));
                lemma_text_width_mono(self.widths@, self.default_width, s@, i + 1);
            }
            total = total + self.char_width(cs[i]) as u32;
            i = i + 1;
        }
        assert(s@.take(cs@.len() as int) =~= s@);
        total
    }
}

} // verus!
