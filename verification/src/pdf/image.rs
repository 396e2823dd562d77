//! Images for PDF: format detection, PNG and JPEG parsing, and image
//! XObjects.

use vstd::prelude::*;
use crate::pdf::object::{PdfDictionary, PdfObject};
use crate::pdf::stream::{PdfStream, zlib_compressed, length_entry, png_up_rows, png_up_row};
use crate::types::PdfError;
use crate::strings::{chars_of, trim, trim_chars};
use crate::pdf::svg::{svg_text_ok, svg_size, svg_size_of};
use vstd::utf8::{valid_utf8, decode_utf8};
use image::ImageDecoder;

verus! {

/// PDF Image XObject
#[derive(Debug, PartialEq)]
pub struct PdfImage {
    pub width: u32,
    pub height: u32,
    pub color_space: ColorSpace,
    pub bits_per_component: u8,
    pub data: Vec<u8>,
    pub filter: Option<ImageFilter>,
}

/// Color spaces of image samples.
#[derive(Debug, PartialEq)]
pub enum ColorSpace {
    DeviceGray,
    DeviceRGB,
    DeviceCMYK,
    /// Base space, highest index, lookup table.
    Indexed(Box<ColorSpace>, u8, Vec<u8>),
}

/// The PDF name of a color space.
pub open spec fn color_space_name(c: ColorSpace) -> Seq<char> {
    match c {
        ColorSpace::DeviceGray => "DeviceGray"@,
        ColorSpace::DeviceRGB => "DeviceRGB"@,
        ColorSpace::DeviceCMYK => "DeviceCMYK"@,
        ColorSpace::Indexed(_, _, _) => "Indexed"@,
    }
}

impl ColorSpace {
    pub fn as_str(&self) -> (r: &'static str)
        ensures
            r@ == color_space_name(*self),
    {
        match self {
            ColorSpace::DeviceGray => "DeviceGray",
            ColorSpace::DeviceRGB => "DeviceRGB",
            ColorSpace::DeviceCMYK => "DeviceCMYK",
            ColorSpace::Indexed(_, _, _) => "Indexed",
        }
    }

    /// Samples per pixel.
    pub fn num_components(&self) -> (r: u8)
        ensures
            r == (match *self {
                ColorSpace::DeviceGray => 1u8,
                ColorSpace::DeviceRGB => 3u8,
                ColorSpace::DeviceCMYK => 4u8,
                ColorSpace::Indexed(_, _, _) => 1u8,
            }),
    {
        match self {
            ColorSpace::DeviceGray => 1,
            ColorSpace::DeviceRGB => 3,
            ColorSpace::DeviceCMYK => 4,
            ColorSpace::Indexed(_, _, _) => 1,
        }
    }
}

/// Compression filters of image data.
#[derive(Debug, Clone, Copy, PartialEq, Eq, Structural)]
pub enum ImageFilter {
    FlateDecode,
    /// JPEG
    DCTDecode,
    /// JPEG 2000
    JP2Decode,
}

/// The PDF name of a filter.
pub open spec fn filter_name(f: ImageFilter) -> Seq<char> {
    match f {
        ImageFilter::FlateDecode => "FlateDecode"@,
        ImageFilter::DCTDecode => "DCTDecode"@,
        ImageFilter::JP2Decode => "JP2Decode"@,
    }
}

impl ImageFilter {
    pub fn as_str(&self) -> (r: &'static str)
        ensures
            r@ == filter_name(*self),
    {
        match self {
            ImageFilter::FlateDecode => "FlateDecode",
            ImageFilter::DCTDecode => "DCTDecode",
            ImageFilter::JP2Decode => "JP2Decode",
        }
    }
}

/// Supported image formats
#[derive(Debug, Clone, Copy, PartialEq, Eq, Structural)]
pub enum ImageFormat {
    Png,
    Jpeg,
    Gif,
    Bmp,
    WebP,
    Svg,
}

/// An image with the given fields and no filter.
pub open spec fn plain_image(img: PdfImage, width: u32, height: u32, bpc: u8, data: Seq<u8>) -> bool {
    &&& img.width == width
    &&& img.height == height
    &&& img.bits_per_component == bpc
    &&& img.data@ == data
    &&& img.filter is None
}

impl PdfImage {
    /// Create a new image
    pub fn new(width: u32, height: u32, color_space: ColorSpace, bits_per_component: u8, data: Vec<u8>) -> (r: Self)
        ensures
            plain_image(r, width, height, bits_per_component, data@),
            r.color_space == color_space,
    {
        PdfImage { width, height, color_space, bits_per_component, data, filter: None }
    }

    /// Create an RGB image
    pub fn rgb(width: u32, height: u32, data: Vec<u8>) -> (r: Self)
        ensures
            plain_image(r, width, height, 8, data@),
            r.color_space == ColorSpace::DeviceRGB,
    {
        PdfImage::new(width, height, ColorSpace::DeviceRGB, 8, data)
    }

    /// Create a grayscale image
    pub fn grayscale(width: u32, height: u32, data: Vec<u8>) -> (r: Self)
        ensures
            plain_image(r, width, height, 8, data@),
            r.color_space == ColorSpace::DeviceGray,
    {
        PdfImage::new(width, height, ColorSpace::DeviceGray, 8, data)
    }

    /// Set compression filter
    pub fn with_filter(self, filter: ImageFilter) -> (r: Self)
        ensures
            r.width == self.width,
            r.height == self.height,
            r.color_space == self.color_space,
            r.bits_per_component == self.bits_per_component,
            r.data@ == self.data@,
            r.filter == Some(filter),
    {
        let mut img = self;
        img.filter = Some(filter);
        img
    }

    /// The image XObject: its name, its dictionary and its data stream.
    pub fn to_xobject(&self, name: &str) -> (r: (String, PdfDictionary, PdfStream))
        ensures
            r.0@ == name@,
            r.1.value_of("Type"@) matches Some(PdfObject::Name(n)) && n@ == "XObject"@,
            r.1.value_of("Subtype"@) matches Some(PdfObject::Name(n)) && n@ == "Image"@,
            r.1.value_of("Width"@) == Some(PdfObject::Integer(self.width as i32)),
            r.1.value_of("Height"@) == Some(PdfObject::Integer(self.height as i32)),
            r.1.value_of("ColorSpace"@) matches Some(PdfObject::Name(n)) && n@ == color_space_name(self.color_space),
            r.1.value_of("BitsPerComponent"@) == Some(PdfObject::Integer(self.bits_per_component as i32)),
            match self.filter {
                Some(f) => r.1.value_of("Filter"@) matches Some(PdfObject::Name(n)) && n@ == filter_name(f),
                None => r.1.value_of("Filter"@) is None,
            },
            r.1.entries().len() == if self.filter is Some { 7int } else { 6int },
            r.2.data@ == self.data@,
            r.2.dictionary.value_of("Length"@) == Some(length_entry(self.data@.len())),
    {
        let name = String::from_str(name);
        let mut dict = PdfDictionary::new();
        proof {
            reveal_strlit("Type");
            reveal_strlit("Subtype");
            reveal_strlit("Width");
            reveal_strlit("Height");
            reveal_strlit("ColorSpace");
            reveal_strlit("BitsPerComponent");
            reveal_strlit("Filter");
            assert("Type"@.len() == 4 && "Subtype"@.len() == 7 && "Width"@.len() == 5);
            assert("Height"@.len() == 6 && "ColorSpace"@.len() == 10 && "BitsPerComponent"@.len() == 16);
            assert("Filter"@.len() == 6 && "Height"@[0] != "Filter"@[0]);
        }
        dict.insert("Type", PdfObject::Name(String::from_str("XObject")));
        dict.insert("Subtype", PdfObject::Name(String::from_str("Image")));
        #[verifier::truncate]
        let w: i32 = self.width as i32;
        dict.insert("Width", PdfObject::Integer(w));
        #[verifier::truncate]
        let h: i32 = self.height as i32;
        dict.insert("Height", PdfObject::Integer(h));
        dict.insert("ColorSpace", PdfObject::Name(String::from_str(self.color_space.as_str())));
        dict.insert("BitsPerComponent", PdfObject::Integer(self.bits_per_component as i32));
        if let Some(filter) = &self.filter {
            dict.insert("Filter", PdfObject::Name(String::from_str(filter.as_str())));
        }
        let stream = PdfStream::new(self.data.clone());
        (name, dict, stream)
    }
}


/// The text that `String::from_utf8_lossy` makes of `data`: its UTF-8
/// decoding with each invalid sequence replaced by U+FFFD.
pub uninterp spec fn utf8_lossy_text(data: Seq<u8>) -> Seq<char>;

/// Decodes bytes as UTF-8, replacing invalid sequences
/// (`String::from_utf8_lossy`). The contract names the text; it is a
/// function of the bytes alone.
#[verifier::external_body]
fn utf8_lossy(data: &[u8]) -> (r: String)
    ensures
        r@ == utf8_lossy_text(data@),
{
    String::from_utf8_lossy(data).into_owned()
}

/// `d` begins with the bytes `p`.
pub open spec fn begins_with(d: Seq<u8>, p: Seq<u8>) -> bool {
    p.len() <= d.len() && d.take(p.len() as int) == p
}

/// `s` begins with the characters `p`.
pub open spec fn text_begins_with(s: Seq<char>, p: Seq<char>) -> bool {
    p.len() <= s.len() && s.take(p.len() as int) == p
}

/// The format that the leading bytes of `d` announce.
pub open spec fn detected_format(d: Seq<u8>) -> Option<ImageFormat> {
    if d.len() < 4 {
        None
    } else if begins_with(d, seq![0x89u8, 0x50u8, 0x4Eu8, 0x47u8]) {
        Some(ImageFormat::Png)
    } else if begins_with(d, seq![0xFFu8, 0xD8u8]) {
        Some(ImageFormat::Jpeg)
    } else if begins_with(d, seq![0x47u8, 0x49u8, 0x46u8, 0x38u8]) {
        Some(ImageFormat::Gif)
    } else if begins_with(d, seq![0x42u8, 0x4Du8]) {
        Some(ImageFormat::Bmp)
    } else if begins_with(d, seq![0x52u8, 0x49u8, 0x46u8, 0x46u8]) && d.len() >= 12
        && d.subrange(8, 12) == seq![0x57u8, 0x45u8, 0x42u8, 0x50u8] {
        Some(ImageFormat::WebP)
    } else if text_begins_with(trim(utf8_lossy_text(d)), "<?xml"@)
        || text_begins_with(trim(utf8_lossy_text(d)), "<svg"@) {
        Some(ImageFormat::Svg)
    } else {
        None
    }
}

/// Whether `d` begins with the bytes of `p`.
fn bytes_begin_with(d: &[u8], p: &[u8]) -> (r: bool)
    ensures
        r == begins_with(d@, p@),
{
    if p.len() > d.len() {
        return false;
    }
    let mut i: usize = 0;
    while i < p.len()
        invariant
            p@.len() <= d@.len(),
            i <= p@.len(),
            d@.take(i as int) == p@.take(i as int),
        decreases p@.len() - i,
    {
        if d[i] != p[i] {
            assert(d@.take(p@.len() as int)[i as int] != p@[i as int]);
            return false;
        }
        assert(d@.take(i + 1) =~= d@.take(i as int).push(d@[i as int]));
        assert(p@.take(i + 1) =~= p@.take(i as int).push(p@[i as int]));
        i = i + 1;
    }
    assert(p@.take(p@.len() as int) =~= p@);
    true
}

/// Whether the characters `s` begin with the characters of `p`.
fn chars_begin_with(s: &Vec<char>, p: &str) -> (r: bool)
    ensures
        r == text_begins_with(s@, p@),
{
    let pc = chars_of(p);
    if pc.len() > s.len() {
        return false;
    }
    let mut i: usize = 0;
    while i < pc.len()
        invariant
            pc@ == p@,
            pc@.len() <= s@.len(),
            i <= pc@.len(),
            s@.take(i as int) == pc@.take(i as int),
        decreases pc@.len() - i,
    {
        if s[i] != pc[i] {
            assert(s@.take(pc@.len() as int)[i as int] != pc@[i as int]);
            return false;
        }
        assert(s@.take(i + 1) =~= s@.take(i as int).push(s@[i as int]));
        assert(pc@.take(i + 1) =~= pc@.take(i as int).push(pc@[i as int]));
        i = i + 1;
    }
    assert(pc@.take(pc@.len() as int) =~= pc@);
    true
}

impl PdfImage {
    /// Detect image format from data
    pub fn detect_format(data: &[u8]) -> (r: Option<ImageFormat>)
        ensures
            r == detected_format(data@),
    {
        if data.len() < 4 {
            return None;
        }
        let png: [u8; 4] = [0x89, 0x50, 0x4E, 0x47];
        if bytes_begin_with(data, &png) {
            assert(png@ =~= seq![0x89u8, 0x50u8, 0x4Eu8, 0x47u8]);
            return Some(ImageFormat::Png);
        }
        assert(png@ =~= seq![0x89u8, 0x50u8, 0x4Eu8, 0x47u8]);
        let jpeg: [u8; 2] = [0xFF, 0xD8];
        assert(jpeg@ =~= seq![0xFFu8, 0xD8u8]);
        if bytes_begin_with(data, &jpeg) {
            return Some(ImageFormat::Jpeg);
        }
        let gif: [u8; 4] = [0x47, 0x49, 0x46, 0x38];
        assert(gif@ =~= seq![0x47u8, 0x49u8, 0x46u8, 0x38u8]);
        if bytes_begin_with(data, &gif) {
            return Some(ImageFormat::Gif);
        }
        let bmp: [u8; 2] = [0x42, 0x4D];
        assert(bmp@ =~= seq![0x42u8, 0x4Du8]);
        if bytes_begin_with(data, &bmp) {
            return Some(ImageFormat::Bmp);
        }
        let riff: [u8; 4] = [0x52, 0x49, 0x46, 0x46];
        assert(riff@ =~= seq![0x52u8, 0x49u8, 0x46u8, 0x46u8]);
        if bytes_begin_with(data, &riff) && data.len() >= 12 && data[8] == 0x57 && data[9] == 0x45
            && data[10] == 0x42 && data[11] == 0x50 {
            assert(data@.subrange(8, 12) =~= seq![0x57u8, 0x45u8, 0x42u8, 0x50u8]);
            return Some(ImageFormat::WebP);
        }
        proof {
            if data@.len() >= 12 && data@.subrange(8, 12) == seq![0x57u8, 0x45u8, 0x42u8, 0x50u8] {
                assert(data@.subrange(8, 12)[0] == data@[8]);
                assert(data@.subrange(8, 12)[1] == data@[9]);
                assert(data@.subrange(8, 12)[2] == data@[10]);
                assert(data@.subrange(8, 12)[3] == data@[11]);
            }
        }
        let text = utf8_lossy(data);
        let chars = chars_of(text.as_str());
        let trimmed = trim_chars(&chars);
        if chars_begin_with(&trimmed, "<?xml") || chars_begin_with(&trimmed, "<svg") {
            return Some(ImageFormat::Svg);
        }
        None
    }
}


/// What miniz_oxide's zlib decompressor makes of `data`: the decompressed
/// bytes, or the debug text of its error.
pub uninterp spec fn zlib_decompressed(data: Seq<u8>) -> core::result::Result<Seq<u8>, Seq<char>>;

/// Decompresses a zlib stream (`miniz_oxide::inflate::decompress_to_vec_zlib`);
/// an error comes back as its debug text. The contract names the outcome,
/// a function of the input bytes alone.
#[verifier::external_body]
fn decompress_zlib(data: &[u8]) -> (r: core::result::Result<Vec<u8>, String>)
    ensures
        match r {
            Ok(v) => zlib_decompressed(data@) == core::result::Result::<Seq<u8>, Seq<char>>::Ok(v@),
            Err(m) => zlib_decompressed(data@) == core::result::Result::<Seq<u8>, Seq<char>>::Err(m@),
        },
{
    match miniz_oxide::inflate::decompress_to_vec_zlib(data) {
        Ok(v) => Ok(v),
        Err(e) => Err(format!("{:?}", e)),
    }
}

/// The Paeth predictor of PNG: of `a` (left), `b` (up) and `c` (up-left),
/// the one closest to `a + b - c`, preferring `a`, then `b`.
pub open spec fn paeth(a: u8, b: u8, c: u8) -> u8 {
    let p = a + b - c;
    let pa = if p >= a { p - a } else { a - p };
    let pb = if p >= b { p - b } else { b - p };
    let pc = if p >= c { p - c } else { c - p };
    if pa <= pb && pa <= pc { a } else if pb <= pc { b } else { c }
}

/// Paeth predictor for PNG filtering
pub fn paeth_predictor(a: u8, b: u8, c: u8) -> (r: u8)
    ensures
        r == paeth(a, b, c),
{
    let a16 = a as i16;
    let b16 = b as i16;
    let c16 = c as i16;
    let p = a16 + b16 - c16;
    let pa = if p >= a16 { p - a16 } else { a16 - p };
    let pb = if p >= b16 { p - b16 } else { b16 - p };
    let pc = if p >= c16 { p - c16 } else { c16 - p };
    if pa <= pb && pa <= pc {
        a
    } else if pb <= pc {
        b
    } else {
        c
    }
}

/// `x + y`, wrapping at 256.
pub open spec fn add8(x: u8, y: u8) -> u8 {
    if x + y > 255 { (x + y - 256) as u8 } else { (x + y) as u8 }
}

/// One reconstructed byte under PNG filter `ft`, from the filtered byte and
/// its left, upper and upper-left neighbours.
pub open spec fn filter_step(ft: u8, x: u8, left: u8, up: u8, upleft: u8) -> u8 {
    if ft == 1 {
        add8(x, left)
    } else if ft == 2 {
        add8(x, up)
    } else if ft == 3 {
        add8(x, ((left + up) / 2) as u8)
    } else if ft == 4 {
        add8(x, paeth(left, up, upleft))
    } else {
        x
    }
}

/// Byte `i` of a PNG row after undoing filter `ft`, given the raw row, the
/// reconstructed row above and the bytes per pixel.
pub open spec fn recon(ft: u8, row: Seq<u8>, prev: Seq<u8>, bpp: nat, i: nat) -> u8
    decreases i,
{
    let left: u8 = if bpp > 0 && i >= bpp { recon(ft, row, prev, bpp, (i - bpp) as nat) } else { 0u8 };
    let upleft: u8 = if i >= bpp { prev[i - bpp] } else { 0u8 };
    filter_step(ft, row[i as int], left, prev[i as int], upleft)
}

fn apply_filter_step(ft: u8, x: u8, left: u8, up: u8, upleft: u8) -> (r: u8)
    ensures
        r == filter_step(ft, x, left, up, upleft),
{
    if ft == 1 {
        x.wrapping_add(left)
    } else if ft == 2 {
        x.wrapping_add(up)
    } else if ft == 3 {
        x.wrapping_add(((left as u16 + up as u16) / 2) as u8)
    } else if ft == 4 {
        x.wrapping_add(paeth_predictor(left, up, upleft))
    } else {
        x
    }
}

/// A PNG row with its filter undone.
pub open spec fn unfilter_row(ft: u8, row: Seq<u8>, prev: Seq<u8>, bpp: nat) -> Seq<u8> {
    Seq::new(row.len(), |i: int| recon(ft, row, prev, bpp, i as nat))
}

/// The pixel bytes of rows `r..height` of decompressed PNG data `dec`, with
/// rows of `rb` bytes each preceded by a filter byte, `prev` the
/// reconstructed row above. Stops at the end of the data; the last row may
/// be short.
pub open spec fn png_rows(dec: Seq<u8>, rb: nat, bpp: nat, height: nat, r: nat, prev: Seq<u8>) -> Seq<u8>
    decreases height - r,
{
    if r >= height {
        Seq::empty()
    } else {
        let src: int = (r * (rb + 1)) as int;
        if src >= dec.len() {
            Seq::empty()
        } else {
            let rs: int = src + 1;
            let re: int = if rs + rb < dec.len() { rs + rb } else { dec.len() as int };
            let f = unfilter_row(dec[src], dec.subrange(rs, re), prev, bpp);
            f + png_rows(dec, rb, bpp, height, r + 1, f)
        }
    }
}

/// Bytes per pixel for a PNG color type and bit depth.
pub open spec fn png_bpp(color_type: u8, bit_depth: u8) -> nat {
    if color_type == 0 {
        ((bit_depth + 7) / 8) as nat
    } else if color_type == 2 {
        3 * (bit_depth / 8) as nat
    } else if color_type == 3 {
        1
    } else if color_type == 4 {
        2 * (bit_depth / 8) as nat
    } else if color_type == 6 {
        4 * (bit_depth / 8) as nat
    } else {
        3
    }
}

/// The pixel bytes of a PNG image from its decompressed data.
pub open spec fn png_pixels(dec: Seq<u8>, width: u32, height: u32, bit_depth: u8, color_type: u8) -> Seq<u8> {
    let bpp = png_bpp(color_type, bit_depth);
    let rb = width * bpp;
    png_rows(dec, rb as nat, bpp, height as nat, 0, Seq::new(rb as nat, |i: int| 0u8))
}

/// Undoes one row's filter.
fn unfilter(ft: u8, row: &[u8], prev: &Vec<u8>, bpp: usize) -> (r: Vec<u8>)
    requires
        prev@.len() >= row@.len(),
    ensures
        r@ == unfilter_row(ft, row@, prev@, bpp as nat),
{
    let mut f: Vec<u8> = Vec::new();
    let mut i: usize = 0;
    while i < row.len()
        invariant
            i <= row@.len(),
            prev@.len() >= row@.len(),
            f@.len() == i,
            forall|j: int| 0 <= j < i ==> f@[j] == #[trigger] recon(ft, row@, prev@, bpp as nat, j as nat),
        decreases row@.len() - i,
    {
        let left: u8 = if bpp > 0 && i >= bpp { f[i - bpp] } else { 0 };
        let upleft: u8 = if i >= bpp { prev[i - bpp] } else { 0 };
        let v = apply_filter_step(ft, row[i], left, prev[i], upleft);
        proof {
            if bpp > 0 && i >= bpp {
                assert(f@[i - bpp] == recon(ft, row@, prev@, bpp as nat, (i - bpp) as nat));
            }
            assert(v == recon(ft, row@, prev@, bpp as nat, i as nat));
        }
        f.push(v);
        i = i + 1;
    }
    assert(f@ =~= unfilter_row(ft, row@, prev@, bpp as nat));
    f
}

/// The pixel bytes of a PNG image from its decompressed data: each row's
/// filter undone, rows concatenated.
pub fn decode_png_rows(dec: &[u8], width: u32, height: u32, bit_depth: u8, color_type: u8) -> (r: Vec<u8>)
    requires
        width * png_bpp(color_type, bit_depth) <= usize::MAX,
    ensures
        r@ == png_pixels(dec@, width, height, bit_depth, color_type),
{
    let bpp: usize = if color_type == 0 {
        (bit_depth as usize + 7) / 8
    } else if color_type == 2 {
        3 * (bit_depth as usize / 8)
    } else if color_type == 3 {
        1
    } else if color_type == 4 {
        2 * (bit_depth as usize / 8)
    } else if color_type == 6 {
        4 * (bit_depth as usize / 8)
    } else {
        3
    };
    let row_bytes: usize = width as usize * bpp;
    let dlen = dec.len();
    let mut prev: Vec<u8> = Vec::new();
    let mut k: usize = 0;
    while k < row_bytes
        invariant
            k <= row_bytes,
            prev@.len() == k,
            forall|j: int| 0 <= j < k ==> prev@[j] == 0u8,
        decreases row_bytes - k,
    {
        prev.push(0u8);
        k = k + 1;
    }
    let ghost rb = row_bytes as nat;
    let ghost zeros = Seq::new(rb, |i: int| 0u8);
    assert(prev@ =~= zeros);
    let mut pixels: Vec<u8> = Vec::new();
    let mut row: u32 = 0;
    let mut src: u128 = 0;
    let mut stop = false;
    while !stop && row < height
        invariant
            bpp as nat == png_bpp(color_type, bit_depth),
            row_bytes as nat == rb,
            rb == width * bpp,
            dlen == dec@.len(),
            row <= height,
            src == row * (rb + 1),
            stop ==> png_rows(dec@, rb, bpp as nat, height as nat, row as nat, prev@) == Seq::<u8>::empty(),
            !stop ==> prev@.len() == rb,
            pixels@ + png_rows(dec@, rb, bpp as nat, height as nat, row as nat, prev@)
                == png_rows(dec@, rb, bpp as nat, height as nat, 0, zeros),
        decreases height - row, if stop { 0int } else { 1int },
    {
        if src >= dlen as u128 {
            stop = true;
        } else {
            let s = src as usize;
            let ft = dec[s];
            let rs = s + 1;
            let re = if rs < dlen && row_bytes < dlen - rs { rs + row_bytes } else { dlen };
            let ghost f_spec = unfilter_row(ft, dec@.subrange(rs as int, re as int), prev@, bpp as nat);
            let raw = &dec[rs..re];
            let f = unfilter(ft, raw, &prev, bpp);
            let mut j: usize = 0;
            let ghost before = pixels@;
            while j < f.len()
                invariant
                    j <= f@.len(),
                    pixels@ == before + f@.take(j as int),
                decreases f@.len() - j,
            {
                pixels.push(f[j]);
                assert(f@.take(j + 1) =~= f@.take(j as int).push(f@[j as int]));
                j = j + 1;
            }
            assert(f@.take(f@.len() as int) =~= f@);
            proof {
                assert(src + rb + 1 == (row + 1) * (rb + 1)) by (nonlinear_arith)
                    requires src == row * (rb + 1);
            }
            let short = re - rs != row_bytes;
            prev = f;
            row = row + 1;
            src = src + row_bytes as u128 + 1;
            if short {
                stop = true;
            }
        }
    }
    pixels
}


/// The bytes held, if any.
pub open spec fn bytes_opt(p: Option<Vec<u8>>) -> Option<Seq<u8>> {
    match p {
        Some(v) => Some(v@),
        None => None,
    }
}

/// A big-endian 32-bit number at `i`.
pub open spec fn be32(d: Seq<u8>, i: int) -> u32 {
    (d[i] * 0x1000000 + d[i + 1] * 0x10000 + d[i + 2] * 0x100 + d[i + 3]) as u32
}

/// What the chunk scan of a PNG gathers: width, height, bit depth, color
/// type, the concatenated IDAT data and the palette.
pub type PngScan = (u32, u32, u8, u8, Seq<u8>, Option<Seq<u8>>);

pub open spec fn png_scan_start() -> PngScan {
    (0u32, 0u32, 8u8, 0u8, Seq::empty(), None)
}

/// The chunks of `d` from `pos` on: IHDR (13 bytes or more) sets the
/// header fields, PLTE the palette, IDAT data is appended; the scan ends at
/// IEND, at a chunk that does not fit, or at the end of the data.
pub open spec fn png_scan(d: Seq<u8>, pos: nat, st: PngScan) -> PngScan
    decreases d.len() - pos,
{
    let p: int = pos as int;
    if p + 8 > d.len() {
        st
    } else {
        let length = be32(d, p);
        let end: int = p + 8 + length;
        if end > d.len() {
            st
        } else {
            let ct = d.subrange(p + 4, p + 8);
            let body = d.subrange(p + 8, end);
            if ct == seq![0x49u8, 0x45u8, 0x4Eu8, 0x44u8] {
                st
            } else {
                let st2: PngScan = if ct == seq![0x49u8, 0x48u8, 0x44u8, 0x52u8] {
                    if length >= 13 {
                        (be32(d, p + 8), be32(d, p + 12), d[p + 16], d[p + 17], st.4, st.5)
                    } else {
                        st
                    }
                } else if ct == seq![0x50u8, 0x4Cu8, 0x54u8, 0x45u8] {
                    (st.0, st.1, st.2, st.3, st.4, Some(body))
                } else if ct == seq![0x49u8, 0x44u8, 0x41u8, 0x54u8] {
                    (st.0, st.1, st.2, st.3, st.4 + body, st.5)
                } else {
                    st
                };
                if end + 4 >= d.len() {
                    st2
                } else {
                    png_scan(d, (end + 4) as nat, st2)
                }
            }
        }
    }
}

/// The 8-byte PNG signature.
pub open spec fn png_signature() -> Seq<u8> {
    seq![0x89u8, 0x50u8, 0x4Eu8, 0x47u8, 0x0Du8, 0x0Au8, 0x1Au8, 0x0Au8]
}

/// The scan of a PNG file after its signature.
pub open spec fn png_header(d: Seq<u8>) -> PngScan {
    png_scan(d, 8, png_scan_start())
}

/// An indexed image with a palette of fewer than three bytes, or a row
/// length past the machine's range, is not decoded.
pub open spec fn png_decodable(d: Seq<u8>) -> bool {
    let st = png_header(d);
    &&& (st.3 == 3 && st.5 is Some ==> st.5.unwrap().len() >= 3)
    &&& st.0 * png_bpp(st.3, st.2) <= usize::MAX
}

/// The color space for a PNG color type and palette.
pub open spec fn png_color_space(cs: ColorSpace, color_type: u8, palette: Option<Seq<u8>>) -> bool {
    if color_type == 0 || color_type == 4 {
        cs == ColorSpace::DeviceGray
    } else if color_type == 3 && palette is Some {
        let pal = palette.unwrap();
        let n = pal.len() / 3 - 1;
        cs matches ColorSpace::Indexed(base, hival, table)
            && *base == ColorSpace::DeviceRGB
            && hival == (if n < 255 { n } else { 255 }) as u8
            && table@ == pal
    } else {
        cs == ColorSpace::DeviceRGB
    }
}

/// The error message of a PNG whose data does not decompress.
pub open spec fn png_inflate_error(m: Seq<char>) -> Seq<char> {
    "PNG decompression failed: "@ + m
}

/// The image that `png_image` makes of a scanned header and the outcome of
/// decompressing its data.
pub open spec fn png_image_result(r: crate::types::Result<PdfImage>, width: u32, height: u32, bit_depth: u8,
    color_type: u8, palette: Option<Seq<u8>>, inflated: core::result::Result<Seq<u8>, Seq<char>>) -> bool {
    match inflated {
        Err(m) => r matches Err(PdfError::Image(e)) && e@ == png_inflate_error(m),
        Ok(dec) => r matches Ok(img) && plain_image(img, width, height, bit_depth,
            png_pixels(dec, width, height, bit_depth, color_type))
            && png_color_space(img.color_space, color_type, palette),
    }
}

fn copy_range(d: &[u8], start: usize, end: usize) -> (r: Vec<u8>)
    requires
        start <= end <= d@.len(),
    ensures
        r@ == d@.subrange(start as int, end as int),
{
    let mut r: Vec<u8> = Vec::new();
    let mut i = start;
    while i < end
        invariant
            start <= i <= end <= d@.len(),
            r@ == d@.subrange(start as int, i as int),
        decreases end - i,
    {
        r.push(d[i]);
        i = i + 1;
    }
    r
}

fn append_range(v: &mut Vec<u8>, d: &[u8], start: usize, end: usize)
    requires
        start <= end <= d@.len(),
    ensures
        final(v)@ == old(v)@ + d@.subrange(start as int, end as int),
{
    let ghost before = v@;
    let mut i = start;
    while i < end
        invariant
            start <= i <= end <= d@.len(),
            v@ == before + d@.subrange(start as int, i as int),
        decreases end - i,
    {
        v.push(d[i]);
        i = i + 1;
    }
}

fn read_be32(d: &[u8], i: usize) -> (r: u32)
    requires
        i + 4 <= d@.len(),
    ensures
        r == be32(d@, i as int),
{
    let v: u64 = d[i] as u64 * 0x1000000 + d[i + 1] as u64 * 0x10000 + d[i + 2] as u64 * 0x100 + d[i + 3] as u64;
    v as u32
}

/// The bytes of the chunk type at `i` equal `t`.
fn chunk_is(d: &[u8], i: usize, t: [u8; 4]) -> (r: bool)
    requires
        i + 4 <= d@.len(),
    ensures
        r == (d@.subrange(i as int, i + 4) == t@),
{
    let r = d[i] == t[0] && d[i + 1] == t[1] && d[i + 2] == t[2] && d[i + 3] == t[3];
    proof {
        if d@.subrange(i as int, i + 4) == t@ {
            assert(d@.subrange(i as int, i + 4)[0] == d@[i as int]);
            assert(d@.subrange(i as int, i + 4)[1] == d@[i + 1]);
            assert(d@.subrange(i as int, i + 4)[2] == d@[i + 2]);
            assert(d@.subrange(i as int, i + 4)[3] == d@[i + 3]);
        }
        if r {
            assert(d@.subrange(i as int, i + 4) =~= t@);
        }
    }
    r
}

/// What loading PNG bytes `d` gives: an error without the PNG signature,
/// else the image of its header and inflated data.
pub open spec fn png_loaded(d: Seq<u8>, r: crate::types::Result<PdfImage>) -> bool {
    &&& !begins_with(d, png_signature()) ==> (r matches Err(PdfError::Image(m)) && m@ == "Invalid PNG signature"@)
    &&& begins_with(d, png_signature()) ==> {
        let st = png_header(d);
        png_image_result(r, st.0, st.1, st.2, st.3, st.5, zlib_decompressed(st.4))
    }
}

impl PdfImage {
    /// The image of a PNG from its scanned header and the outcome of
    /// decompressing its image data.
    pub fn png_image(width: u32, height: u32, bit_depth: u8, color_type: u8, palette: Option<Vec<u8>>,
        inflated: core::result::Result<Vec<u8>, String>) -> (r: crate::types::Result<PdfImage>)
        requires
            color_type == 3 && palette is Some ==> palette.unwrap()@.len() >= 3,
            width * png_bpp(color_type, bit_depth) <= usize::MAX,
        ensures
            png_image_result(r, width, height, bit_depth, color_type,
                bytes_opt(palette),
                match inflated { Ok(v) => Ok(v@), Err(m) => Err(m@) }),
    {
        let color_space = if color_type == 0 || color_type == 4 {
            ColorSpace::DeviceGray
        } else if color_type == 3 && palette.is_some() {
            let pal = palette.unwrap();
            let n = pal.len() / 3 - 1;
            let hival: u8 = if n < 255 { n as u8 } else { 255 };
            ColorSpace::Indexed(Box::new(ColorSpace::DeviceRGB), hival, pal)
        } else {
            ColorSpace::DeviceRGB
        };
        match inflated {
            Err(m) => {
                let mut msg = String::from_str("PNG decompression failed: ");
                msg.append(m.as_str());
                Err(PdfError::Image(msg))
            },
            Ok(dec) => {
                let pixels = decode_png_rows(dec.as_slice(), width, height, bit_depth, color_type);
                Ok(PdfImage::new(width, height, color_space, bit_depth, pixels))
            },
        }
    }

    /// Load from PNG data
    pub fn from_png(data: &[u8]) -> (r: crate::types::Result<PdfImage>)
        requires
            png_decodable(data@),
        ensures
            png_loaded(data@, r),
    {
        let sig: [u8; 8] = [0x89, 0x50, 0x4E, 0x47, 0x0D, 0x0A, 0x1A, 0x0A];
        assert(sig@ =~= png_signature());
        if data.len() < 8 || !bytes_begin_with(data, &sig) {
            return Err(PdfError::Image(String::from_str("Invalid PNG signature")));
        }
        let n = data.len();
        let mut pos: usize = 8;
        let mut width: u32 = 0;
        let mut height: u32 = 0;
        let mut bit_depth: u8 = 8;
        let mut color_type: u8 = 0;
        let mut compressed: Vec<u8> = Vec::new();
        let mut palette: Option<Vec<u8>> = None;
        let mut done = false;
        while !done && pos < n
            invariant
                n == data@.len(),
                done ==> png_scan(data@, pos as nat, (width, height, bit_depth, color_type, compressed@,
                    bytes_opt(palette))) == (width, height, bit_depth, color_type,
                    compressed@, bytes_opt(palette)),
                png_scan(data@, pos as nat, (width, height, bit_depth, color_type, compressed@,
                    bytes_opt(palette))) == png_header(data@),
            decreases n - pos, if done { 0int } else { 1int },
        {
            let ghost st: PngScan = (width, height, bit_depth, color_type, compressed@,
                bytes_opt(palette));
            if n - pos < 8 {
                done = true;
            } else {
                let length = read_be32(data, pos);
                let start = pos + 8;
                if (length as u64) > (n - start) as u64 {
                    done = true;
                } else {
                    let end = start + length as usize;
                    if chunk_is(data, pos + 4, [0x49, 0x45, 0x4E, 0x44]) {
                        done = true;
                    } else {
                        if chunk_is(data, pos + 4, [0x49, 0x48, 0x44, 0x52]) {
                            if length >= 13 {
                                width = read_be32(data, start);
                                height = read_be32(data, start + 4);
                                bit_depth = data[start + 8];
                                color_type = data[start + 9];
                            }
                        } else if chunk_is(data, pos + 4, [0x50, 0x4C, 0x54, 0x45]) {
                            palette = Some(copy_range(data, start, end));
                        } else if chunk_is(data, pos + 4, [0x49, 0x44, 0x41, 0x54]) {
                            append_range(&mut compressed, data, start, end);
                        }
                        if n - end < 4 {
                            pos = n;
                            proof {
                                let st3: PngScan = (width, height, bit_depth, color_type, compressed@,
                                    bytes_opt(palette));
                                assert(png_scan(data@, (end + 4) as nat, st3) == st3);
                                assert(png_scan(data@, pos as nat, st3) == st3);
                            }
                        } else {
                            pos = end + 4;
                        }
                    }
                }
            }
        }
        let inflated = decompress_zlib(compressed.as_slice());
        PdfImage::png_image(width, height, bit_depth, color_type, palette, inflated)
    }
}


/// A big-endian 16-bit number at `i`.
pub open spec fn be16(d: Seq<u8>, i: int) -> u32 {
    (d[i] * 0x100 + d[i + 1]) as u32
}

/// What the marker scan of a JPEG gathers: width, height, bits per
/// component and number of components.
pub type JpegScan = (u32, u32, u8, u8);

/// A start-of-frame marker (`C0`..`CF` but `C4`, `C8`, `CC`).
pub open spec fn is_sof(m: u8) -> bool {
    0xC0 <= m <= 0xCF && m != 0xC4 && m != 0xC8 && m != 0xCC
}

/// The markers of `d` from `pos` on: bytes other than `FF` are skipped,
/// as are fill markers; a start-of-frame sets the fields; the scan ends at
/// the end of the image, at the start of scan, or when fewer than four
/// bytes remain.
pub open spec fn jpeg_scan(d: Seq<u8>, pos: nat, st: JpegScan) -> JpegScan
    decreases d.len() - pos,
{
    let p: int = pos as int;
    if p + 4 > d.len() {
        st
    } else if d[p] != 0xFF {
        jpeg_scan(d, pos + 1, st)
    } else {
        let m = d[p + 1];
        if m == 0 || m == 0xFF {
            jpeg_scan(d, pos + 2, st)
        } else if m == 0xD9 || m == 0xDA {
            st
        } else if is_sof(m) {
            if p + 10 > d.len() {
                st
            } else {
                jpeg_scan(d, pos + 2, (be16(d, p + 7), be16(d, p + 5), d[p + 4], d[p + 9]))
            }
        } else {
            let next: int = p + 2 + be16(d, p + 2);
            if next >= d.len() {
                st
            } else {
                jpeg_scan(d, next as nat, st)
            }
        }
    }
}

/// The header fields of a JPEG file.
pub open spec fn jpeg_header(d: Seq<u8>) -> JpegScan {
    jpeg_scan(d, 2, (0u32, 0u32, 8u8, 3u8))
}

/// The position just past the first `FF D9` pair at or after `i`, or the
/// length of `d`.
pub open spec fn jpeg_end(d: Seq<u8>, i: nat) -> nat
    decreases d.len() - i,
{
    if i + 1 >= d.len() {
        d.len()
    } else if d[i as int] == 0xFF && d[i + 1int] == 0xD9 {
        i + 2
    } else {
        jpeg_end(d, i + 1)
    }
}

/// The color space for a number of JPEG components.
pub open spec fn jpeg_color_space(n: u8) -> ColorSpace {
    if n == 1 {
        ColorSpace::DeviceGray
    } else if n == 4 {
        ColorSpace::DeviceCMYK
    } else {
        ColorSpace::DeviceRGB
    }
}

fn read_be16(d: &[u8], i: usize) -> (r: u32)
    requires
        i + 2 <= d@.len(),
    ensures
        r == be16(d@, i as int),
{
    d[i] as u32 * 0x100 + d[i + 1] as u32
}

/// What loading JPEG bytes `d` gives: an error without the start-of-image
/// marker or without dimensions, else the data up to the end-of-image
/// marker, with the first frame header's dimensions, under DCTDecode.
pub open spec fn jpeg_loaded(d: Seq<u8>, r: crate::types::Result<PdfImage>) -> bool {
    &&& d.len() < 2 || d[0] != 0xFF || d[1] != 0xD8
        ==> (r matches Err(PdfError::Image(m)) && m@ == "Invalid JPEG signature"@)
    &&& d.len() >= 2 && d[0] == 0xFF && d[1] == 0xD8 ==> {
        let st = jpeg_header(d);
        if st.0 == 0 || st.1 == 0 {
            r matches Err(PdfError::Image(m)) && m@ == "Could not determine JPEG dimensions"@
        } else {
            r matches Ok(img) && img.width == st.0 && img.height == st.1
                && img.bits_per_component == st.2
                && img.color_space == jpeg_color_space(st.3)
                && img.data@ == d.take(jpeg_end(d, 0) as int)
                && img.filter == Some(ImageFilter::DCTDecode)
        }
    }
}

impl PdfImage {
    /// Load from JPEG data: the data up to the end-of-image marker, with
    /// the dimensions from the first frame header, under DCTDecode.
    pub fn from_jpeg(data: &[u8]) -> (r: crate::types::Result<PdfImage>)
        ensures
            jpeg_loaded(data@, r),
    {
        let n = data.len();
        if n < 2 || data[0] != 0xFF || data[1] != 0xD8 {
            return Err(PdfError::Image(String::from_str("Invalid JPEG signature")));
        }
        let mut pos: usize = 2;
        let mut width: u32 = 0;
        let mut height: u32 = 0;
        let mut bpc: u8 = 8;
        let mut ncomp: u8 = 3;
        let mut done = false;
        while !done && pos < n
            invariant
                n == data@.len(),
                done ==> jpeg_scan(data@, pos as nat, (width, height, bpc, ncomp)) == (width, height, bpc, ncomp),
                !done && pos >= n ==> jpeg_scan(data@, pos as nat, (width, height, bpc, ncomp)) == (width, height, bpc, ncomp),
                jpeg_scan(data@, pos as nat, (width, height, bpc, ncomp)) == jpeg_header(data@),
            decreases n - pos, if done { 0int } else { 1int },
        {
            if n - pos < 4 {
                done = true;
            } else if data[pos] != 0xFF {
                pos = pos + 1;
            } else {
                let m = data[pos + 1];
                if m == 0x00 || m == 0xFF {
                    pos = pos + 2;
                } else if m == 0xD9 || m == 0xDA {
                    done = true;
                } else if 0xC0 <= m && m <= 0xCF && m != 0xC4 && m != 0xC8 && m != 0xCC {
                    if n - pos < 10 {
                        done = true;
                    } else {
                        bpc = data[pos + 4];
                        height = read_be16(data, pos + 5);
                        width = read_be16(data, pos + 7);
                        ncomp = data[pos + 9];
                        pos = pos + 2;
                    }
                } else {
                    let length = read_be16(data, pos + 2) as usize;
                    if length >= n - pos - 2 {
                        done = true;
                    } else {
                        pos = pos + 2 + length;
                    }
                }
            }
        }
        if width == 0 || height == 0 {
            return Err(PdfError::Image(String::from_str("Could not determine JPEG dimensions")));
        }
        let color_space = if ncomp == 1 {
            ColorSpace::DeviceGray
        } else if ncomp == 4 {
            ColorSpace::DeviceCMYK
        } else {
            ColorSpace::DeviceRGB
        };
        let mut end: usize = 0;
        while end < n - 1 && !(data[end] == 0xFF && data[end + 1] == 0xD9)
            invariant
                n == data@.len(),
                n >= 2,
                end <= n,
                jpeg_end(data@, end as nat) == jpeg_end(data@, 0),
            decreases n - end,
        {
            end = end + 1;
        }
        let stop = if end < n - 1 { end + 2 } else { n };
        let body = copy_range(data, 0, stop);
        assert(data@.subrange(0, stop as int) =~= data@.take(stop as int));
        Ok(PdfImage { width, height, color_space, bits_per_component: bpc, data: body, filter: Some(ImageFilter::DCTDecode) })
    }
}


/// What a decoder of the `image` crate gave: the dimensions and the
/// decoded pixel bytes, or the message of the error met while opening the
/// data or while reading the pixels.
pub enum DecodeOutcome {
    Decoded(u32, u32, Vec<u8>),
    OpenFailed(String),
    ReadFailed(String),
}

/// A decoding outcome as plain values: `Ok` with width, height and pixel
/// bytes, or `Err` with `true` for a read error and the error's text.
pub open spec fn outcome_view(o: DecodeOutcome) -> core::result::Result<(u32, u32, Seq<u8>), (bool, Seq<char>)> {
    match o {
        DecodeOutcome::Decoded(w, h, px) => Ok((w, h, px@)),
        DecodeOutcome::OpenFailed(m) => Err((false, m@)),
        DecodeOutcome::ReadFailed(m) => Err((true, m@)),
    }
}

/// What `image::codecs::gif::GifDecoder` makes of `data`.
pub uninterp spec fn gif_decoding(data: Seq<u8>) -> core::result::Result<(u32, u32, Seq<u8>), (bool, Seq<char>)>;

/// What `image::codecs::bmp::BmpDecoder` makes of `data`.
pub uninterp spec fn bmp_decoding(data: Seq<u8>) -> core::result::Result<(u32, u32, Seq<u8>), (bool, Seq<char>)>;

/// Decodes GIF data in memory with `image::codecs::gif::GifDecoder`
/// (`new`, `dimensions`, `total_bytes`, `read_image`); an error comes back
/// as its display text. The contract names the outcome, a function of the
/// bytes alone.
#[verifier::external_body]
fn decode_gif(data: &[u8]) -> (r: DecodeOutcome)
    ensures
        outcome_view(r) == gif_decoding(data@),
{
    match image::codecs::gif::GifDecoder::new(std::io::Cursor::new(data)) {
        Err(e) => DecodeOutcome::OpenFailed(e.to_string()),
        Ok(d) => {
            let (w, h) = d.dimensions();
            let mut buf = vec![0u8; d.total_bytes() as usize];
            match d.read_image(&mut buf) {
                Err(e) => DecodeOutcome::ReadFailed(e.to_string()),
                Ok(()) => DecodeOutcome::Decoded(w, h, buf),
            }
        },
    }
}

/// Decodes BMP data in memory with `image::codecs::bmp::BmpDecoder`
/// (`new`, `dimensions`, `total_bytes`, `read_image`); an error comes back
/// as its display text. The contract names the outcome, a function of the
/// bytes alone.
#[verifier::external_body]
fn decode_bmp(data: &[u8]) -> (r: DecodeOutcome)
    ensures
        outcome_view(r) == bmp_decoding(data@),
{
    match image::codecs::bmp::BmpDecoder::new(std::io::Cursor::new(data)) {
        Err(e) => DecodeOutcome::OpenFailed(e.to_string()),
        Ok(d) => {
            let (w, h) = d.dimensions();
            let mut buf = vec![0u8; d.total_bytes() as usize];
            match d.read_image(&mut buf) {
                Err(e) => DecodeOutcome::ReadFailed(e.to_string()),
                Ok(()) => DecodeOutcome::Decoded(w, h, buf),
            }
        },
    }
}

/// RGBA pixels with the alpha byte of each dropped.
pub open spec fn rgba_to_rgb(px: Seq<u8>) -> Seq<u8> {
    Seq::new((px.len() / 4 * 3) as nat, |i: int| px[(i / 3) * 4 + i % 3])
}

/// The RGB image of a decoding outcome, with `label` naming the format in
/// error messages.
pub open spec fn decoded_image(r: crate::types::Result<PdfImage>, label: Seq<char>,
    o: core::result::Result<(u32, u32, Seq<u8>), (bool, Seq<char>)>) -> bool {
    match o {
        Err((read, m)) => r matches Err(PdfError::Image(e))
            && e@ == label + (if read { " read error: "@ } else { " decode error: "@ }) + m,
        Ok((w, h, px)) => r matches Ok(img) && img.color_space == ColorSpace::DeviceRGB
            && plain_image(img, w, h, 8,
                if px.len() == w * h * 4 { rgba_to_rgb(px) } else { px }),
    }
}

proof fn lemma_rgb_index(i: int)
    requires
        i >= 0,
    ensures
        (i / 3) * 4 + i % 3 < (i / 3 + 1) * 4,
        (i / 3) * 4 + i % 3 >= 0,
{
    assert((i / 3) * 4 + i % 3 < (i / 3 + 1) * 4) by (nonlinear_arith)
        requires i >= 0;
    assert((i / 3) * 4 + i % 3 >= 0) by (nonlinear_arith)
        requires i >= 0;
}

impl PdfImage {
    /// The RGB image of a decoder's outcome. RGBA pixels (four bytes for
    /// each of `width * height` pixels) lose their alpha bytes; other pixel
    /// data is kept as it is.
    pub fn from_decoded(outcome: DecodeOutcome, label: &str) -> (r: crate::types::Result<PdfImage>)
        ensures
            decoded_image(r, label@, outcome_view(outcome)),
    {
        match outcome {
            DecodeOutcome::OpenFailed(m) => {
                let mut msg = String::from_str(label);
                msg.append(" decode error: ");
                msg.append(m.as_str());
                Err(PdfError::Image(msg))
            },
            DecodeOutcome::ReadFailed(m) => {
                let mut msg = String::from_str(label);
                msg.append(" read error: ");
                msg.append(m.as_str());
                Err(PdfError::Image(msg))
            },
            DecodeOutcome::Decoded(w, h, px) => {
                assert(w as int * h as int <= 0xFFFF_FFFF * 0xFFFF_FFFF) by (nonlinear_arith)
                    requires w as int <= 0xFFFF_FFFF, h as int <= 0xFFFF_FFFF, w as int >= 0, h as int >= 0;
                let total: u128 = (w as u128) * (h as u128) * 4;
                if px.len() as u128 == total {
                    let plen = px.len();
                    let n = plen / 4 * 3;
                    let mut rgb: Vec<u8> = Vec::new();
                    let mut i: usize = 0;
                    while i < n
                        invariant
                            n == px@.len() / 4 * 3,
                            plen == px@.len(),
                            i <= n,
                            rgb@ == rgba_to_rgb(px@).take(i as int),
                        decreases n - i,
                    {
                        proof {
                            lemma_rgb_index(i as int);
                            assert((i / 3 + 1) * 4 <= px@.len()) by (nonlinear_arith)
                                requires i < n, n == px@.len() / 4 * 3;
                        }
                        assert((i / 3) * 4 + i % 3 < px@.len());
                        let q = i / 3;
                        assert(q * 4 < px@.len());
                        let k = q * 4 + i % 3;
                        rgb.push(px[k]);
                        assert(rgba_to_rgb(px@).take(i + 1) =~= rgba_to_rgb(px@).take(i as int).push(px@[k as int]));
                        i = i + 1;
                    }
                    assert(rgba_to_rgb(px@).take(n as int) =~= rgba_to_rgb(px@));
                    Ok(PdfImage::rgb(w, h, rgb))
                } else {
                    Ok(PdfImage::rgb(w, h, px))
                }
            },
        }
    }

    /// Load from GIF data
    pub fn from_gif(data: &[u8]) -> (r: crate::types::Result<PdfImage>)
        ensures
            decoded_image(r, "GIF"@, gif_decoding(data@)),
    {
        PdfImage::from_decoded(decode_gif(data), "GIF")
    }

    /// Load from BMP data
    pub fn from_bmp(data: &[u8]) -> (r: crate::types::Result<PdfImage>)
        ensures
            decoded_image(r, "BMP"@, bmp_decoding(data@)),
    {
        PdfImage::from_decoded(decode_bmp(data), "BMP")
    }

    /// Load from WebP data: not supported in this build.
    pub fn from_webp(data: &[u8]) -> (r: crate::types::Result<PdfImage>)
        ensures
            r matches Err(PdfError::Image(m))
                && m@ == "WebP support not enabled. Add 'webp' feature to image crate dependency."@,
    {
        Err(PdfError::Image(String::from_str("WebP support not enabled. Add 'webp' feature to image crate dependency.")))
    }

    /// Compresses the data with Flate at level 6, unless a filter is set
    /// already or compression would not make it smaller.
    pub fn compress(&mut self) -> (r: crate::types::Result<()>)
        ensures
            r is Ok,
            final(self).width == old(self).width,
            final(self).height == old(self).height,
            final(self).color_space == old(self).color_space,
            final(self).bits_per_component == old(self).bits_per_component,
            old(self).filter is None && zlib_compressed(old(self).data@, 6).len() < old(self).data@.len() ==> {
                &&& final(self).data@ == zlib_compressed(old(self).data@, 6)
                &&& final(self).filter == Some(ImageFilter::FlateDecode)
            },
            !(old(self).filter is None && zlib_compressed(old(self).data@, 6).len() < old(self).data@.len()) ==> {
                &&& final(self).data@ == old(self).data@
                &&& final(self).filter == old(self).filter
            },
    {
        if self.filter.is_some() {
            return Ok(());
        }
        let compressed = crate::pdf::stream::compress_zlib(self.data.as_slice(), 6);
        if compressed.len() < self.data.len() {
            self.data = compressed;
            self.filter = Some(ImageFilter::FlateDecode);
        }
        Ok(())
    }
}


/// Reads bytes as UTF-8 text (`std::str::from_utf8`): the text that the
/// bytes encode, or None when they are not valid UTF-8.
#[verifier::external_body]
fn utf8_text(data: &[u8]) -> (r: Option<&str>)
    ensures
        r is Some <==> valid_utf8(data@),
        r matches Some(s) ==> s@ == decode_utf8(data@),
{
    std::str::from_utf8(data).ok()
}

/// Parse SVG dimensions from SVG string: the width and height that the
/// `width`, `height` and `viewBox` attributes give, within 1 and 2000.
pub fn parse_svg_dimensions(svg: &str) -> (r: crate::types::Result<(u32, u32)>)
    requires
        svg_text_ok(svg@),
    ensures
        r matches Ok((w, h)) && w as nat == svg_size(svg@).0 && h as nat == svg_size(svg@).1,
{
    Ok(svg_size_of(svg))
}

/// Whether SVG bytes, where they are UTF-8, can be read for their size.
pub open spec fn svg_bytes_ok(d: Seq<u8>) -> bool {
    valid_utf8(d) ==> svg_text_ok(decode_utf8(d))
}

/// The placeholder pixels of an SVG image: `n` light blue RGB pixels.
pub open spec fn svg_placeholder(n: nat) -> Seq<u8> {
    Seq::new(3 * n, |i: int| if i % 3 == 0 { 200u8 } else if i % 3 == 1 { 220u8 } else { 255u8 })
}

/// What loading SVG bytes `d` gives: an error when they are not UTF-8,
/// else a light blue placeholder of the SVG's size.
pub open spec fn svg_loaded(d: Seq<u8>, r: crate::types::Result<PdfImage>) -> bool {
    &&& !valid_utf8(d) ==> (r matches Err(PdfError::Image(m)) && m@ == "Invalid SVG: not UTF-8"@)
    &&& valid_utf8(d) ==> {
        let (w, h) = svg_size(decode_utf8(d));
        r matches Ok(img) && img.color_space == ColorSpace::DeviceRGB
            && plain_image(img, w as u32, h as u32, 8, svg_placeholder(w * h))
    }
}

/// What loading image bytes `d` gives, by their detected format.
pub open spec fn image_loaded(d: Seq<u8>, r: crate::types::Result<PdfImage>) -> bool {
    match detected_format(d) {
        None => r matches Err(PdfError::Image(m)) && m@ == "Unknown image format"@,
        Some(ImageFormat::Png) => png_loaded(d, r),
        Some(ImageFormat::Jpeg) => jpeg_loaded(d, r),
        Some(ImageFormat::Gif) => decoded_image(r, "GIF"@, gif_decoding(d)),
        Some(ImageFormat::Bmp) => decoded_image(r, "BMP"@, bmp_decoding(d)),
        Some(ImageFormat::WebP) => r matches Err(PdfError::Image(m))
            && m@ == "WebP support not enabled. Add 'webp' feature to image crate dependency."@,
        Some(ImageFormat::Svg) => svg_loaded(d, r),
    }
}

impl PdfImage {
    /// Load image from any supported format
    pub fn from_bytes(data: &[u8]) -> (r: crate::types::Result<PdfImage>)
        requires
            detected_format(data@) == Some(ImageFormat::Png) ==> png_decodable(data@),
            detected_format(data@) == Some(ImageFormat::Svg) ==> svg_bytes_ok(data@),
        ensures
            image_loaded(data@, r),
    {
        match PdfImage::detect_format(data) {
            None => Err(PdfError::Image(String::from_str("Unknown image format"))),
            Some(ImageFormat::Png) => PdfImage::from_png(data),
            Some(ImageFormat::Jpeg) => PdfImage::from_jpeg(data),
            Some(ImageFormat::Gif) => PdfImage::from_gif(data),
            Some(ImageFormat::Bmp) => PdfImage::from_bmp(data),
            Some(ImageFormat::WebP) => PdfImage::from_webp(data),
            Some(ImageFormat::Svg) => PdfImage::from_svg(data),
        }
    }
}

impl PdfImage {
    /// Get SVG dimensions without full rendering
    pub fn get_svg_dimensions(data: &[u8]) -> (r: crate::types::Result<(u32, u32)>)
        requires
            svg_bytes_ok(data@),
        ensures
            !valid_utf8(data@) ==> (r matches Err(PdfError::Image(m)) && m@ == "Invalid SVG: not UTF-8"@),
            valid_utf8(data@) ==> (r matches Ok((w, h))
                && w as nat == svg_size(decode_utf8(data@)).0 && h as nat == svg_size(decode_utf8(data@)).1),
    {
        match utf8_text(data) {
            None => Err(PdfError::Image(String::from_str("Invalid SVG: not UTF-8"))),
            Some(text) => parse_svg_dimensions(text),
        }
    }

    /// Load from SVG data: a light blue RGB placeholder of the SVG's size.
    pub fn from_svg(data: &[u8]) -> (r: crate::types::Result<PdfImage>)
        requires
            svg_bytes_ok(data@),
        ensures
            svg_loaded(data@, r),
    {
        let (width, height) = match PdfImage::get_svg_dimensions(data) {
            Ok(d) => d,
            Err(e) => return Err(e),
        };
        proof {
            crate::pdf::svg::lemma_size_bounds(decode_utf8(data@));
        }
        assert(width as int * height as int <= 2000 * 2000) by (nonlinear_arith)
            requires width <= 2000, height <= 2000;
        let n: usize = (width as usize) * (height as usize);
        let mut rgb: Vec<u8> = Vec::new();
        let mut i: usize = 0;
        while i < n
            invariant
                i <= n,
                n <= 4000000,
                rgb@ == svg_placeholder(i as nat),
            decreases n - i,
        {
            rgb.push(200);
            rgb.push(220);
            rgb.push(255);
            assert(rgb@ =~= svg_placeholder((i + 1) as nat));
            i = i + 1;
        }
        Ok(PdfImage::rgb(width, height, rgb))
    }
}

} // verus!

verus! {

/// The first `k` whole rows of PNG "Up" filtering: each row `r` is the
/// filter byte 2 and `png_up_row(data, rs, r)`, at `r * (rs + 1)`.
proof fn lemma_up_rows_layout(data: Seq<u8>, rs: nat, h: nat, k: nat)
    requires
        rs > 0,
        data.len() == h * rs,
        k <= h,
    ensures
        png_up_rows(data, rs, k).len() == k * (rs + 1),
        forall|r: nat| r < k ==> {
            &&& #[trigger] png_up_rows(data, rs, k)[(r * (rs + 1)) as int] == 2
            &&& png_up_rows(data, rs, k).subrange((r * (rs + 1) + 1) as int, ((r + 1) * (rs + 1)) as int) == png_up_row(data, rs, r)
        },
    decreases k,
{
    if k > 0 {
        let km = (k - 1) as nat;
        lemma_up_rows_layout(data, rs, h, km);
        let pre = png_up_rows(data, rs, km);
        let row = png_up_row(data, rs, km);
        assert(km * rs + rs <= h * rs) by (nonlinear_arith) requires km < h, rs > 0;
        assert((km + 1) * rs == km * rs + rs) by (nonlinear_arith);
        assert(row.len() == rs);
        let all = png_up_rows(data, rs, k);
        assert(all == pre + seq![2u8] + row);
        assert(k * (rs + 1) == km * (rs + 1) + rs + 1) by (nonlinear_arith) requires k == km + 1;
        assert forall|r: nat| r < k implies {
            &&& #[trigger] all[(r * (rs + 1)) as int] == 2
            &&& all.subrange((r * (rs + 1) + 1) as int, ((r + 1) * (rs + 1)) as int) == png_up_row(data, rs, r)
        } by {
            assert((r + 1) * (rs + 1) == r * (rs + 1) + rs + 1) by (nonlinear_arith);
            if r < km {
                assert((r + 1) * (rs + 1) <= km * (rs + 1)) by (nonlinear_arith) requires r + 1 <= km;
                assert(all[(r * (rs + 1)) as int] == pre[(r * (rs + 1)) as int]);
                assert(all.subrange((r * (rs + 1) + 1) as int, ((r + 1) * (rs + 1)) as int)
                    =~= pre.subrange((r * (rs + 1) + 1) as int, ((r + 1) * (rs + 1)) as int));
            } else {
                assert(r == km);
                assert(all.subrange((r * (rs + 1) + 1) as int, ((r + 1) * (rs + 1)) as int) =~= row);
            }
        }
    }
}

/// A byte less what is above it, plus what is above it, is the byte.
proof fn lemma_add8_undoes_sub(d: u8, a: u8)
    ensures
        add8(((d - a) % 256) as u8, a) == d,
{
    if d >= a {
        assert(((d - a) % 256) as u8 == d - a);
    } else {
        assert((d - a) % 256 == d - a + 256);
    }
}

/// Undoing the Up filter, row by row from row `r` on, gives back the rows.
proof fn lemma_up_rows_undone(data: Seq<u8>, rs: nat, bpp: nat, h: nat, r: nat)
    requires
        rs > 0,
        data.len() == h * rs,
        r <= h,
    ensures
        png_rows(png_up_rows(data, rs, h), rs, bpp, h, r,
            if r == 0 { Seq::new(rs, |i: int| 0u8) } else { data.subrange(((r - 1) * rs) as int, (r * rs) as int) })
            == data.subrange((r * rs) as int, (h * rs) as int),
    decreases h - r,
{
    let dec = png_up_rows(data, rs, h);
    let prev = if r == 0 { Seq::new(rs, |i: int| 0u8) } else { data.subrange(((r - 1) * rs) as int, (r * rs) as int) };
    lemma_up_rows_layout(data, rs, h, h);
    if r >= h {
        assert(data.subrange((r * rs) as int, (h * rs) as int) =~= Seq::<u8>::empty());
    } else {
        let src = r * (rs + 1);
        assert(src < h * (rs + 1)) by (nonlinear_arith) requires r < h, rs > 0, src == r * (rs + 1);
        assert((r + 1) * (rs + 1) == src + rs + 1) by (nonlinear_arith) requires src == r * (rs + 1);
        assert((r + 1) * (rs + 1) <= h * (rs + 1)) by (nonlinear_arith) requires r + 1 <= h;
        assert((r + 1) * rs == r * rs + rs) by (nonlinear_arith);
        assert(r * rs + rs <= h * rs) by (nonlinear_arith) requires r + 1 <= h;
        assert(dec[src as int] == 2);
        let row = dec.subrange((src + 1) as int, (src + 1 + rs) as int);
        assert(row == png_up_row(data, rs, r));
        let f = unfilter_row(dec[src as int], row, prev, bpp);
        let want = data.subrange((r * rs) as int, ((r + 1) * rs) as int);
        assert(f =~= want) by {
            assert forall|j: int| 0 <= j < rs implies f[j] == want[j] by {
                let above: u8 = if r == 0 { 0u8 } else { data[(r - 1) * rs + j] };
                if r > 0 {
                    assert((r - 1) * rs + rs == r * rs) by (nonlinear_arith) requires r > 0;
                    assert(prev[j] == data[(r - 1) * rs + j]);
                }
                assert(prev[j] == above);
                assert(row[j] == ((data[r * rs + j] - above) % 256) as u8);
                lemma_add8_undoes_sub(data[r * rs + j], above);
            }
        }
        lemma_up_rows_undone(data, rs, bpp, h, r + 1);
        assert(data.subrange((r * rs) as int, (h * rs) as int) =~= want + data.subrange(((r + 1) * rs) as int, (h * rs) as int));
    }
}

/// PNG "Up" prediction (`Predictor::apply`) is undone by PNG row decoding
/// (`decode_png_rows`): for image data of whole rows, decoding the
/// predicted bytes gives the data back.
pub proof fn lemma_png_up_round_trip(data: Seq<u8>, width: u32, height: u32, bit_depth: u8, color_type: u8)
    requires
        width * png_bpp(color_type, bit_depth) > 0,
        data.len() == height * (width * png_bpp(color_type, bit_depth)),
    ensures
        png_pixels(crate::pdf::stream::predicted(crate::pdf::stream::Predictor::PngUp, data,
            (width * png_bpp(color_type, bit_depth)) as nat), width, height, bit_depth, color_type) == data,
{
    let rs = (width * png_bpp(color_type, bit_depth)) as nat;
    let h = height as nat;
    assert(((data.len() + rs - 1) as nat) / rs == h) by (nonlinear_arith)
        requires rs > 0, data.len() == h * rs;
    lemma_up_rows_undone(data, rs, png_bpp(color_type, bit_depth), h, 0);
    assert(data.subrange((0) as int, (h * rs) as int) =~= data);
}

} // verus!
