//! The PDF file writer: it numbers the objects of a document (catalog,
//! page tree, pages, content streams, fonts, information) and writes them
//! with the cross-reference table and trailer that locate them.

use vstd::prelude::*;
use vstd::string::StrSliceExecFns;
use vstd::utf8::encode_utf8;
use crate::types::F32Bits;
use crate::strings::{decimal, decimal_string, push_decimal, push_char, chars_of, str_eq};
use crate::pdf::object::{PdfObject, PdfReference, PdfDictionary, PdfArray, object_text, writable,
    entries_view, insert_view, view_entries_writable, lemma_entries_view_text, integer_text, reference_text,
    items_writable, entries_writable};
use crate::pdf::content::PageContent;

verus! {

/// What a writer holds, as plain values.
pub struct WriterView {
    pub objects: Seq<(PdfReference, PdfObject)>,
    pub pages: Seq<PdfReference>,
    pub fonts: Seq<(Seq<char>, PdfReference)>,
    pub page_width: F32Bits,
    pub page_height: F32Bits,
    pub next_object_number: nat,
    pub catalog_ref: Option<PdfReference>,
    pub pages_tree_ref: Option<PdfReference>,
    pub info_ref: Option<PdfReference>,
}

/// Objects are numbered 1, 2, ... in the order they were added, the next
/// number follows the last, every object but a stream can be written in
/// place, and font names are distinct.
pub open spec fn writer_wf(v: WriterView) -> bool {
    &&& v.next_object_number == v.objects.len() + 1
    &&& forall|i: int| 0 <= i < v.objects.len()
        ==> (#[trigger] v.objects[i]).0 == PdfReference { object_number: (i + 1) as u32, generation: 0 }
    &&& forall|i: int| 0 <= i < v.objects.len()
        ==> (#[trigger] v.objects[i]).1 is Stream || writable(v.objects[i].1)
    &&& forall|i: int, j: int| 0 <= i < j < v.fonts.len() ==> (#[trigger] v.fonts[i]).0 != (#[trigger] v.fonts[j]).0
}

/// The font list with `name` mapped to `r`: replaced where the name is
/// held, else added at the end.
pub open spec fn put_font(fs: Seq<(Seq<char>, PdfReference)>, name: Seq<char>, r: PdfReference) -> Seq<(Seq<char>, PdfReference)> {
    if exists|i: int| 0 <= i < fs.len() && fs[i].0 == name {
        let i = choose|i: int| 0 <= i < fs.len() && fs[i].0 == name;
        fs.update(i, (name, r))
    } else {
        fs.push((name, r))
    }
}

/// The bit pattern of 595.28, the width of A4 in points.
pub open spec fn a4_width() -> F32Bits {
    F32Bits(0x4414_d1ec)
}

/// The bit pattern of 841.89, the height of A4 in points.
pub open spec fn a4_height() -> F32Bits {
    F32Bits(0x4452_78f6)
}

/// PDF document writer
pub struct PdfWriter {
    objects: Vec<(PdfReference, PdfObject)>,
    pages: Vec<PdfReference>,
    fonts: Vec<(String, PdfReference)>,
    page_width: F32Bits,
    page_height: F32Bits,
    next_object_number: u32,
    catalog_ref: Option<PdfReference>,
    pages_tree_ref: Option<PdfReference>,
    info_ref: Option<PdfReference>,
}

/// The fonts as plain names and references.
pub open spec fn fonts_view(fs: Seq<(String, PdfReference)>) -> Seq<(Seq<char>, PdfReference)> {
    Seq::new(fs.len(), |i: int| (fs[i].0@, fs[i].1))
}

impl View for PdfWriter {
    type V = WriterView;

    closed spec fn view(&self) -> WriterView {
        WriterView {
            objects: self.objects@,
            pages: self.pages@,
            fonts: fonts_view(self.fonts@),
            page_width: self.page_width,
            page_height: self.page_height,
            next_object_number: self.next_object_number as nat,
            catalog_ref: self.catalog_ref,
            pages_tree_ref: self.pages_tree_ref,
            info_ref: self.info_ref,
        }
    }
}

pub proof fn lemma_insert_writable(ev: Seq<(Seq<char>, PdfObject)>, k: Seq<char>, v: PdfObject)
    requires
        view_entries_writable(ev),
        writable(v),
    ensures
        view_entries_writable(insert_view(ev, k, v)),
    decreases ev.len(),
{
    if ev.len() > 0 && ev[0].0 != k && !crate::pdf::object::lex_lt(k, ev[0].0) {
        let rest = ev.drop_first();
        assert forall|i: int| 0 <= i < rest.len() implies writable(#[trigger] rest[i].1) by {
            assert(rest[i] == ev[i + 1]);
        }
        lemma_insert_writable(rest, k, v);
        let r = insert_view(ev, k, v);
        assert forall|i: int| 0 <= i < r.len() implies writable(#[trigger] r[i].1) by {
            if i > 0 {
                assert(r[i] == insert_view(rest, k, v)[i - 1]);
            }
        }
    } else if ev.len() > 0 && ev[0].0 == k {
        let r = insert_view(ev, k, v);
        assert forall|i: int| 0 <= i < r.len() implies writable(#[trigger] r[i].1) by {
            if i > 0 {
                assert(r[i] == ev[i]);
            }
        }
    } else {
        let r = insert_view(ev, k, v);
        assert forall|i: int| 0 <= i < r.len() implies writable(#[trigger] r[i].1) by {
            if i > 0 {
                assert(r[i] == ev[i - 1]);
            }
        }
    }
}

/// Inserts into a dictionary whose values can all be written, keeping
/// that so.
fn insert_writable(d: &mut PdfDictionary, key: &str, value: PdfObject)
    requires
        entries_writable(old(d).entries()),
        writable(value),
    ensures
        entries_writable(final(d).entries()),
        entries_view(final(d).entries()) == insert_view(entries_view(old(d).entries()), key@, value),
        final(d).value_of(key@) == Some(value),
        forall|k: Seq<char>| k != key@ ==> final(d).value_of(k) == old(d).value_of(k),
        final(d).entries().len() == old(d).entries().len()
            + if old(d).value_of(key@) is Some { 0int } else { 1int },
{
    proof { lemma_entries_view_text(d.entries()); }
    let ghost v0 = entries_view(d.entries());
    d.insert(key, value);
    proof {
        lemma_insert_writable(v0, key@, value);
        lemma_entries_view_text(d.entries());
    }
}

/// A name object.
fn name_object(n: &str) -> (r: PdfObject)
    ensures
        r matches PdfObject::Name(s) && s@ == n@,
        writable(r),
{
    PdfObject::Name(String::from_str(n))
}

/// The whole seconds since 1970 on the system clock (`SystemTime::now`),
/// or None when the clock is set before 1970. Nothing is claimed of the
/// value: it is the time.
#[verifier::external_body]
pub(crate) fn unix_seconds() -> (r: Option<u64>) {
    match std::time::SystemTime::now().duration_since(std::time::UNIX_EPOCH) {
        Ok(d) => Some(d.as_secs()),
        Err(_) => None,
    }
}

/// `s` with zeros before it up to `w` characters.
pub open spec fn zero_pad(s: Seq<char>, w: nat) -> Seq<char> {
    if s.len() < w { Seq::new((w - s.len()) as nat, |i: int| '0') + s } else { s }
}

/// Appends `s` after zeros up to `w` characters.
fn push_zero_padded(out: &mut String, s: &String, w: usize)
    ensures
        final(out)@ == old(out)@ + zero_pad(s@, w as nat),
{
    let cs = chars_of(s.as_str());
    let mut k: usize = cs.len();
    let ghost start = out@;
    while k < w
        invariant
            cs@ == s@,
            cs@.len() <= k <= w || (k == cs@.len() && k >= w),
            out@ == start + Seq::new((k - cs@.len()) as nat, |i: int| '0'),
        decreases w - k,
    {
        push_char(out, '0');
        assert(out@ =~= start + Seq::new((k + 1 - cs@.len()) as nat, |i: int| '0'));
        k = k + 1;
    }
    out.append(s.as_str());
    assert(out@ =~= start + zero_pad(s@, w as nat));
}

/// The creation date text for `secs` seconds since 1970:
/// `D:` and the seconds with at least 14 digits, then `Z00'00'`.
pub open spec fn date_text(secs: u64) -> Seq<char> {
    "D:"@ + zero_pad(decimal(secs as nat), 14) + "Z00'00'"@
}

/// `v` with `(r, o)` added as its last object.
pub open spec fn with_object(v: WriterView, r: PdfReference, o: PdfObject) -> WriterView {
    WriterView { objects: v.objects.push((r, o)), next_object_number: v.next_object_number + 1, ..v }
}

/// The catalog of a document whose page tree is `tree`.
pub open spec fn is_catalog(o: PdfObject, tree: PdfReference) -> bool {
    o matches PdfObject::Dictionary(d) && {
        &&& d.entries().len() == 2
        &&& d.value_of("Type"@) matches Some(PdfObject::Name(n)) && n@ == "Catalog"@
        &&& d.value_of("Pages"@) == Some(PdfObject::Reference(tree))
    }
}

/// `w` is `v` with an empty page tree and then a catalog added.
pub open spec fn initialized(v: WriterView, w: WriterView) -> bool {
    let n = v.objects.len();
    let tree = PdfReference { object_number: v.next_object_number as u32, generation: 0 };
    let cat = PdfReference { object_number: (v.next_object_number + 1) as u32, generation: 0 };
    &&& w.objects.len() == n + 2
    &&& w.objects.subrange(0, n as int) == v.objects
    &&& w.objects[n as int].0 == tree
    &&& w.objects[n as int].1 matches PdfObject::Dictionary(d) && d.entries().len() == 0
    &&& w.objects[n + 1int].0 == cat
    &&& is_catalog(w.objects[n + 1int].1, tree)
    &&& w.pages_tree_ref == Some(tree)
    &&& w.catalog_ref == Some(cat)
    &&& w.next_object_number == v.next_object_number + 2
    &&& w.pages == v.pages && w.fonts == v.fonts && w.info_ref == v.info_ref
    &&& w.page_width == v.page_width && w.page_height == v.page_height
}

/// A standard font dictionary for `base`.
pub open spec fn is_font(o: PdfObject, base: Seq<char>) -> bool {
    o matches PdfObject::Dictionary(d) && {
        &&& d.entries().len() == 4
        &&& d.value_of("Type"@) matches Some(PdfObject::Name(n)) && n@ == "Font"@
        &&& d.value_of("Subtype"@) matches Some(PdfObject::Name(n)) && n@ == "Type1"@
        &&& d.value_of("BaseFont"@) matches Some(PdfObject::Name(n)) && n@ == base
        &&& d.value_of("Encoding"@) matches Some(PdfObject::Name(n)) && n@ == "WinAnsiEncoding"@
    }
}

/// A string object holding the UTF-8 bytes of `t`.
pub open spec fn is_text(o: Option<PdfObject>, t: Seq<char>) -> bool {
    o matches Some(PdfObject::String(b)) && b@ == encode_utf8(t)
}

/// A document information dictionary.
pub open spec fn is_info(o: PdfObject, title: Seq<char>, author: Seq<char>, creator: Seq<char>, secs: u64) -> bool {
    o matches PdfObject::Dictionary(d) && {
        &&& d.entries().len() == 5
        &&& is_text(d.value_of("Title"@), title)
        &&& is_text(d.value_of("Author"@), author)
        &&& is_text(d.value_of("Creator"@), creator)
        &&& is_text(d.value_of("Producer"@), "HTML2PDF Rust"@)
        &&& is_text(d.value_of("CreationDate"@), date_text(secs))
    }
}

/// The page box `[0 0 w h]`.
pub open spec fn is_box(o: Option<PdfObject>, w: F32Bits, h: F32Bits) -> bool {
    o matches Some(PdfObject::Array(a))
        && a.items@ == seq![PdfObject::Integer(0), PdfObject::Integer(0), PdfObject::Real(w), PdfObject::Real(h)]
}

/// A name object holding `t`.
pub open spec fn is_name(o: PdfObject, t: Seq<char>) -> bool {
    o matches PdfObject::Name(n) && n@ == t
}

/// The procedure sets `[/PDF /Text /ImageB /ImageC /ImageI]`.
pub open spec fn is_procset(o: Option<PdfObject>) -> bool {
    o matches Some(PdfObject::Array(a)) && {
        &&& a.items@.len() == 5
        &&& is_name(a.items@[0], "PDF"@)
        &&& is_name(a.items@[1], "Text"@)
        &&& is_name(a.items@[2], "ImageB"@)
        &&& is_name(a.items@[3], "ImageC"@)
        &&& is_name(a.items@[4], "ImageI"@)
    }
}

/// The font resources: each font name to its reference.
pub open spec fn is_font_dict(o: Option<PdfObject>, fonts: Seq<(Seq<char>, PdfReference)>) -> bool {
    o matches Some(PdfObject::Dictionary(d)) && {
        &&& d.entries().len() == fonts.len()
        &&& forall|i: int| 0 <= i < fonts.len()
            ==> d.value_of((#[trigger] fonts[i]).0) == Some(PdfObject::Reference(fonts[i].1))
    }
}

/// A page's resources: the fonts (when there are any) and the procedure
/// sets.
pub open spec fn is_resources(o: Option<PdfObject>, fonts: Seq<(Seq<char>, PdfReference)>) -> bool {
    o matches Some(PdfObject::Dictionary(d)) && {
        &&& d.entries().len() == if fonts.len() > 0 { 2nat } else { 1nat }
        &&& is_procset(d.value_of("ProcSet"@))
        &&& fonts.len() > 0 ==> is_font_dict(d.value_of("Font"@), fonts)
        &&& fonts.len() == 0 ==> d.value_of("Font"@) is None
    }
}

/// A page dictionary.
pub open spec fn is_page(o: PdfObject, tree: PdfReference, contents: PdfReference, w: F32Bits, h: F32Bits,
    fonts: Seq<(Seq<char>, PdfReference)>) -> bool {
    o matches PdfObject::Dictionary(d) && {
        &&& d.entries().len() == 6
        &&& d.value_of("Type"@) matches Some(PdfObject::Name(n)) && n@ == "Page"@
        &&& d.value_of("Parent"@) == Some(PdfObject::Reference(tree))
        &&& d.value_of("Contents"@) == Some(PdfObject::Reference(contents))
        &&& is_box(d.value_of("MediaBox"@), w, h)
        &&& is_box(d.value_of("CropBox"@), w, h)
        &&& is_resources(d.value_of("Resources"@), fonts)
    }
}

/// `w` is `v` with the objects `added` after its own, numbered on, and
/// everything else the same but what `w` states itself.
pub open spec fn grown_by(v: WriterView, w: WriterView, added: Seq<PdfObject>) -> bool {
    &&& w.objects.len() == v.objects.len() + added.len()
    &&& w.objects.subrange(0, v.objects.len() as int) == v.objects
    &&& forall|i: int| 0 <= i < added.len() ==> #[trigger] w.objects[v.objects.len() + i].1 == added[i]
    &&& w.next_object_number == v.next_object_number + added.len()
    &&& w.page_width == v.page_width && w.page_height == v.page_height
    &&& w.catalog_ref == v.catalog_ref && w.pages_tree_ref == v.pages_tree_ref
}

pub proof fn lemma_items_writable_all(xs: Seq<PdfObject>)
    requires
        forall|i: int| 0 <= i < xs.len() ==> writable(#[trigger] xs[i]),
    ensures
        items_writable(xs),
    decreases xs.len(),
{
    if xs.len() > 0 {
        let pre = xs.subrange(0, xs.len() - 1);
        assert forall|i: int| 0 <= i < pre.len() implies writable(#[trigger] pre[i]) by {
            assert(pre[i] == xs[i]);
        }
        lemma_items_writable_all(pre);
        assert(writable(xs[xs.len() - 1]));
    }
}

/// The page box `[0 0 w h]`.
fn page_box(w: F32Bits, h: F32Bits) -> (r: PdfObject)
    ensures
        is_box(Some(r), w, h),
        writable(r),
{
    let mut a = PdfArray::new();
    a.push(PdfObject::Integer(0));
    a.push(PdfObject::Integer(0));
    a.push(PdfObject::Real(w));
    a.push(PdfObject::Real(h));
    assert(a.items@ =~= seq![PdfObject::Integer(0), PdfObject::Integer(0), PdfObject::Real(w), PdfObject::Real(h)]);
    proof { lemma_items_writable_all(a.items@); }
    PdfObject::Array(a)
}

/// The procedure sets array.
fn procset() -> (r: PdfObject)
    ensures
        is_procset(Some(r)),
        writable(r),
{
    let mut a = PdfArray::new();
    a.push(name_object("PDF"));
    a.push(name_object("Text"));
    a.push(name_object("ImageB"));
    a.push(name_object("ImageC"));
    a.push(name_object("ImageI"));
    proof { lemma_items_writable_all(a.items@); }
    PdfObject::Array(a)
}

/// A string object with the UTF-8 bytes of `t`.
fn text_object(t: &str) -> (r: PdfObject)
    ensures
        is_text(Some(r), t@),
        writable(r),
{
    PdfObject::String(t.as_bytes_vec())
}

/// The first bytes of the file: the version line and a comment line of
/// four bytes above 127, which marks the file as binary.
pub open spec fn pdf_header() -> Seq<u8> {
    encode_utf8("%PDF-1.4\n"@) + seq![0x25u8, 0xE2u8, 0xE3u8, 0xCFu8, 0xD3u8, 0x0Au8]
}

/// References as written, separated by single spaces.
pub open spec fn refs_text(rs: Seq<PdfReference>) -> Seq<char>
    decreases rs.len(),
{
    if rs.len() == 0 {
        Seq::empty()
    } else {
        refs_text(rs.drop_last()) + (if rs.len() > 1 { " "@ } else { Seq::empty() }) + reference_text(rs.last())
    }
}

/// The page tree as written: its page count, its pages and its type, in
/// key order.
pub open spec fn pages_tree_text(pages: Seq<PdfReference>) -> Seq<char> {
    "<</Count "@ + integer_text(pages.len() as i32) + "/Kids ["@ + refs_text(pages) + "]/Type /Pages>>"@
}

/// What is written of object `o` numbered `r`, between its header and
/// `endobj`: the page tree in place of the object that holds its number;
/// a stream as its length dictionary, `stream`, its bytes and `endstream`;
/// any other object as its text.
pub open spec fn object_body(v: WriterView, r: PdfReference, o: PdfObject) -> Seq<u8> {
    if v.pages_tree_ref == Some(r) {
        encode_utf8(pages_tree_text(v.pages) + "\n"@)
    } else {
        match o {
            PdfObject::Stream(d) => encode_utf8("<</Length "@ + integer_text(d@.len() as i32) + ">>\nstream\n"@)
                + d@ + encode_utf8("\nendstream\n"@),
            _ => encode_utf8(object_text(o) + "\n"@),
        }
    }
}

/// An object as written: `n g obj`, the body, `endobj`.
pub open spec fn object_chunk(v: WriterView, r: PdfReference, o: PdfObject) -> Seq<u8> {
    encode_utf8(decimal(r.object_number as nat) + " "@ + decimal(r.generation as nat) + " obj\n"@)
        + object_body(v, r, o) + encode_utf8("endobj\n"@)
}

/// The objects as written, in order.
pub open spec fn chunks(v: WriterView, objs: Seq<(PdfReference, PdfObject)>) -> Seq<u8>
    decreases objs.len(),
{
    if objs.len() == 0 {
        Seq::empty()
    } else {
        chunks(v, objs.drop_last()) + object_chunk(v, objs.last().0, objs.last().1)
    }
}

/// The cross-reference lines of the objects written from byte `start` on:
/// each object's byte offset (as `u32`) in ten digits, generation `00000`,
/// in use.
pub open spec fn xref_entries(v: WriterView, objs: Seq<(PdfReference, PdfObject)>, start: nat) -> Seq<char>
    decreases objs.len(),
{
    if objs.len() == 0 {
        Seq::empty()
    } else {
        xref_entries(v, objs.drop_last(), start)
            + zero_pad(decimal(((start + chunks(v, objs.drop_last()).len()) as u32) as nat), 10) + " 00000 n \n"@
    }
}

/// The trailer dictionary as written: the information and catalog
/// references where there are any, and the size, in key order.
pub open spec fn trailer_text(v: WriterView) -> Seq<char> {
    "<<"@ + (match v.info_ref { Some(i) => "/Info "@ + reference_text(i), None => Seq::empty() })
        + (match v.catalog_ref { Some(c) => "/Root "@ + reference_text(c), None => Seq::empty() })
        + "/Size "@ + integer_text(v.next_object_number as i32) + ">>"@
}

/// The PDF file of writer `v` written from byte `base` of its output: the
/// header, the objects, the cross-reference table (the free object 0,
/// then each object), the trailer, and the offset of the table.
pub open spec fn pdf_file(v: WriterView, base: nat) -> Seq<u8> {
    let body = pdf_header() + chunks(v, v.objects);
    body + encode_utf8("xref\n0 "@ + decimal(v.next_object_number) + "\n0000000000 65535 f \n"@
        + xref_entries(v, v.objects, base + pdf_header().len()) + "trailer\n"@ + trailer_text(v)
        + "\nstartxref\n"@ + decimal(base + body.len()) + "\n%%EOF\n"@)
}

pub proof fn lemma_encode_concat(a: Seq<char>, b: Seq<char>)
    ensures
        encode_utf8(a + b) == encode_utf8(a) + encode_utf8(b),
    decreases a.len(),
{
    if a.len() == 0 {
        assert(a + b =~= b);
        assert(encode_utf8(a) =~= Seq::<u8>::empty());
        assert(encode_utf8(a) + encode_utf8(b) =~= encode_utf8(b));
    } else {
        assert((a + b).drop_first() =~= a.drop_first() + b);
        assert((a + b)[0] == a[0]);
        lemma_encode_concat(a.drop_first(), b);
        assert(encode_utf8(a + b) =~= encode_utf8(a) + encode_utf8(b));
    }
}

/// Appends the UTF-8 bytes of `s`.
fn push_text(output: &mut Vec<u8>, s: &str)
    ensures
        final(output)@ == old(output)@ + encode_utf8(s@),
{
    let mut b = s.as_bytes_vec();
    output.append(&mut b);
}


/// Where object `i` begins in the file, counted from the file's first
/// byte.
pub open spec fn object_offset(v: WriterView, i: int) -> nat {
    pdf_header().len() + chunks(v, v.objects.take(i)).len()
}

pub proof fn lemma_chunks_prefix(v: WriterView, objs: Seq<(PdfReference, PdfObject)>, j: int)
    requires
        0 <= j <= objs.len(),
    ensures
        chunks(v, objs).subrange(0, chunks(v, objs.take(j)).len() as int) == chunks(v, objs.take(j)),
        chunks(v, objs.take(j)).len() <= chunks(v, objs).len(),
    decreases objs.len() - j,
{
    if j == objs.len() {
        assert(objs.take(j) =~= objs);
        assert(chunks(v, objs).subrange(0, chunks(v, objs).len() as int) =~= chunks(v, objs));
    } else {
        lemma_chunks_prefix(v, objs, j + 1);
        let t = objs.take(j + 1);
        assert(t.drop_last() =~= objs.take(j));
        let a = chunks(v, objs.take(j));
        let b = chunks(v, t);
        assert(b == a + object_chunk(v, t.last().0, t.last().1));
        assert(b.subrange(0, a.len() as int) =~= a);
        assert(chunks(v, objs).subrange(0, a.len() as int) =~= b.subrange(0, a.len() as int));
    }
}

/// In a written file, every object's bytes (`n g obj` through `endobj`)
/// begin at the offset that the cross-reference table records for it (the
/// offset from the start of the output, as `u32`), and `startxref` gives
/// the offset of the `xref` line.
pub proof fn lemma_xref_locates_objects(v: WriterView, base: nat, i: int)
    requires
        0 <= i < v.objects.len(),
    ensures
        ({
            let off = object_offset(v, i);
            let c = object_chunk(v, v.objects[i].0, v.objects[i].1);
            pdf_file(v, base).subrange(off as int, (off + c.len()) as int) == c
        }),
        xref_entries(v, v.objects.take(i + 1), base + pdf_header().len())
            == xref_entries(v, v.objects.take(i), base + pdf_header().len())
                + zero_pad(decimal(((base + object_offset(v, i)) as u32) as nat), 10) + " 00000 n \n"@,
        ({
            let x = pdf_header().len() + chunks(v, v.objects).len();
            pdf_file(v, base).subrange(x as int, (x + 5) as int) == encode_utf8("xref\n"@)
        }),
{
    let objs = v.objects;
    let t = objs.take(i + 1);
    assert(t.drop_last() =~= objs.take(i));
    assert(t.last() == objs[i]);
    lemma_chunks_prefix(v, objs, i + 1);
    let a = chunks(v, objs.take(i));
    let c = object_chunk(v, objs[i].0, objs[i].1);
    assert(chunks(v, t) == a + c);
    let whole = chunks(v, objs);
    let file = pdf_file(v, base);
    let body = pdf_header() + whole;
    let off = pdf_header().len() + a.len();
    assert(whole.subrange(0, (a + c).len() as int) == a + c);
    assert(file.subrange(off as int, (off + c.len()) as int) =~= c) by {
        assert forall|k: int| 0 <= k < c.len() implies file[off + k] == c[k] by {
            assert(file[off + k] == body[off + k]);
            assert(body[off + k] == whole[a.len() + k]);
            assert(whole[a.len() + k] == (a + c)[a.len() + k]);
        }
    }
    let tail = "xref\n0 "@ + decimal(v.next_object_number) + "\n0000000000 65535 f \n"@
        + xref_entries(v, v.objects, base + pdf_header().len()) + "trailer\n"@ + trailer_text(v)
        + "\nstartxref\n"@ + decimal(base + body.len()) + "\n%%EOF\n"@;
    lemma_encode_concat("xref\n"@, tail.subrange(5, tail.len() as int));
    reveal_strlit("xref\n");
    reveal_strlit("xref\n0 ");
    assert(tail =~= "xref\n"@ + tail.subrange(5, tail.len() as int));
    assert(file.subrange(body.len() as int, (body.len() + 5) as int) =~= encode_utf8("xref\n"@)) by {
        assert(file == body + encode_utf8(tail));
        assert(encode_utf8(tail) == encode_utf8("xref\n"@) + encode_utf8(tail.subrange(5, tail.len() as int)));
        assert(encode_utf8("xref\n"@).len() == 5) by {
            vstd::utf8::is_ascii_chars_encode_utf8("xref\n"@);
        }
    }
}

impl PdfWriter {
    /// Whether the writer is well formed.
    pub open spec fn wf(&self) -> bool {
        writer_wf(self@)
    }

    /// Create a new PDF writer: A4 pages, no objects yet.
    pub fn new() -> (r: Self)
        ensures
            r.wf(),
            r@.objects.len() == 0,
            r@.pages.len() == 0,
            r@.fonts.len() == 0,
            r@.page_width == a4_width(),
            r@.page_height == a4_height(),
            r@.next_object_number == 1,
            r@.catalog_ref is None,
            r@.pages_tree_ref is None,
            r@.info_ref is None,
    {
        let r = PdfWriter {
            objects: Vec::new(),
            pages: Vec::new(),
            fonts: Vec::new(),
            page_width: F32Bits(0x4414_d1ec),
            page_height: F32Bits(0x4452_78f6),
            next_object_number: 1,
            catalog_ref: None,
            pages_tree_ref: None,
            info_ref: None,
        };
        assert(fonts_view(r.fonts@) =~= Seq::<(Seq<char>, PdfReference)>::empty());
        r
    }

    /// Get the current page dimensions
    pub fn page_size(&self) -> (r: (F32Bits, F32Bits))
        ensures
            r == (self@.page_width, self@.page_height),
    {
        (self.page_width, self.page_height)
    }

    /// Adds an object under the next number and returns its reference.
    fn add_object(&mut self, obj: PdfObject) -> (r: PdfReference)
        requires
            old(self).wf(),
            (obj is Stream) || writable(obj),
            old(self)@.next_object_number < u32::MAX,
        ensures
            final(self).wf(),
            r == (PdfReference { object_number: old(self)@.next_object_number as u32, generation: 0 }),
            final(self)@ == with_object(old(self)@, r, obj),
    {
        let reference = PdfReference::new(self.next_object_number, 0);
        self.objects.push((reference, obj));
        self.next_object_number = self.next_object_number + 1;
        reference
    }

    /// Initialize the document structure: an empty page tree, then the
    /// catalog that points to it.
    pub fn init_document(&mut self)
        requires
            old(self).wf(),
            old(self)@.next_object_number + 2 <= u32::MAX,
        ensures
            final(self).wf(),
            initialized(old(self)@, final(self)@),
    {
        let pages_tree = PdfDictionary::new();
        proof { lemma_entries_view_text(pages_tree.entries()); }
        let ghost tree_obj = PdfObject::Dictionary(pages_tree);
        let pages_tree_ref = self.add_object(PdfObject::Dictionary(pages_tree));
        self.pages_tree_ref = Some(pages_tree_ref);
        let mut catalog = PdfDictionary::new();
        proof { lemma_entries_view_text(catalog.entries()); }
        insert_writable(&mut catalog, "Type", name_object("Catalog"));
        proof { reveal_strlit("Type"); reveal_strlit("Pages"); }
        insert_writable(&mut catalog, "Pages", PdfObject::Reference(pages_tree_ref));
        assert("Pages"@ != "Type"@) by {
            reveal_strlit("Type");
            reveal_strlit("Pages");
            assert("Pages"@.len() != "Type"@.len());
        }
        assert(is_catalog(PdfObject::Dictionary(catalog), pages_tree_ref));
        let ghost mid = self@;
        let catalog_ref = self.add_object(PdfObject::Dictionary(catalog));
        self.catalog_ref = Some(catalog_ref);
        assert(self@.objects =~= old(self)@.objects.push((pages_tree_ref, PdfObject::Dictionary(pages_tree))).push((catalog_ref, PdfObject::Dictionary(catalog))));
        assert(self@.objects.subrange(0, old(self)@.objects.len() as int) =~= old(self)@.objects);
    }

    /// Add a standard font: a Type1 font dictionary for `base_font` with
    /// the WinAnsi encoding, known to the pages by `name`.
    pub fn add_standard_font(&mut self, name: &str, base_font: &str) -> (r: PdfReference)
        requires
            old(self).wf(),
            old(self)@.next_object_number < u32::MAX,
        ensures
            final(self).wf(),
            r == (PdfReference { object_number: old(self)@.next_object_number as u32, generation: 0 }),
            grown_by(old(self)@, final(self)@, seq![final(self)@.objects.last().1]),
            is_font(final(self)@.objects.last().1, base_font@),
            final(self)@.fonts == put_font(old(self)@.fonts, name@, r),
            final(self)@.pages == old(self)@.pages,
            final(self)@.info_ref == old(self)@.info_ref,
    {
        let mut font = PdfDictionary::new();
        proof {
            lemma_entries_view_text(font.entries());
            reveal_strlit("Type");
            reveal_strlit("Subtype");
            reveal_strlit("BaseFont");
            reveal_strlit("Encoding");
            assert("Type"@.len() != "Subtype"@.len() && "Type"@.len() != "BaseFont"@.len() && "Type"@.len() != "Encoding"@.len());
            assert("Subtype"@.len() != "BaseFont"@.len() && "Subtype"@.len() != "Encoding"@.len());
            assert("BaseFont"@[0] != "Encoding"@[0]);
        }
        insert_writable(&mut font, "Type", name_object("Font"));
        insert_writable(&mut font, "Subtype", name_object("Type1"));
        insert_writable(&mut font, "BaseFont", name_object(base_font));
        insert_writable(&mut font, "Encoding", name_object("WinAnsiEncoding"));
        let ghost fobj = PdfObject::Dictionary(font);
        assert(is_font(fobj, base_font@));
        let font_ref = self.add_object(PdfObject::Dictionary(font));
        let ghost before = self@;
        let mut j: usize = 0;
        let mut found = false;
        while j < self.fonts.len() && !found
            invariant
                j <= self.fonts@.len(),
                self@ == before,
                found ==> j < self.fonts@.len() && self.fonts@[j as int].0@ == name@,
                forall|k: int| 0 <= k < j ==> self.fonts@[k].0@ != name@,
            decreases self.fonts@.len() - j + if found { 0int } else { 1int },
        {
            if str_eq(self.fonts[j].0.as_str(), name) {
                found = true;
            } else {
                j = j + 1;
            }
        }
        proof {
            assert(fonts_view(self.fonts@) == before.fonts);
        }
        if found {
            let n = String::from_str(name);
            self.fonts.set(j, (n, font_ref));
            proof {
                let fv = fonts_view(self.fonts@);
                assert(fv =~= before.fonts.update(j as int, (name@, font_ref)));
                assert(before.fonts[j as int].0 == name@);
                let c = choose|i: int| 0 <= i < before.fonts.len() && before.fonts[i].0 == name@;
                assert(c == j) by {
                    if c != j {
                        if c < j {
                            assert(before.fonts[c].0 != before.fonts[j as int].0);
                        } else {
                            assert(before.fonts[j as int].0 != before.fonts[c].0);
                        }
                    }
                }
                assert forall|a: int, b: int| 0 <= a < b < fv.len() implies (#[trigger] fv[a]).0 != (#[trigger] fv[b]).0 by {
                    assert(before.fonts[a].0 != before.fonts[b].0);
                }
            }
        } else {
            self.fonts.push((String::from_str(name), font_ref));
            proof {
                let fv = fonts_view(self.fonts@);
                assert(fv =~= before.fonts.push((name@, font_ref)));
                assert forall|i: int| 0 <= i < before.fonts.len() implies before.fonts[i].0 != name@ by {
                    assert(before.fonts[i] == fonts_view(self.fonts@)[i]);
                }
                assert forall|a: int, b: int| 0 <= a < b < fv.len() implies (#[trigger] fv[a]).0 != (#[trigger] fv[b]).0 by {
                    if b < before.fonts.len() {
                        assert(before.fonts[a].0 != before.fonts[b].0);
                    }
                }
            }
        }
        assert(self@.objects.subrange(0, old(self)@.objects.len() as int) =~= old(self)@.objects);
        font_ref
    }

    /// Add document info, created at `secs` seconds since 1970.
    pub fn set_info_at(&mut self, title: &str, author: &str, creator: &str, secs: u64)
        requires
            old(self).wf(),
            old(self)@.next_object_number < u32::MAX,
        ensures
            final(self).wf(),
            final(self)@.info_ref == Some(PdfReference { object_number: old(self)@.next_object_number as u32, generation: 0 }),
            grown_by(old(self)@, final(self)@, seq![final(self)@.objects.last().1]),
            is_info(final(self)@.objects.last().1, title@, author@, creator@, secs),
            final(self)@.pages == old(self)@.pages,
            final(self)@.fonts == old(self)@.fonts,
    {
        let mut info = PdfDictionary::new();
        proof {
            lemma_entries_view_text(info.entries());
            reveal_strlit("Title");
            reveal_strlit("Author");
            reveal_strlit("Creator");
            reveal_strlit("Producer");
            reveal_strlit("CreationDate");
            assert("Title"@.len() == 5 && "Author"@.len() == 6 && "Creator"@.len() == 7);
            assert("Producer"@.len() == 8 && "CreationDate"@.len() == 12);
        }
        insert_writable(&mut info, "Title", text_object(title));
        insert_writable(&mut info, "Author", text_object(author));
        insert_writable(&mut info, "Creator", text_object(creator));
        insert_writable(&mut info, "Producer", text_object("HTML2PDF Rust"));
        let mut date = String::from_str("D:");
        let digits = decimal_string(secs as u128);
        push_zero_padded(&mut date, &digits, 14);
        date.append("Z00'00'");
        insert_writable(&mut info, "CreationDate", text_object(date.as_str()));
        let ghost iobj = PdfObject::Dictionary(info);
        assert(is_info(iobj, title@, author@, creator@, secs));
        let info_ref = self.add_object(PdfObject::Dictionary(info));
        self.info_ref = Some(info_ref);
        assert(self@.objects.subrange(0, old(self)@.objects.len() as int) =~= old(self)@.objects);
    }

    /// Add document info, created now (the system clock's seconds since
    /// 1970; a clock set before 1970 counts as 0).
    pub fn set_info(&mut self, title: &str, author: &str, creator: &str)
        requires
            old(self).wf(),
            old(self)@.next_object_number < u32::MAX,
        ensures
            final(self).wf(),
            final(self)@.info_ref == Some(PdfReference { object_number: old(self)@.next_object_number as u32, generation: 0 }),
            grown_by(old(self)@, final(self)@, seq![final(self)@.objects.last().1]),
            exists|secs: u64| is_info(#[trigger] final(self)@.objects.last().1, title@, author@, creator@, secs),
            final(self)@.pages == old(self)@.pages,
            final(self)@.fonts == old(self)@.fonts,
    {
        let secs = match unix_seconds() {
            Some(s) => s,
            None => 0,
        };
        self.set_info_at(title, author, creator, secs);
    }

    /// Add a page with content: its content stream, then the page
    /// dictionary (in the page tree, with the page size as media and crop
    /// box, and the fonts as resources). Returns the page's reference.
    pub fn add_page(&mut self, content: PageContent) -> (r: PdfReference)
        requires
            old(self).wf(),
            old(self)@.pages_tree_ref is Some,
            old(self)@.next_object_number + 2 <= u32::MAX,
        ensures
            final(self).wf(),
            r == (PdfReference { object_number: (old(self)@.next_object_number + 1) as u32, generation: 0 }),
            grown_by(old(self)@, final(self)@,
                seq![final(self)@.objects[old(self)@.objects.len() as int].1, final(self)@.objects.last().1]),
            final(self)@.objects[old(self)@.objects.len() as int].1 matches PdfObject::Stream(d) && d@ == content.content@,
            is_page(final(self)@.objects.last().1, old(self)@.pages_tree_ref.unwrap(),
                PdfReference { object_number: old(self)@.next_object_number as u32, generation: 0 },
                old(self)@.page_width, old(self)@.page_height, old(self)@.fonts),
            final(self)@.pages == old(self)@.pages.push(r),
            final(self)@.fonts == old(self)@.fonts,
            final(self)@.info_ref == old(self)@.info_ref,
    {
        let tree = match self.pages_tree_ref {
            Some(t) => t,
            None => PdfReference::new(0, 0),
        };
        let bytes = content.into_bytes();
        let ghost stream_obj = PdfObject::Stream(bytes);
        let content_ref = self.add_object(PdfObject::Stream(bytes));
        let mut page = PdfDictionary::new();
        proof {
            lemma_entries_view_text(page.entries());
            reveal_strlit("Type");
            reveal_strlit("Parent");
            reveal_strlit("Contents");
            reveal_strlit("MediaBox");
            reveal_strlit("CropBox");
            reveal_strlit("Resources");
            reveal_strlit("Font");
            reveal_strlit("ProcSet");
            assert("Type"@.len() == 4 && "Parent"@.len() == 6 && "Contents"@.len() == 8);
            assert("MediaBox"@.len() == 8 && "CropBox"@.len() == 7 && "Resources"@.len() == 9);
            assert("Contents"@[0] != "MediaBox"@[0]);
            assert("Font"@.len() == 4 && "ProcSet"@.len() == 7);
        }
        insert_writable(&mut page, "Type", name_object("Page"));
        insert_writable(&mut page, "Parent", PdfObject::Reference(tree));
        insert_writable(&mut page, "Contents", PdfObject::Reference(content_ref));
        insert_writable(&mut page, "MediaBox", page_box(self.page_width, self.page_height));
        insert_writable(&mut page, "CropBox", page_box(self.page_width, self.page_height));
        let mut resources = PdfDictionary::new();
        proof { lemma_entries_view_text(resources.entries()); }
        if self.fonts.len() > 0 {
            let mut font_dict = PdfDictionary::new();
            proof { lemma_entries_view_text(font_dict.entries()); }
            let ghost fv = fonts_view(self.fonts@);
            let mut i: usize = 0;
            while i < self.fonts.len()
                invariant
                    i <= self.fonts@.len(),
                    fv == fonts_view(self.fonts@),
                    writer_wf(self@),
                    entries_writable(font_dict.entries()),
                    font_dict.entries().len() == i,
                    forall|j: int| 0 <= j < i ==> font_dict.value_of((#[trigger] fv[j]).0) == Some(PdfObject::Reference(fv[j].1)),
                    forall|k: Seq<char>| font_dict.value_of(k) is Some ==> exists|j: int| 0 <= j < i && (#[trigger] fv[j]).0 == k,
                decreases self.fonts@.len() - i,
            {
                proof {
                    assert(fv[i as int] == (self.fonts@[i as int].0@, self.fonts@[i as int].1));
                    if font_dict.value_of(fv[i as int].0) is Some {
                        let j = choose|j: int| 0 <= j < i && (#[trigger] fv[j]).0 == fv[i as int].0;
                        assert(self@.fonts == fv);
                        assert(fv[j].0 != fv[i as int].0);
                    }
                }
                insert_writable(&mut font_dict, self.fonts[i].0.as_str(), PdfObject::Reference(self.fonts[i].1));
                proof {
                    assert forall|k: Seq<char>| font_dict.value_of(k) is Some implies exists|j: int| 0 <= j < i + 1 && (#[trigger] fv[j]).0 == k by {
                        if k != fv[i as int].0 {
                            let j = choose|j: int| 0 <= j < i && (#[trigger] fv[j]).0 == k;
                            assert(0 <= j < i + 1 && fv[j].0 == k);
                        } else {
                            assert(fv[i as int].0 == k);
                        }
                    }
                    assert forall|j: int| 0 <= j < i + 1 implies font_dict.value_of((#[trigger] fv[j]).0) == Some(PdfObject::Reference(fv[j].1)) by {
                        if j < i {
                            assert(self@.fonts == fv);
                            assert(fv[j].0 != fv[i as int].0);
                        }
                    }
                }
                i = i + 1;
            }
            proof { lemma_entries_view_text(font_dict.entries()); }
            insert_writable(&mut resources, "Font", PdfObject::Dictionary(font_dict));
        }
        insert_writable(&mut resources, "ProcSet", procset());
        proof { lemma_entries_view_text(resources.entries()); }
        insert_writable(&mut page, "Resources", PdfObject::Dictionary(resources));
        let ghost pobj = PdfObject::Dictionary(page);
        assert(is_page(pobj, tree, content_ref, self.page_width, self.page_height, self@.fonts));
        let page_ref = self.add_object(PdfObject::Dictionary(page));
        self.pages.push(page_ref);
        assert(self@.objects.subrange(0, old(self)@.objects.len() as int) =~= old(self)@.objects);
        page_ref
    }

    /// The page tree's text.
    fn pages_tree_string(&self) -> (t: String)
        ensures
            t@ == pages_tree_text(self@.pages),
    {
        let ghost v = self@;
        let mut t = String::from_str("<</Count ");
        #[verifier::truncate]
        let count: i32 = self.pages.len() as i32;
        let _ = PdfObject::Integer(count).write(&mut t);
        t.append("/Kids [");
        assert(t@ =~= "<</Count "@ + integer_text(count) + "/Kids ["@);
        let mut k: usize = 0;
        let ghost t0 = t@;
        assert(v.pages.take(0) =~= Seq::<PdfReference>::empty());
        while k < self.pages.len()
            invariant
                v == self@,
                k <= v.pages.len(),
                t@ == t0 + refs_text(v.pages.take(k as int)),
            decreases v.pages.len() - k,
        {
            if k > 0 {
                t.append(" ");
            }
            let _ = PdfObject::Reference(self.pages[k]).write(&mut t);
            proof {
                let rs = v.pages.take(k + 1);
                assert(rs.drop_last() =~= v.pages.take(k as int));
                assert(rs.last() == v.pages[k as int]);
                reveal_strlit("");
            }
            assert(t@ =~= t0 + refs_text(v.pages.take(k + 1)));
            k = k + 1;
        }
        assert(v.pages.take(v.pages.len() as int) =~= v.pages);
        t.append("]/Type /Pages>>");
        assert(t@ =~= pages_tree_text(v.pages));
        t
    }

    /// Writes object `i` with its header and `endobj`.
    fn write_chunk(&self, i: usize, output: &mut Vec<u8>)
        requires
            writer_wf(self@),
            i < self@.objects.len(),
        ensures
            final(output)@ == old(output)@ + object_chunk(self@, self@.objects[i as int].0, self@.objects[i as int].1),
    {
        let ghost v = self@;
        let reference = self.objects[i].0;
        let mut head = String::new();
        push_decimal(&mut head, reference.object_number as u128);
        head.append(" ");
        push_decimal(&mut head, reference.generation as u128);
        head.append(" obj\n");
        push_text(output, head.as_str());
        let is_tree = match self.pages_tree_ref {
            Some(t) => t.object_number == reference.object_number && t.generation == reference.generation,
            None => false,
        };
        let ghost mid = output@;
        if is_tree {
            let mut t = self.pages_tree_string();
            t.append("\n");
            push_text(output, t.as_str());
        } else {
            match &self.objects[i].1 {
                PdfObject::Stream(data) => {
                    let mut d = String::from_str("<</Length ");
                    #[verifier::truncate]
                    let n: i32 = data.len() as i32;
                    let _ = PdfObject::Integer(n).write(&mut d);
                    d.append(">>\nstream\n");
                    push_text(output, d.as_str());
                    let mut copy = data.clone();
                    output.append(&mut copy);
                    push_text(output, "\nendstream\n");
                    proof {
                        lemma_encode_concat("<</Length "@ + integer_text(n), ">>\nstream\n"@);
                        lemma_encode_concat("<</Length "@, integer_text(n));
                    }
                },
                other => {
                    proof { assert(writable(v.objects[i as int].1)); }
                    let mut text = String::new();
                    let _ = other.write(&mut text);
                    text.append("\n");
                    push_text(output, text.as_str());
                    proof { reveal_strlit(""); }
                },
            }
        }
        assert(output@ =~= mid + object_body(v, reference, v.objects[i as int].1));
        push_text(output, "endobj\n");
        proof {
            assert(head@ =~= decimal(reference.object_number as nat) + " "@ + decimal(reference.generation as nat) + " obj\n"@);
        }
        assert(output@ =~= old(output)@ + object_chunk(v, reference, v.objects[i as int].1));
    }

    /// Write the PDF to output: the file that `pdf_file` describes, with
    /// offsets counted from the start of `output`.
    pub fn write(self, output: &mut Vec<u8>) -> (r: crate::types::Result<()>)
        requires
            self.wf(),
        ensures
            r is Ok,
            final(output)@ == old(output)@ + pdf_file(self@, old(output)@.len()),
    {
        let ghost v = self@;
        let ghost base = output@.len();
        push_text(output, "%PDF-1.4\n");
        let mut marker: Vec<u8> = vec![0x25u8, 0xE2u8, 0xE3u8, 0xCFu8, 0xD3u8, 0x0Au8];
        output.append(&mut marker);
        assert(output@ =~= old(output)@ + pdf_header());
        let ghost start = base + pdf_header().len();
        let mut xref = String::new();
        let mut i: usize = 0;
        assert(v.objects.take(0) =~= Seq::<(PdfReference, PdfObject)>::empty());
        while i < self.objects.len()
            invariant
                v == self@,
                writer_wf(v),
                i <= v.objects.len(),
                output@ == old(output)@ + pdf_header() + chunks(v, v.objects.take(i as int)),
                xref@ == xref_entries(v, v.objects.take(i as int), start),
                base == old(output)@.len(),
                start == base + pdf_header().len(),
            decreases v.objects.len() - i,
        {
            let ghost pre = output@;
            let ghost objs = v.objects.take(i + 1);
            proof {
                assert(objs.drop_last() =~= v.objects.take(i as int));
                assert(objs.last() == v.objects[i as int]);
                assert(pre.len() == base + pdf_header().len() + chunks(v, objs.drop_last()).len());
            }
            #[verifier::truncate]
            let off: u32 = output.len() as u32;
            let digits = decimal_string(off as u128);
            push_zero_padded(&mut xref, &digits, 10);
            xref.append(" 00000 n \n");
            let reference = self.objects[i].0;
            self.write_chunk(i, output);
            proof {
                assert(output@ =~= pre + object_chunk(v, reference, v.objects[i as int].1));
                assert(chunks(v, objs) == chunks(v, objs.drop_last()) + object_chunk(v, objs.last().0, objs.last().1));
                assert(output@ =~= old(output)@ + pdf_header() + chunks(v, objs));
                assert(off as nat == ((start + chunks(v, objs.drop_last()).len()) as u32) as nat);
                assert(xref@ =~= xref_entries(v, objs, start));
            }
            i = i + 1;
        }
        assert(v.objects.take(v.objects.len() as int) =~= v.objects);
        let body_len = output.len();
        let mut tail = String::from_str("xref\n0 ");
        push_decimal(&mut tail, self.next_object_number as u128);
        tail.append("\n0000000000 65535 f \n");
        tail.append(xref.as_str());
        tail.append("trailer\n");
        let ghost t1 = tail@;
        assert(t1 =~= "xref\n0 "@ + decimal(v.next_object_number) + "\n0000000000 65535 f \n"@
            + xref_entries(v, v.objects, base + pdf_header().len()) + "trailer\n"@);
        let mut tr = String::from_str("<<");
        match self.info_ref {
            Some(r) => {
                tr.append("/Info ");
                let _ = PdfObject::Reference(r).write(&mut tr);
            },
            None => {},
        }
        match self.catalog_ref {
            Some(r) => {
                tr.append("/Root ");
                let _ = PdfObject::Reference(r).write(&mut tr);
            },
            None => {},
        }
        tr.append("/Size ");
        #[verifier::truncate]
        let size: i32 = self.next_object_number as i32;
        let _ = PdfObject::Integer(size).write(&mut tr);
        tr.append(">>");
        proof { reveal_strlit(""); }
        assert(tr@ =~= trailer_text(v));
        tail.append(tr.as_str());
        tail.append("\nstartxref\n");
        push_decimal(&mut tail, body_len as u128);
        tail.append("\n%%EOF\n");
        assert(body_len == base + (pdf_header() + chunks(v, v.objects)).len());
        assert(tail@ =~= "xref\n0 "@ + decimal(v.next_object_number) + "\n0000000000 65535 f \n"@
            + xref_entries(v, v.objects, base + pdf_header().len()) + "trailer\n"@ + trailer_text(v)
            + "\nstartxref\n"@ + decimal(base + (pdf_header() + chunks(v, v.objects)).len()) + "\n%%EOF\n"@);
        push_text(output, tail.as_str());
        assert(output@ =~= old(output)@ + pdf_file(v, base));
        Ok(())
    }
}


impl Default for PdfWriter {
    fn default() -> (r: Self)
        ensures
            r.wf(),
            r@.objects.len() == 0,
            r@.pages.len() == 0,
            r@.fonts.len() == 0,
            r@.page_width == a4_width(),
            r@.page_height == a4_height(),
            r@.next_object_number == 1,
            r@.catalog_ref is None,
            r@.pages_tree_ref is None,
            r@.info_ref is None,
    {
        PdfWriter::new()
    }
}

} // verus!
