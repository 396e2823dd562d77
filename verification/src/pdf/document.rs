//! The PDF that the converter writes for a document: one A4 page that
//! says `PDF generation placeholder` in 12 point Helvetica, with the
//! document information of the converter.

use vstd::prelude::*;
use vstd::utf8::encode_utf8;
use crate::types::F32Bits;
use crate::pdf::object::{PdfObject, PdfReference};
use crate::pdf::content::{PageContent, num3, escaped_text};
use crate::pdf::writer::{PdfWriter, WriterView, writer_wf, pdf_file, is_catalog, is_info, is_font, is_page,
    a4_width, a4_height};

verus! {

/// The placeholder page's content stream.
pub open spec fn placeholder_content() -> Seq<u8> {
    encode_utf8("BT\n"@) + encode_utf8("/"@ + "F1"@ + " "@ + num3(F32Bits(0x4140_0000)) + " Tf\n"@)
        + encode_utf8(num3(F32Bits(0x42c8_0000)) + " "@ + num3(F32Bits(0x442f_0000)) + " Td\n"@)
        + encode_utf8("("@ + escaped_text("PDF generation placeholder"@) + ") Tj\n"@) + encode_utf8("ET\n"@)
}

/// The reference of object `n`.
pub open spec fn object_ref(n: u32) -> PdfReference {
    PdfReference { object_number: n, generation: 0 }
}

/// The writer of the placeholder document created at `secs`: page tree,
/// catalog, information, the font `F1`, the content stream and the page.
pub open spec fn placeholder_view(v: WriterView, secs: u64) -> bool {
    &&& writer_wf(v)
    &&& v.objects.len() == 6
    &&& v.objects[0].1 matches PdfObject::Dictionary(d) && d.entries().len() == 0
    &&& is_catalog(v.objects[1].1, object_ref(1))
    &&& is_info(v.objects[2].1, "Generated PDF"@, "HTML2PDF"@, "html2pdf-rs"@, secs)
    &&& is_font(v.objects[3].1, "Helvetica"@)
    &&& v.objects[4].1 matches PdfObject::Stream(d) && d@ == placeholder_content()
    &&& is_page(v.objects[5].1, object_ref(1), object_ref(5), a4_width(), a4_height(), v.fonts)
    &&& v.fonts == seq![("F1"@, object_ref(4))]
    &&& v.pages == seq![object_ref(6)]
    &&& v.pages_tree_ref == Some(object_ref(1))
    &&& v.catalog_ref == Some(object_ref(2))
    &&& v.info_ref == Some(object_ref(3))
}

/// The converter's PDF, created at `secs` seconds since 1970.
#[verifier::rlimit(80)]
#[verifier::spinoff_prover]
pub fn placeholder_pdf_at(secs: u64) -> (r: Vec<u8>)
    ensures
        exists|v: WriterView| placeholder_view(v, secs) && r@ == pdf_file(v, 0),
{
    let mut writer = PdfWriter::new();
    writer.init_document();
    let ghost w1 = writer@;
    writer.set_info_at("Generated PDF", "HTML2PDF", "html2pdf-rs", secs);
    let ghost w2 = writer@;
    writer.add_standard_font("F1", "Helvetica");
    let ghost w3 = writer@;
    let mut content = PageContent::new();
    content.begin_text();
    content.set_font("F1", F32Bits(0x4140_0000));
    content.text_position(F32Bits(0x42c8_0000), F32Bits(0x442f_0000));
    content.show_text("PDF generation placeholder");
    content.end_text();
    assert(content.content@ =~= placeholder_content());
    writer.add_page(content);
    let ghost w4 = writer@;
    proof {
        assert(w1.objects.len() == 2);
        assert(w2.objects.len() == 3 && w2.objects.subrange(0, 2) == w1.objects);
        assert(w3.objects.len() == 4 && w3.objects.subrange(0, 3) == w2.objects);
        assert(w4.objects.len() == 6 && w4.objects.subrange(0, 4) == w3.objects);
        assert(w4.objects[0] == w3.objects[0]);
        assert(w3.objects[0] == w2.objects[0]);
        assert(w2.objects[0] == w1.objects[0]);
        assert(w4.objects[1] == w1.objects[1]);
        assert(w4.objects[2] == w2.objects[2]);
        assert(w4.objects[3] == w3.objects[3]);
        assert(w3.fonts =~= seq![("F1"@, object_ref(4))]);
        assert(writer_wf(w4));
        assert(w4.objects[0].1 matches PdfObject::Dictionary(d) && d.entries().len() == 0);
        assert(is_catalog(w4.objects[1].1, object_ref(1)));
        assert(is_info(w4.objects[2].1, "Generated PDF"@, "HTML2PDF"@, "html2pdf-rs"@, secs));
        assert(is_font(w4.objects[3].1, "Helvetica"@));
        assert(w4.objects[4].1 matches PdfObject::Stream(d) && d@ == placeholder_content());
        assert(is_page(w4.objects[5].1, object_ref(1), object_ref(5), a4_width(), a4_height(), w4.fonts));
        assert(w4.pages =~= seq![object_ref(6)]);
        assert(placeholder_view(w4, secs));
    }
    let mut out: Vec<u8> = Vec::new();
    let _ = writer.write(&mut out);
    assert(out@ =~= pdf_file(w4, 0));
    out
}


/// The converter's PDF, created now (the system clock's seconds since
/// 1970; a clock set before 1970 counts as 0).
pub fn placeholder_pdf() -> (r: Vec<u8>)
    ensures
        exists|secs: u64, v: WriterView| placeholder_view(v, secs) && r@ == pdf_file(v, 0),
{
    let secs = match crate::pdf::writer::unix_seconds() {
        Some(s) => s,
        None => 0,
    };
    placeholder_pdf_at(secs)
}

} // verus!
