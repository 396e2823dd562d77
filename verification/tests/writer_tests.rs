use html2pdf::pdf::document::placeholder_pdf_at;
use html2pdf::pdf::{PageContent, PdfWriter};
use html2pdf::types::{Color, F32Bits, Point, Rect};

fn f(v: f32) -> F32Bits {
    F32Bits(v.to_bits())
}

fn text(c: PageContent) -> String {
    String::from_utf8(c.into_bytes()).unwrap()
}

#[test]
fn test_page_content() {
    let mut content = PageContent::new();
    content.begin_text();
    content.set_font("F1", f(12.0));
    content.text_position(f(100.0), f(700.0));
    content.show_text("Hello World");
    content.end_text();

    let bytes = content.into_bytes();
    let output = String::from_utf8(bytes).unwrap();
    assert!(output.contains("BT"));
    assert!(output.contains("ET"));
    assert!(output.contains("Hello World"));
}

#[test]
fn test_text_escaping() {
    let mut content = PageContent::new();
    content.show_text("(test)");

    let bytes = content.into_bytes();
    let output = String::from_utf8(bytes).unwrap();
    assert!(output.contains("\\(test\\)"));
}

#[test]
fn test_pdf_writer() {
    let mut writer = PdfWriter::new();
    writer.init_document();
    writer.set_info("Test", "Author", "HTML2PDF");

    writer.add_standard_font("F1", "Helvetica");

    let mut content = PageContent::new();
    content.begin_text();
    content.set_font("F1", f(12.0));
    content.text_position(f(100.0), f(700.0));
    content.show_text("Hello, PDF!");
    content.end_text();

    writer.add_page(content);

    let mut bytes = Vec::new();
    writer.write(&mut bytes).unwrap();

    assert!(bytes.starts_with(b"%PDF-1.4"));
    assert!(bytes.ends_with(b"%%EOF\n"));
}

#[test]
fn content_operators_print_three_decimals() {
    let mut c = PageContent::new();
    c.text_position(f(1.0005), f(-2.5));
    c.set_line_width(f(0.1));
    c.draw_rect(Rect { x: f(0.0), y: f(1.5), width: f(10.25), height: f(3.3333) });
    c.draw_line(Point { x: f(1.0), y: f(2.0) }, Point { x: f(3.0), y: f(4.0) });
    c.draw_image("Im1", f(10.0), f(20.0), f(30.0), f(40.0));
    c.fill();
    c.stroke();
    c.fill_and_stroke();
    c.fill_and_stroke_even_odd();
    c.fill_even_odd();
    c.save_state();
    c.restore_state();
    c.append_raw("% raw\n");
    assert_eq!(
        text(c),
        format!(
            "{:.3} {:.3} Td\n{:.3} w\n0.000 1.500 10.250 3.333 re\n1.000 2.000 m\n3.000 4.000 l\n\
             q\n30.000 0 0 40.000 10.000 20.000 cm\n/Im1 Do\nQ\nf\nS\nB\nB*\nf*\nq\nQ\n% raw\n",
            1.0005f32, -2.5f32, 0.1f32
        )
    );
}

#[test]
fn colors_print_as_fractions_of_255() {
    for v in 0..=255u8 {
        let mut c = PageContent::new();
        c.set_fill_color(Color::new(v, 0, 255));
        let expected = format!("{:.3} {:.3} {:.3} rg\n", v as f32 / 255.0, 0.0f32, 1.0f32);
        assert_eq!(c.content, expected.into_bytes());
        assert_eq!(c.current_color, Some(Color::new(v, 0, 255)));
    }
    let mut c = PageContent::new();
    c.set_stroke_color(Color::new(128, 64, 1));
    assert_eq!(text(c), format!("{:.3} {:.3} {:.3} RG\n", 128.0f32 / 255.0, 64.0f32 / 255.0, 1.0f32 / 255.0));
}

#[test]
fn shown_text_escapes_delimiters_and_controls() {
    let mut c = PageContent::new();
    c.show_text("a\\b(c)\n\r\té");
    assert_eq!(text(c), "(a\\\\b\\(c\\)\\n\\r\\té) Tj\n");
    let mut c = PageContent::new();
    c.set_font("Times Roman", f(9.5));
    assert_eq!(c.current_font, Some(("Times Roman".to_string(), f(9.5))));
    assert_eq!(text(c), "/Times Roman 9.500 Tf\n");
}

#[test]
fn writer_lays_out_objects_and_cross_references() {
    let mut writer = PdfWriter::new();
    writer.init_document();
    writer.add_standard_font("F1", "Helvetica");
    let mut content = PageContent::new();
    content.append_raw("BT ET\n");
    let page = writer.add_page(content);
    assert_eq!((page.object_number, page.generation), (5, 0));
    assert_eq!(writer.page_size(), (f(595.28), f(841.89)));
    let mut bytes = b"junk".to_vec();
    writer.write(&mut bytes).unwrap();
    let head: &[u8] = b"junk%PDF-1.4\n%\xE2\xE3\xCF\xD3\n";
    assert!(bytes.starts_with(head));
    let text = String::from_utf8_lossy(&bytes[head.len()..]).to_string();
    let expected_objects = "1 0 obj\n<</Count 1/Kids [5 0 R]/Type /Pages>>\nendobj\n\
        2 0 obj\n<</Pages 1 0 R/Type /Catalog>>\nendobj\n\
        3 0 obj\n<</BaseFont /Helvetica/Encoding /WinAnsiEncoding/Subtype /Type1/Type /Font>>\nendobj\n\
        4 0 obj\n<</Length 6>>\nstream\nBT ET\n\nendstream\nendobj\n\
        5 0 obj\n<</Contents 4 0 R/CropBox [0 0 595.280029 841.890015]/MediaBox [0 0 595.280029 841.890015]\
        /Parent 1 0 R/Resources <</Font <</F1 3 0 R>>/ProcSet [/PDF /Text /ImageB /ImageC /ImageI]>>/Type /Page>>\nendobj\n";
    assert!(text.starts_with(expected_objects), "{}", text);
    let mut offsets = Vec::new();
    let mut pos = head.len();
    for chunk in expected_objects.split_inclusive("endobj\n") {
        offsets.push(pos);
        pos += chunk.len();
    }
    let mut xref = String::from("xref\n0 6\n0000000000 65535 f \n");
    for o in offsets {
        xref.push_str(&format!("{:010} 00000 n \n", o));
    }
    let rest = &text[expected_objects.len()..];
    assert_eq!(rest, format!("{}trailer\n<</Root 2 0 R/Size 6>>\nstartxref\n{}\n%%EOF\n", xref, pos));
}

#[test]
fn fonts_with_one_name_are_replaced() {
    let mut writer = PdfWriter::default();
    writer.init_document();
    writer.add_standard_font("F1", "Helvetica");
    let second = writer.add_standard_font("F1", "Courier");
    writer.add_page(PageContent::default());
    writer.set_info_at("T", "A", "C", 42);
    let mut bytes = Vec::new();
    writer.write(&mut bytes).unwrap();
    let text = String::from_utf8_lossy(&bytes).to_string();
    assert!(text.contains(&format!("/Font <</F1 {} 0 R>>", second.object_number)));
    assert!(text.contains("/CreationDate (D:00000000000042Z00'00')"));
    assert!(text.contains("/Producer (HTML2PDF Rust)"));
    assert!(text.contains("<</Info 7 0 R/Root 2 0 R/Size 8>>"));
}

#[test]
fn converter_pdf_is_one_placeholder_page() {
    let pdf = placeholder_pdf_at(1000);
    assert!(pdf.starts_with(b"%PDF"));
    assert!(pdf.ends_with(b"%%EOF\n"));
    let text = String::from_utf8_lossy(&pdf).to_string();
    assert!(text.contains("BT\n/F1 12.000 Tf\n100.000 700.000 Td\n(PDF generation placeholder) Tj\nET\n"));
    assert!(text.contains("/CreationDate (D:00000000001000Z00'00')"));
    assert!(text.contains("/Title (Generated PDF)"));
    assert!(text.contains("<</Count 1/Kids [6 0 R]/Type /Pages>>"));
    assert!(text.contains("trailer\n<</Info 3 0 R/Root 2 0 R/Size 7>>"));
}
