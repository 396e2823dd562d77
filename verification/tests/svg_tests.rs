use html2pdf::pdf::image::{parse_svg_dimensions, ColorSpace, PdfImage};
use html2pdf::pdf::svg::float_pixels_of;
use html2pdf::types::PdfError;

fn px(s: &str) -> Option<u32> {
    let v: Vec<char> = s.chars().collect();
    float_pixels_of(&v)
}

#[test]
fn test_svg_dimension_parsing() {
    let svg = r#"<svg width="200" height="150"></svg>"#;
    let (w, h) = parse_svg_dimensions(svg).unwrap();
    assert_eq!(w, 200);
    assert_eq!(h, 150);
}

#[test]
fn test_svg_viewbox_parsing() {
    let svg = r#"<svg viewBox="0 0 800 600"></svg>"#;
    let (w, h) = parse_svg_dimensions(svg).unwrap();
    assert_eq!(w, 800);
    assert_eq!(h, 600);
}

#[test]
fn svg_lengths_round_to_single_precision_then_truncate() {
    let (w, h) = parse_svg_dimensions(r#"<svg width="2.9999999" height="12.5px"></svg>"#).unwrap();
    assert_eq!((w, h), (3, 12));
    let (w, h) = parse_svg_dimensions(r#"<svg width="1999.9999" height='1999.99995'></svg>"#).unwrap();
    assert_eq!((w, h), (1999, 2000));
}

#[test]
fn svg_sizes_are_kept_within_bounds() {
    let (w, h) = parse_svg_dimensions(r#"<svg width="99999999999999999999999" height="0"></svg>"#).unwrap();
    assert_eq!((w, h), (2000, 1));
    let (w, h) = parse_svg_dimensions("<svg></svg>").unwrap();
    assert_eq!((w, h), (300, 150));
}

#[test]
fn svg_viewbox_reads_full_number_syntax() {
    let (w, h) = parse_svg_dimensions(r#"<svg viewBox="0 0 1e3 +2.5E2"></svg>"#).unwrap();
    assert_eq!((w, h), (1000, 250));
    let (w, h) = parse_svg_dimensions(r#"<svg viewBox="0 0 -5 nan"></svg>"#).unwrap();
    assert_eq!((w, h), (1, 1));
    let (w, h) = parse_svg_dimensions(r#"<svg viewBox="0 0 INF 7"></svg>"#).unwrap();
    assert_eq!((w, h), (2000, 7));
    let (w, h) = parse_svg_dimensions(r#"<svg viewBox="0 0 abc 7"></svg>"#).unwrap();
    assert_eq!((w, h), (300, 150));
}

#[test]
fn svg_attributes_take_precedence_over_viewbox() {
    let (w, h) = parse_svg_dimensions(r#"<svg width="50" viewBox="0 0 800 600"></svg>"#).unwrap();
    assert_eq!((w, h), (50, 600));
    let (w, h) = parse_svg_dimensions(r#"<svg width="auto" viewBox="0 0 800 600"></svg>"#).unwrap();
    assert_eq!((w, h), (300, 600));
}

#[test]
fn svg_width_search_matches_any_width_attribute() {
    let (w, h) = parse_svg_dimensions(r#"<svg><rect stroke-width="3"/></svg>"#).unwrap();
    assert_eq!((w, h), (3, 150));
}

#[test]
fn float_text_follows_the_number_grammar() {
    assert_eq!(px("1e-50"), Some(0));
    assert_eq!(px("."), None);
    assert_eq!(px("1.2.3"), None);
    assert_eq!(px(""), None);
    assert_eq!(px("+.5e1"), Some(5));
    assert_eq!(px("1e"), None);
    assert_eq!(px("e5"), None);
    assert_eq!(px("5."), Some(5));
    assert_eq!(px("-inf"), Some(0));
    assert_eq!(px("Infinity"), Some(2000));
    assert_eq!(px("1e400"), Some(2000));
    assert_eq!(px("0000000000000001e-0"), Some(1));
}

#[test]
fn float_text_rounds_at_the_midpoint() {
    assert_eq!(px("0.99999998"), Some(1));
    assert_eq!(px("0.99999997"), Some(0));
    assert_eq!(px("1999.99994"), Some(2000));
    assert_eq!(px("1999.99993"), Some(1999));
}

#[test]
fn svg_bytes_must_be_utf8() {
    let bad: Vec<u8> = vec![0xff, 0xfe, 0x3c];
    match PdfImage::get_svg_dimensions(&bad) {
        Err(PdfError::Image(m)) => assert_eq!(m, "Invalid SVG: not UTF-8"),
        _ => panic!("expected an image error"),
    }
    assert_eq!(PdfImage::get_svg_dimensions(br#"<svg width="7" height="9"/>"#).unwrap(), (7, 9));
}

#[test]
fn svg_placeholder_image_has_the_svg_size() {
    let img = PdfImage::from_svg(br#"<svg width="2" height="3"/>"#).unwrap();
    assert_eq!((img.width, img.height), (2, 3));
    assert_eq!(img.color_space, ColorSpace::DeviceRGB);
    assert_eq!(img.data.len(), 18);
    assert_eq!(&img.data[0..6], &[200, 220, 255, 200, 220, 255]);
}

#[test]
fn from_bytes_dispatches_on_the_format() {
    let img = PdfImage::from_bytes(br#"<svg width="4" height="1"/>"#).unwrap();
    assert_eq!((img.width, img.height), (4, 1));
    match PdfImage::from_bytes(b"plain text") {
        Err(PdfError::Image(m)) => assert_eq!(m, "Unknown image format"),
        _ => panic!("expected an image error"),
    }
    match PdfImage::from_bytes(b"RIFF\0\0\0\0WEBPVP8 ") {
        Err(PdfError::Image(m)) => assert!(m.starts_with("WebP support not enabled")),
        _ => panic!("expected an image error"),
    }
}
