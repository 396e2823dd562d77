use html2pdf::css::{CssFunction, CssValue};
use html2pdf::pdf::font::{is_standard_font, FontMetrics, FontSubtype, PdfFont};
use html2pdf::pdf::image::{decode_png_rows, paeth_predictor, ColorSpace, DecodeOutcome, ImageFilter, ImageFormat, PdfImage};
use html2pdf::pdf::object::{PdfDictionary, PdfObject, PdfReference};
use html2pdf::pdf::print_css::{
    parse_break_inside_value, parse_break_value, parse_content_value, parse_orphans_widows_value, Bookmark,
    BreakInside, BreakType, MarginContentPart, PageCounter,
};
use html2pdf::pdf::stream::{encode_stream, FlateEncode, PdfStream, Predictor, StreamEncode};
use html2pdf::types::{F32Bits, PdfError};

#[test]
fn test_stream_creation() {
    let data = b"Hello, World!".to_vec();
    let stream = PdfStream::new(data.clone());

    assert_eq!(stream.len(), data.len());
    assert!(!stream.is_empty());
}

#[test]
fn test_flate_encode() {
    let data = b"This is a test string that should be compressed. ".repeat(100);

    let encoder = FlateEncode::new();
    let encoded = encoder.encode(&data);

    assert!(encoded.len() < data.len());
}

#[test]
fn test_predictor_png_none() {
    let data: Vec<u8> = (0..12).collect();
    let predictor = Predictor::PngNone;
    let result = predictor.apply(&data, 4, 3);

    assert_eq!(result.len(), 13);
    assert_eq!(result[0], 0);
}

#[test]
fn predictor_png_up_subtracts_row_above() {
    let data: Vec<u8> = vec![1, 2, 3, 5, 7, 9, 4];
    let result = Predictor::PngUp.apply(&data, 3, 1);
    assert_eq!(result, vec![2, 1, 2, 3, 2, 4, 5, 6, 2, 255]);
    assert_eq!(Predictor::Tiff.apply(&data, 3, 1), data);
}

#[test]
fn flate_round_trips_through_zlib() {
    let data = b"abcabcabcabcabcabc".repeat(20);
    let (encoded, filter) = encode_stream(&FlateEncode::with_level(9), &data);
    assert_eq!(filter, "FlateDecode");
    assert_eq!(miniz_oxide::inflate::decompress_to_vec_zlib(&encoded).unwrap(), data);
}

#[test]
fn stream_length_entry_follows_data() {
    let mut stream = PdfStream::new(vec![1, 2, 3]);
    assert_eq!(stream.dictionary.get("Length"), Some(&PdfObject::Integer(3)));
    stream.data.push(4);
    stream.update_length();
    assert_eq!(stream.dictionary.get("Length"), Some(&PdfObject::Integer(4)));
    assert_eq!(stream.dictionary.len(), 1);
}

#[test]
fn dictionary_insert_get_and_replace() {
    let mut dict = PdfDictionary::new();
    dict.insert("Type", PdfObject::Name("Catalog".to_string()));
    dict.insert_ref("Pages", PdfReference::new(1, 0));
    dict.insert("Count", PdfObject::Integer(3));
    dict.insert("Count", PdfObject::Integer(4));
    assert_eq!(dict.len(), 3);
    assert_eq!(dict.get("Count"), Some(&PdfObject::Integer(4)));
    assert_eq!(dict.get("Pages"), Some(&PdfObject::Reference(PdfReference::new(1, 0))));
    assert!(dict.contains("Type"));
    assert!(!dict.contains("Missing"));
    assert_eq!(dict.get("Type").and_then(|o| o.as_name()), Some("Catalog"));
    assert_eq!(PdfObject::Integer(7).as_integer(), Some(7));
}

#[test]
fn test_image_creation() {
    let data = vec![255u8; 100 * 100 * 3];
    let img = PdfImage::rgb(100, 100, data);

    assert_eq!(img.width, 100);
    assert_eq!(img.height, 100);
    assert_eq!(img.color_space, ColorSpace::DeviceRGB);
}

#[test]
fn test_color_space() {
    assert_eq!(ColorSpace::DeviceGray.num_components(), 1);
    assert_eq!(ColorSpace::DeviceRGB.num_components(), 3);
    assert_eq!(ColorSpace::DeviceCMYK.num_components(), 4);
}

#[test]
fn test_detect_format_png() {
    let png_data = vec![0x89, 0x50, 0x4E, 0x47, 0x0D, 0x0A, 0x1A, 0x0A];
    assert_eq!(PdfImage::detect_format(&png_data), Some(ImageFormat::Png));
}

#[test]
fn test_detect_format_jpeg() {
    let jpeg_data = vec![0xFF, 0xD8, 0xFF, 0xE0];
    assert_eq!(PdfImage::detect_format(&jpeg_data), Some(ImageFormat::Jpeg));
}

#[test]
fn test_detect_format_gif() {
    let gif_data = b"GIF89a";
    assert_eq!(PdfImage::detect_format(gif_data), Some(ImageFormat::Gif));
}

#[test]
fn test_detect_format_bmp() {
    let bmp_data = b"BM\x00\x00";
    assert_eq!(PdfImage::detect_format(bmp_data), Some(ImageFormat::Bmp));
}

#[test]
fn test_detect_format_svg() {
    let svg_data = b"<svg width=\"100\" height=\"100\"></svg>";
    assert_eq!(PdfImage::detect_format(svg_data), Some(ImageFormat::Svg));
}

#[test]
fn detect_format_other_cases() {
    assert_eq!(PdfImage::detect_format(b"RIFF\x00\x00\x00\x00WEBPVP8 "), Some(ImageFormat::WebP));
    assert_eq!(PdfImage::detect_format(b"  \n<?xml version=\"1.0\"?>"), Some(ImageFormat::Svg));
    assert_eq!(PdfImage::detect_format(b"abc"), None);
    assert_eq!(PdfImage::detect_format(b"hello world"), None);
}

#[test]
fn test_paeth_predictor() {
    assert_eq!(paeth_predictor(10, 20, 15), 15);
    assert_eq!(paeth_predictor(0, 0, 0), 0);
    assert_eq!(paeth_predictor(10, 0, 0), 10);
    assert_eq!(paeth_predictor(0, 10, 0), 10);
}

fn png_chunk(kind: &[u8], body: &[u8]) -> Vec<u8> {
    let mut c = Vec::new();
    c.extend_from_slice(&(body.len() as u32).to_be_bytes());
    c.extend_from_slice(kind);
    c.extend_from_slice(body);
    c.extend_from_slice(&[0, 0, 0, 0]);
    c
}

fn png_file(width: u32, height: u32, color_type: u8, raw: &[u8]) -> Vec<u8> {
    let mut f = vec![0x89, 0x50, 0x4E, 0x47, 0x0D, 0x0A, 0x1A, 0x0A];
    let mut ihdr = Vec::new();
    ihdr.extend_from_slice(&width.to_be_bytes());
    ihdr.extend_from_slice(&height.to_be_bytes());
    ihdr.extend_from_slice(&[8, color_type, 0, 0, 0]);
    f.extend(png_chunk(b"IHDR", &ihdr));
    f.extend(png_chunk(b"IDAT", &miniz_oxide::deflate::compress_to_vec_zlib(raw, 6)));
    f.extend(png_chunk(b"IEND", &[]));
    f
}

#[test]
fn png_rows_are_unfiltered() {
    // Two gray rows of two pixels: the first with filter None, the second
    // with filter Up.
    let raw = [0u8, 10, 20, 2, 1, 2];
    let png = png_file(2, 2, 0, &raw);
    let img = PdfImage::from_png(&png).unwrap();
    assert_eq!(img.width, 2);
    assert_eq!(img.height, 2);
    assert_eq!(img.color_space, ColorSpace::DeviceGray);
    assert_eq!(img.data, vec![10, 20, 11, 22]);
    assert_eq!(img.filter, None);
}

#[test]
fn png_sub_average_and_paeth_filters() {
    // Filter Sub, then Average, then Paeth on a one-byte-per-pixel image.
    let rows = PdfImage::png_image(3, 3, 8, 0, None, Ok(vec![1, 5, 1, 1, 3, 4, 10, 4, 4, 1, 1, 1])).unwrap();
    assert_eq!(rows.data, vec![5, 6, 7, 6, 16, 15, 7, 17, 17]);
    // A last row cut short by the end of the data.
    let short = PdfImage::png_image(2, 2, 8, 0, None, Ok(vec![0, 1, 2, 2, 5])).unwrap();
    assert_eq!(short.data, vec![1, 2, 6]);
}

#[test]
fn png_errors() {
    match PdfImage::from_png(b"not a png") {
        Err(PdfError::Image(m)) => assert_eq!(m, "Invalid PNG signature"),
        _ => panic!("expected an error"),
    }
    let mut bad = vec![0x89, 0x50, 0x4E, 0x47, 0x0D, 0x0A, 0x1A, 0x0A];
    bad.extend(png_chunk(b"IDAT", &[1, 2, 3]));
    match PdfImage::from_png(&bad) {
        Err(PdfError::Image(m)) => assert!(m.starts_with("PNG decompression failed: ")),
        _ => panic!("expected an error"),
    }
}

#[test]
fn png_palette_gives_indexed_color_space() {
    let img = PdfImage::png_image(1, 1, 8, 3, Some(vec![1, 2, 3, 4, 5, 6]), Ok(vec![0, 1])).unwrap();
    assert_eq!(img.color_space, ColorSpace::Indexed(Box::new(ColorSpace::DeviceRGB), 1, vec![1, 2, 3, 4, 5, 6]));
    assert_eq!(img.data, vec![1]);
}

#[test]
fn jpeg_header_is_read() {
    let jpeg = vec![
        0xFF, 0xD8, 0xFF, 0xE0, 0x00, 0x04, 0x00, 0x00, 0xFF, 0xC0, 0x00, 0x0B, 0x08, 0x00, 0x20, 0x00, 0x10,
        0x01, 0x01, 0x11, 0x00, 0xFF, 0xDA, 0x00, 0x02, 0xFF, 0xD9, 0x00, 0x00,
    ];
    let img = PdfImage::from_jpeg(&jpeg).unwrap();
    assert_eq!(img.width, 16);
    assert_eq!(img.height, 32);
    assert_eq!(img.bits_per_component, 8);
    assert_eq!(img.color_space, ColorSpace::DeviceGray);
    assert_eq!(img.filter, Some(ImageFilter::DCTDecode));
    assert_eq!(img.data.len(), jpeg.len() - 2);
    match PdfImage::from_jpeg(&[0xFF, 0xD8, 0x00, 0x00, 0x00]) {
        Err(PdfError::Image(m)) => assert_eq!(m, "Could not determine JPEG dimensions"),
        _ => panic!("expected an error"),
    }
    match PdfImage::from_jpeg(&[0x00]) {
        Err(PdfError::Image(m)) => assert_eq!(m, "Invalid JPEG signature"),
        _ => panic!("expected an error"),
    }
}

#[test]
fn decoded_rgba_loses_alpha() {
    let img = PdfImage::from_decoded(DecodeOutcome::Decoded(2, 1, vec![1, 2, 3, 255, 4, 5, 6, 255]), "GIF").unwrap();
    assert_eq!(img.data, vec![1, 2, 3, 4, 5, 6]);
    let same = PdfImage::from_decoded(DecodeOutcome::Decoded(1, 1, vec![9, 9, 9]), "BMP").unwrap();
    assert_eq!(same.data, vec![9, 9, 9]);
    match PdfImage::from_decoded(DecodeOutcome::ReadFailed("bad".to_string()), "BMP") {
        Err(PdfError::Image(m)) => assert_eq!(m, "BMP read error: bad"),
        _ => panic!("expected an error"),
    }
    match PdfImage::from_gif(b"GIF89a") {
        Err(PdfError::Image(m)) => assert!(m.starts_with("GIF decode error: ")),
        _ => panic!("expected an error"),
    }
    match PdfImage::from_webp(b"RIFF") {
        Err(PdfError::Image(m)) => assert!(m.starts_with("WebP support not enabled")),
        _ => panic!("expected an error"),
    }
}

#[test]
fn image_xobject_and_compression() {
    let mut img = PdfImage::grayscale(2, 2, vec![0; 400]);
    img.compress().unwrap();
    assert_eq!(img.filter, Some(ImageFilter::FlateDecode));
    assert!(img.data.len() < 400);
    let (name, dict, stream) = img.to_xobject("Im1");
    assert_eq!(name, "Im1");
    assert_eq!(dict.get("Filter").and_then(|o| o.as_name()), Some("FlateDecode"));
    assert_eq!(dict.get("Width"), Some(&PdfObject::Integer(2)));
    assert_eq!(dict.len(), 7);
    assert_eq!(stream.data, img.data);
    let jpeg = PdfImage::rgb(1, 1, vec![1, 2, 3]).with_filter(ImageFilter::DCTDecode);
    assert_eq!(ImageFilter::DCTDecode.as_str(), "DCTDecode");
    assert_eq!(jpeg.color_space.as_str(), "DeviceRGB");
}

#[test]
fn test_standard_fonts() {
    assert!(is_standard_font("Helvetica"));
    assert!(is_standard_font("Times-Roman"));
    assert!(!is_standard_font("NonExistent"));
}

#[test]
fn font_dictionary_and_widths() {
    let font = PdfFont::standard("F1", "Helvetica");
    let dict = font.to_dictionary();
    assert_eq!(dict.get("BaseFont").and_then(|o| o.as_name()), Some("Helvetica"));
    assert_eq!(dict.get("Encoding").and_then(|o| o.as_name()), Some("WinAnsiEncoding"));
    assert_eq!(FontSubtype::TrueType.as_str(), "TrueType");
    let metrics = FontMetrics::helvetica();
    assert_eq!(metrics.string_width_units("Hello"), 2500);
    assert_eq!(FontMetrics::courier().string_width_units("ab"), 1200);
    assert_eq!(FontMetrics::times_roman().cap_height, 662);
}

fn ident(s: &str) -> CssValue {
    CssValue::Ident(s.to_string())
}

#[test]
fn test_parse_content_value() {
    let value = CssValue::String("Page ".to_string());
    let parts = parse_content_value(&value);
    assert_eq!(parts.len(), 1);
}

#[test]
fn print_css_test_page_counter() {
    let mut counter = PageCounter::new();
    assert_eq!(counter.current, 1);

    counter.increment();
    assert_eq!(counter.current, 2);

    counter.reset(10);
    assert_eq!(counter.current, 10);
}

#[test]
fn test_margin_box_content_parsing() {
    let value = CssValue::String("Page ".to_string());
    let parts = parse_content_value(&value);

    assert_eq!(parts.len(), 1);
    assert!(matches!(parts[0], MarginContentPart::Text(ref s) if s == "Page "));
}

#[test]
fn test_margin_box_content_counter() {
    let mut func = CssFunction::new("counter");
    func.add_argument(ident("page"));
    let value = CssValue::Function(func);

    let parts = parse_content_value(&value);

    assert_eq!(parts.len(), 1);
    assert!(matches!(parts[0], MarginContentPart::PageCounter));
}

#[test]
fn test_margin_box_content_string_ref() {
    let mut func = CssFunction::new("string");
    func.add_argument(ident("header"));
    let value = CssValue::Function(func);

    let parts = parse_content_value(&value);

    assert_eq!(parts.len(), 1);
    assert!(matches!(parts[0], MarginContentPart::StringRef(ref s) if s == "header"));
}

#[test]
fn content_list_concatenates_parts() {
    let mut pages = CssFunction::new("counter");
    pages.add_argument(ident("pages"));
    let mut leader = CssFunction::new("leader");
    leader.add_argument(CssValue::String("-".to_string()));
    let value = CssValue::List(vec![
        CssValue::String("Page ".to_string()),
        CssValue::List(vec![CssValue::Function(pages), ident("none")]),
        CssValue::Function(leader),
    ]);
    let parts = parse_content_value(&value);
    assert_eq!(parts, vec![
        MarginContentPart::Text("Page ".to_string()),
        MarginContentPart::PagesCounter,
        MarginContentPart::Leader('-'),
    ]);
    let mut target = CssFunction::new("target-counter");
    target.add_argument(CssValue::String("#ch1".to_string()));
    target.add_argument(ident("page"));
    assert_eq!(parse_content_value(&CssValue::Function(target)), vec![MarginContentPart::TargetCounter {
        selector: "#ch1".to_string(),
        counter: "page".to_string(),
    }]);
}

#[test]
fn print_css_tests_test_page_counter() {
    let mut counter = PageCounter::new();
    assert_eq!(counter.current, 1);

    counter.increment();
    assert_eq!(counter.current, 2);

    counter.increment();
    assert_eq!(counter.current, 3);

    counter.reset(10);
    assert_eq!(counter.current, 10);
}

#[test]
fn test_page_counter_named() {
    let mut counter = PageCounter::new();

    counter.set_named_counter("chapter", 1);
    assert_eq!(counter.get_named_counter("chapter"), Some(1));

    counter.set_named_counter("chapter", 2);
    assert_eq!(counter.get_named_counter("chapter"), Some(2));

    counter.reset_named_counter("chapter", 5);
    assert_eq!(counter.get_named_counter("chapter"), Some(5));
}

#[test]
fn named_counters_are_independent() {
    let mut counter = PageCounter::default();
    counter.set_named_counter("a", 1);
    counter.reset_named_counter("b", 7);
    counter.set_named_counter("a", 3);
    assert_eq!(counter.get_named_counter("a"), Some(3));
    assert_eq!(counter.get_named_counter("b"), Some(7));
    assert_eq!(counter.get_named_counter("c"), None);
}

#[test]
fn test_bookmark_creation() {
    let bookmark = Bookmark::new("Chapter 1", 1, 0);
    assert_eq!(bookmark.title, "Chapter 1");
    assert_eq!(bookmark.page, 1);
    assert_eq!(bookmark.level, 0);
    assert!(bookmark.children.is_empty());
}

#[test]
fn test_bookmark_with_children() {
    let mut parent = Bookmark::new("Part 1", 1, 0);
    let child = Bookmark::new("Chapter 1", 2, 1);

    parent.add_child(child);

    assert_eq!(parent.children.len(), 1);
    assert_eq!(parent.children[0].title, "Chapter 1");
}

#[test]
fn test_parse_break_value() {
    assert!(matches!(parse_break_value(&ident("auto")), BreakType::Auto));
    assert!(matches!(parse_break_value(&ident("always")), BreakType::Always));
    assert!(matches!(parse_break_value(&ident("avoid")), BreakType::Avoid));
    assert!(matches!(parse_break_value(&ident("page")), BreakType::Page));
    assert!(matches!(parse_break_value(&ident("left")), BreakType::Left));
    assert!(matches!(parse_break_value(&ident("right")), BreakType::Right));
}

#[test]
fn test_parse_break_inside_value() {
    assert!(matches!(parse_break_inside_value(&ident("auto")), BreakInside::Auto));
    assert!(matches!(parse_break_inside_value(&ident("avoid")), BreakInside::Avoid));
    assert!(matches!(parse_break_inside_value(&ident("avoid-page")), BreakInside::AvoidPage));
}

#[test]
fn orphans_widows_conversions() {
    assert_eq!(parse_orphans_widows_value(&CssValue::Integer(3)), 3);
    assert_eq!(parse_orphans_widows_value(&CssValue::Integer(-1)), -1i32 as u32);
    assert_eq!(parse_orphans_widows_value(&CssValue::Number(F32Bits(2.9f32.to_bits()))), 2.9f32 as u32);
    assert_eq!(parse_orphans_widows_value(&CssValue::Number(F32Bits((-4.5f32).to_bits()))), 0);
    assert_eq!(parse_orphans_widows_value(&CssValue::Number(F32Bits(1e20f32.to_bits()))), u32::MAX);
    assert_eq!(parse_orphans_widows_value(&CssValue::Number(F32Bits(f32::NAN.to_bits()))), 0);
    assert_eq!(parse_orphans_widows_value(&ident("x")), 2);
}

#[test]
fn png_up_prediction_is_undone_by_row_decoding() {
    let data: Vec<u8> = vec![10, 20, 30, 200, 100, 0, 5, 25, 35, 1, 255, 128];
    let filtered = Predictor::PngUp.apply(&data, 2, 3);
    assert_eq!(filtered.len(), 14);
    assert_eq!(decode_png_rows(&filtered, 2, 2, 8, 2), data);
}
