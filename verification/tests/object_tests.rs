use html2pdf::pdf::object::{PdfArray, PdfDictionary, PdfObject, PdfReference};
use html2pdf::types::F32Bits;

fn real_obj(v: f32) -> PdfObject {
    PdfObject::Real(F32Bits(v.to_bits()))
}

fn text_of(o: &PdfObject) -> String {
    let mut out = String::new();
    o.write(&mut out).unwrap();
    out
}

#[test]
fn test_object_writing() {
    let mut output = String::new();

    PdfObject::Null.write(&mut output).unwrap();
    assert_eq!(output, "null");

    output.clear();
    PdfObject::Bool(true).write(&mut output).unwrap();
    assert_eq!(output, "true");

    output.clear();
    PdfObject::Integer(42).write(&mut output).unwrap();
    assert_eq!(output, "42");

    output.clear();
    real_obj(3.14159).write(&mut output).unwrap();
    assert!(output.starts_with("3.1415"));
}

#[test]
fn test_string_escaping() {
    let mut output = String::new();
    PdfObject::String(b"(test)".to_vec()).write(&mut output).unwrap();
    assert_eq!(output, "(\\(test\\))");
}

#[test]
fn test_dictionary() {
    let mut dict = PdfDictionary::new();
    dict.insert("Type", PdfObject::Name("Catalog".to_string()));
    dict.insert("Pages", PdfObject::Reference(PdfReference::new(1, 0)));

    let mut output = String::new();
    dict.write(&mut output).unwrap();
    assert!(output.contains("/Type /Catalog"));
    assert!(output.contains("/Pages 1 0 R"));
}

#[test]
fn test_array() {
    let mut arr = PdfArray::new();
    arr.push(PdfObject::Integer(1i32));
    arr.push(real_obj(2.5f32));
    arr.push(PdfObject::String("hello".as_bytes().to_vec()));

    let mut output = String::new();
    arr.write(&mut output).unwrap();
    assert_eq!(output, "[1 2.500000 (hello)]");
}

#[test]
fn test_reference() {
    let mut output = String::new();
    PdfObject::Reference(PdfReference::new(5, 0)).write(&mut output).unwrap();
    assert_eq!(output, "5 0 R");
}

#[test]
fn reals_print_like_six_decimal_formatting() {
    let values: Vec<f32> = vec![
        0.0, -0.0, 1.0, -1.5, 0.1, 0.0078125, 0.0234375, 1e-7, 5e-7, 4.9999997e-7, 123456.789, 0.9999996,
        16777216.0, 3.4028235e38, -3.4028235e38, 1e-45, 2.5e-6, 1234.5677, f32::INFINITY, f32::NEG_INFINITY,
        f32::NAN, 0.5, 1.0000005, 99.99999,
    ];
    for v in values {
        assert_eq!(text_of(&real_obj(v)), format!("{:.6}", v), "value {:e}", v);
    }
    let mut bits: u32 = 0x0000_1234;
    for _ in 0..2000 {
        bits = bits.wrapping_mul(2654435761).wrapping_add(12345);
        let v = f32::from_bits(bits);
        assert_eq!(text_of(&real_obj(v)), format!("{:.6}", v), "bits {:08x}", bits);
    }
}

#[test]
fn integers_hex_strings_and_names_are_written_as_pdf_text() {
    assert_eq!(text_of(&PdfObject::Integer(-2147483648)), "-2147483648");
    assert_eq!(text_of(&PdfObject::Integer(0)), "0");
    assert_eq!(text_of(&PdfObject::Bool(false)), "false");
    assert_eq!(text_of(&PdfObject::HexString(vec![0x00, 0xAB, 0x7f])), "<00AB7F>");
    assert_eq!(text_of(&PdfObject::Name("A b#é".to_string())), "/A#20b#23#E9");
    assert_eq!(text_of(&PdfObject::String(b"a\\b\n\r\tc".to_vec())), "(a\\\\b\\n\\r\\tc)");
    assert_eq!(text_of(&PdfObject::String(vec![0xE9])), "(\u{e9})");
}

#[test]
fn nested_arrays_and_dictionaries_are_written_in_key_order() {
    let mut inner = PdfArray::new();
    inner.push(PdfObject::Null);
    let mut d = PdfDictionary::new();
    d.insert("Z", PdfObject::Integer(1));
    d.insert("A", PdfObject::Array(inner));
    let mut outer = PdfArray::new();
    outer.push(PdfObject::Dictionary(d));
    outer.push(PdfObject::Array(PdfArray::new()));
    assert_eq!(text_of(&PdfObject::Array(outer)), "[<</A [null]/Z 1>> []]");
}
