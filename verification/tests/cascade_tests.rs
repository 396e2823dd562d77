use html2pdf::css::{CssFunction, CssValue, Selector, SelectorPart, Unit};
use html2pdf::html::Element;
use html2pdf::layout::box_model::BoxType;
use html2pdf::layout::cascade::{
    parse_background_image, parse_color, parse_list_style_image, parse_object_position, ComputedStyle,
    Declaration, ObjectPosition, Rule, StyleResolver, StyleRule, Stylesheet,
};
use html2pdf::layout::style::{
    parse_length, parse_margin_or_padding, BorderStyle, Display, FontStyle, FontWeight, ListStyleType, Position,
    TextAlign,
};
use html2pdf::layout::table::BorderCollapse;
use html2pdf::types::{Color, F32Bits, Length};

fn px(v: f32) -> Length {
    Length::Px(F32Bits(v.to_bits()))
}

fn em(v: f32) -> Length {
    Length::Em(F32Bits(v.to_bits()))
}

fn len(v: f32, u: Unit) -> CssValue {
    CssValue::Length(F32Bits(v.to_bits()), u)
}

fn ident(s: &str) -> CssValue {
    CssValue::Ident(s.to_string())
}

fn rule(parts: Vec<SelectorPart>, decls: Vec<Declaration>) -> Rule {
    Rule::Style(StyleRule { selector: Selector { parts }, declarations: decls })
}

#[test]
fn test_parse_length() {
    assert_eq!(parse_length(&len(100.0, Unit::Px)), px(100.0));
    assert_eq!(parse_length(&CssValue::Ident("auto".to_string())), Length::Auto);
}

#[test]
fn test_margin_padding_shorthand() {
    // 1 value - all sides same
    let value = len(10.0, Unit::Px);
    let (top, right, bottom, left) = parse_margin_or_padding(&value);
    assert_eq!(top, px(10.0));
    assert_eq!(right, px(10.0));
    assert_eq!(bottom, px(10.0));
    assert_eq!(left, px(10.0));

    // 2 values - vertical | horizontal
    let values = CssValue::List(vec![len(10.0, Unit::Px), len(20.0, Unit::Px)]);
    let (top, right, bottom, left) = parse_margin_or_padding(&values);
    assert_eq!(top, px(10.0));
    assert_eq!(right, px(20.0));
    assert_eq!(bottom, px(10.0));
    assert_eq!(left, px(20.0));

    // 4 values - top | right | bottom | left
    let values = CssValue::List(vec![
        len(1.0, Unit::Px),
        len(2.0, Unit::Px),
        len(3.0, Unit::Px),
        len(4.0, Unit::Px),
    ]);
    let (top, right, bottom, left) = parse_margin_or_padding(&values);
    assert_eq!(top, px(1.0));
    assert_eq!(right, px(2.0));
    assert_eq!(bottom, px(3.0));
    assert_eq!(left, px(4.0));
}

#[test]
fn test_computed_style_defaults() {
    let resolver = StyleResolver::new();
    let mut style = ComputedStyle::default();
    resolver.apply_initial_values(&mut style);

    assert_eq!(style.display, Display::Inline);
    assert_eq!(style.position, Position::Static);
    assert_eq!(style.font_size, px(16.0));
}

#[test]
fn test_parse_background_image() {
    // Test url() parsing
    let mut func = CssFunction::new("url");
    func.add_argument(CssValue::String("image.png".to_string()));
    let url_value = CssValue::Function(func);
    assert_eq!(parse_background_image(&url_value), Some("image.png".to_string()));

    // Test none
    assert_eq!(parse_background_image(&CssValue::Ident("none".to_string())), None);
}

#[test]
fn test_img_default_display() {
    let resolver = StyleResolver::new();
    let img = Element::new("img", vec![]);
    let style = resolver.compute_style(&img, None);

    // img should be inline by default
    assert_eq!(style.display, Display::Inline);
}

#[test]
fn user_agent_rules_set_headings_and_tables() {
    let resolver = StyleResolver::new();
    assert_eq!(resolver.default_styles.len(), 33);
    let h1 = resolver.compute_style(&Element::new("H1", vec![]), None);
    assert_eq!(h1.display, Display::Block);
    assert_eq!(h1.font_weight, FontWeight::Bold);
    assert_eq!(h1.font_size, em(2.0));
    assert_eq!(h1.margin_top, em(0.67));
    let th = resolver.compute_style(&Element::new("th", vec![]), None);
    assert_eq!(th.text_align, TextAlign::Center);
    assert_eq!(th.padding_left, px(1.0));
    let button = resolver.compute_style(&Element::new("button", vec![]), None);
    assert_eq!(button.border_top_style, BorderStyle::Solid);
    assert_eq!(button.border_left_color, Color { r: 0x99, g: 0x99, b: 0x99, a: 255 });
    assert_eq!(button.background_color, Color { r: 0xF0, g: 0xF0, b: 0xF0, a: 255 });
    let table = resolver.compute_style(&Element::new("table", vec![]), None);
    assert_eq!(table.border_spacing_h, px(2.0));
    assert_eq!(table.border_collapse, BorderCollapse::Separate);
    assert_eq!(resolver.resolve_display(&Element::new("li", vec![])), BoxType::Block);
    assert_eq!(resolver.resolve_display(&Element::new("span", vec![])), BoxType::Inline);
    assert_eq!(resolver.resolve_display(&Element::new("ol", vec![])), BoxType::Block);
}

#[test]
fn declarations_set_properties() {
    let resolver = StyleResolver::new();
    let mut style = ComputedStyle::default();
    resolver.apply_declaration(&mut style, &Declaration::new("MARGIN", CssValue::List(vec![len(1.0, Unit::Px), len(2.0, Unit::Px)])));
    assert_eq!((style.margin_top, style.margin_right, style.margin_bottom, style.margin_left), (px(1.0), px(2.0), px(1.0), px(2.0)));
    resolver.apply_declaration(&mut style, &Declaration::new("color", CssValue::HexColor(0x123456)));
    assert_eq!(style.color, Color { r: 0x12, g: 0x34, b: 0x56, a: 255 });
    resolver.apply_declaration(&mut style, &Declaration::new("border-style", ident("dashed")));
    assert_eq!(style.border_bottom_style, BorderStyle::Dashed);
    let before = style.clone();
    resolver.apply_declaration(&mut style, &Declaration::new("no-such-property", ident("x")));
    assert_eq!(style, before);
    resolver.apply_declaration(&mut style, &Declaration::new("list-style-type", ident("decimal")));
    assert_eq!(style.list_style_type, ListStyleType::Decimal);
    resolver.apply_declaration(&mut style, &Declaration::new("orphans", CssValue::Number(F32Bits(3.0f32.to_bits()))));
    assert_eq!(style.orphans, 3);
}

#[test]
fn colors_from_values() {
    assert_eq!(parse_color(&ident("red")), Color { r: 255, g: 0, b: 0, a: 255 });
    assert_eq!(parse_color(&ident("transparent")), Color { r: 0, g: 0, b: 0, a: 0 });
    assert_eq!(parse_color(&ident("nonsense")), Color { r: 0, g: 0, b: 0, a: 255 });
    let mut rgb = CssFunction::new("rgb");
    rgb.add_argument(CssValue::Number(F32Bits(300.0f32.to_bits())));
    rgb.add_argument(CssValue::Percentage(F32Bits(50.0f32.to_bits())));
    rgb.add_argument(CssValue::Number(F32Bits(7.9f32.to_bits())));
    assert_eq!(parse_color(&CssValue::Function(rgb)), Color { r: 255, g: 127, b: 7, a: 255 });
}

#[test]
fn images_and_object_position() {
    let mut func = CssFunction::new("url");
    func.add_argument(CssValue::String("'a.png'".to_string()));
    assert_eq!(parse_list_style_image(&CssValue::Function(func)), Some("a.png".to_string()));
    assert_eq!(parse_object_position(&ident("right")),
        ObjectPosition { horizontal: F32Bits(1.0f32.to_bits()), vertical: F32Bits(0) });
    assert_eq!(parse_object_position(&CssValue::List(vec![CssValue::Percentage(F32Bits(25.0f32.to_bits())), ident("bottom")])),
        ObjectPosition { horizontal: F32Bits(0.25f32.to_bits()), vertical: F32Bits(1.0f32.to_bits()) });
}

#[test]
fn author_rules_follow_specificity_then_order() {
    let mut resolver = StyleResolver::new();
    let sheet = Stylesheet {
        rules: vec![
            rule(vec![SelectorPart::Id("main".to_string())], vec![Declaration::new("font-style", ident("italic"))]),
            rule(vec![SelectorPart::Type("p".to_string())], vec![
                Declaration::new("font-style", ident("oblique")),
                Declaration::new("display", ident("flex")),
            ]),
            rule(vec![SelectorPart::Type("p".to_string()), SelectorPart::Class("x".to_string())],
                vec![Declaration::new("display", ident("grid"))]),
            rule(vec![SelectorPart::Class("x".to_string())], vec![Declaration::new("display", ident("table"))]),
            rule(vec![SelectorPart::Class("nope".to_string())], vec![Declaration::new("display", ident("none"))]),
        ],
    };
    resolver.add_stylesheet(sheet);
    let p = Element::new("p", vec![("id".to_string(), "main".to_string()), ("class".to_string(), "x y".to_string())]);
    let style = resolver.compute_style(&p, None);
    // the id rule beats the type rule though it comes first
    assert_eq!(style.font_style, FontStyle::Italic);
    // type+class (0,1,1) beats class (0,1,0) and type (0,0,1)
    assert_eq!(style.display, Display::Grid);
    // user-agent margins of p stay
    assert_eq!(style.margin_top, em(1.0));
}

#[test]
fn inherited_properties_come_from_the_parent() {
    let resolver = StyleResolver::new();
    let mut parent = ComputedStyle::default();
    resolver.apply_declaration(&mut parent, &Declaration::new("color", ident("blue")));
    resolver.apply_declaration(&mut parent, &Declaration::new("font-family", ident("Arial")));
    resolver.apply_declaration(&mut parent, &Declaration::new("margin-left", len(5.0, Unit::Px)));
    let child = resolver.compute_style(&Element::new("span", vec![]), Some(&parent));
    assert_eq!(child.color, Color { r: 0, g: 0, b: 255, a: 255 });
    assert_eq!(child.font_family, vec!["Arial".to_string()]);
    assert_eq!(child.margin_left, px(0.0));
}
