use html2pdf::css::{CssValue, Selector, SelectorPart, Unit};
use html2pdf::layout::style::Specificity;
use html2pdf::layout::style::{parse_font_family, parse_integer, parse_number, parse_page_name, parse_string_set,
    parse_string_set_value};
use html2pdf::pdf::print_css::StringSetValue;
use html2pdf::css::CssFunction;
use html2pdf::html::{Element, Node, TextNode};
use html2pdf::layout::box_model::{BoxType, Dimensions, EdgeSizes};
use html2pdf::layout::flow::{calculate_clearance, BlockFormattingContext, FloatBox, InlineFormattingContext, InlineFragment};
use html2pdf::layout::style::Clear;
use html2pdf::layout::flex::{AlignItems, FlexContainer, FlexDirection, FlexWrap, JustifyContent};
use html2pdf::layout::form::{create_form_box, get_form_default_styles, is_form_element, FormBox, FormControlType};
use html2pdf::layout::grid::{
    can_fit, parse_grid_auto_flow, parse_grid_line, GridAutoFlow, GridLine, GridPlacement, GridTemplateAreas,
};
use html2pdf::layout::style::{
    parse_grid_area, parse_grid_auto_flow_value, parse_grid_line as parse_grid_value, parse_grid_line_shorthand,
    parse_display, parse_font_weight, parse_list_style_position, parse_list_style_type, parse_object_fit,
    parse_z_index, Display, FontStretch, FontVariantCaps, FontWeight, ListStylePosition, ListStyleType, ObjectFit,
    WhiteSpace, ZIndex,
};
use html2pdf::layout::table::{
    is_table_element, parse_border_collapse, parse_caption_side, parse_empty_cells, parse_table_layout,
    table_element_display, BorderCollapse, CaptionSide, CellAlign, CellVerticalAlign, EmptyCells, TableLayout,
    TableLayoutContext,
};
use html2pdf::layout::style::{TextTransform, WordWrap};
use html2pdf::layout::text::{
    TextMetrics,
    apply_text_transform, collapse_whitespace, parse_overflow_wrap, parse_word_break, OverflowWrap, WordBreak,
    WordBreaker,
};
use html2pdf::types::{f32_of_u128, Color, F32Bits, Rect};

fn ident(s: &str) -> CssValue {
    CssValue::Ident(s.to_string())
}

#[test]
fn test_box_type() {
    assert!(BoxType::Block.is_block_level());
    assert!(!BoxType::Block.is_inline_level());

    assert!(BoxType::Inline.is_inline_level());
    assert!(!BoxType::Inline.is_block_level());

    assert!(BoxType::Block.establishes_bfc());
    assert!(BoxType::Anonymous.establishes_bfc());
}

#[test]
fn test_flex_container_defaults() {
    let container = FlexContainer::default();
    assert_eq!(container.direction, FlexDirection::Row);
    assert_eq!(container.wrap, FlexWrap::Nowrap);
    assert_eq!(container.justify_content, JustifyContent::FlexStart);
    assert_eq!(container.align_items, AlignItems::Stretch);
    assert!(container.is_horizontal());
    assert!(!container.is_reversed());
}

#[test]
fn test_flex_direction_column() {
    let container = FlexContainer {
        direction: FlexDirection::Column,
        ..Default::default()
    };
    assert!(!container.is_horizontal());
    assert!(!container.is_reversed());
}

#[test]
fn test_form_control_type_from_input() {
    assert_eq!(FormControlType::from_input("text"), FormControlType::Text);
    assert_eq!(FormControlType::from_input("password"), FormControlType::Password);
    assert_eq!(FormControlType::from_input("checkbox"), FormControlType::Checkbox);
    assert_eq!(FormControlType::from_input("hidden"), FormControlType::Hidden);
    assert_eq!(FormControlType::from_input("UNKNOWN"), FormControlType::Text);
}

#[test]
fn test_form_box_from_input() {
    let mut el = Element::new("input", vec![]);
    el.set_attr("type", "text");
    el.set_attr("name", "username");
    el.set_attr("value", "john");

    let form_box = FormBox::from_input(&el);
    assert_eq!(form_box.control_type, FormControlType::Text);
    assert_eq!(form_box.name, "username");
    assert_eq!(form_box.value, "john");
}

#[test]
fn test_form_box_checkbox() {
    let mut el = Element::new("input", vec![]);
    el.set_attr("type", "checkbox");
    el.set_attr("checked", "");

    let form_box = FormBox::from_input(&el);
    assert_eq!(form_box.control_type, FormControlType::Checkbox);
    assert!(form_box.checked);
}

#[test]
fn test_form_box_password_display() {
    let mut el = Element::new("input", vec![]);
    el.set_attr("type", "password");
    el.set_attr("value", "secret");

    let form_box = FormBox::from_input(&el);
    assert_eq!(form_box.display_text(), "••••••");
}

#[test]
fn test_is_form_element() {
    assert!(is_form_element("input"));
    assert!(is_form_element("textarea"));
    assert!(is_form_element("select"));
    assert!(is_form_element("button"));
    assert!(is_form_element("label"));
    assert!(!is_form_element("div"));
    assert!(!is_form_element("span"));
}

#[test]
fn test_hidden_visibility() {
    let hidden = FormControlType::Hidden;
    assert!(!hidden.is_visible());

    let text = FormControlType::Text;
    assert!(text.is_visible());
}

fn option(value: &str, text: &str, selected: bool) -> Node {
    let mut o = Element::new("OPTION", vec![]);
    o.set_attr("value", value);
    if selected {
        o.set_attr("selected", "");
    }
    o.append_child(Node::Text(TextNode::new(text)));
    Node::Element(o)
}

#[test]
fn select_button_label_and_display_text() {
    let mut select = Element::new("select", vec![]);
    select.append_child(option("a", "Apple", false));
    select.append_child(Node::Text(TextNode::new(" ")));
    select.append_child(option("b", "Banana", true));
    let b = create_form_box(&select).unwrap();
    assert_eq!(b.control_type, FormControlType::Select);
    assert_eq!(b.options.len(), 2);
    assert_eq!(b.selected_index, Some(1));
    assert_eq!(b.value, "Banana");
    assert_eq!(b.display_text(), "Banana");

    let empty = FormBox::from_select(&Element::new("select", vec![]));
    assert_eq!(empty.selected_index, None);
    assert_eq!(empty.value, "");

    let mut button = Element::new("button", vec![]);
    button.set_attr("type", "RESET");
    let rb = FormBox::from_button(&button);
    assert_eq!(rb.control_type, FormControlType::Reset);
    assert_eq!(rb.value, "Reset");
    assert_eq!(rb.default_background_color(), Color::new(240, 240, 240));

    let mut label = Element::new("label", vec![]);
    label.set_attr("for", "name");
    label.append_child(Node::Text(TextNode::new("Name")));
    let lb = FormBox::from_label(&label);
    assert_eq!(lb.label_for, Some("name".to_string()));
    assert_eq!(lb.value, "Name");
    assert!(!lb.needs_border());

    let mut cb = Element::new("input", vec![]);
    cb.set_attr("type", "Radio");
    let radio = FormBox::from_input(&cb);
    assert_eq!(radio.display_text(), "○");
    let mut file = FormBox::from_input(&Element::new("input", vec![("type".to_string(), "file".to_string())]));
    assert_eq!(file.display_text(), "Choose file...");
    file.filename = Some("a.txt".to_string());
    assert_eq!(file.display_text(), "📎 a.txt");
    assert!(create_form_box(&Element::new("div", vec![])).is_none());
    assert_eq!(get_form_default_styles()[3].1[2], ("background", "#f0f0f0"));
}

#[test]
fn test_grid_auto_flow() {
    assert!(GridAutoFlow::Row.is_row());
    assert!(!GridAutoFlow::Column.is_row());
    assert!(GridAutoFlow::RowDense.is_dense());
    assert!(!GridAutoFlow::Column.is_dense());
}

#[test]
fn test_grid_line() {
    let auto = GridLine::auto();
    assert!(auto.is_auto());

    let numbered = GridLine::numbered(3);
    assert_eq!(numbered.line_number, 3);

    let span = GridLine::span(2);
    assert_eq!(span.span, Some(2));
}

#[test]
fn test_grid_placement() {
    let placement = GridPlacement {
        column_start: GridLine::numbered(1),
        column_end: GridLine::numbered(3),
        row_start: GridLine::numbered(1),
        row_end: GridLine::span(2),
    };

    assert_eq!(placement.column_span(), 2);
    assert_eq!(placement.row_span(), 2);
}

#[test]
fn test_grid_template_areas_parse() {
    let areas = GridTemplateAreas::parse(r#""header header" "sidebar main""#);

    assert_eq!(areas.row_count(), 2);
    assert_eq!(areas.column_count(), 2);

    let header = areas.get_area("header");
    assert!(header.is_some());
    let (r1, c1, r2, c2) = header.unwrap();
    assert_eq!(r1, 0);
    assert_eq!(c1, 0);
    assert_eq!(r2, 1);
    assert_eq!(c2, 2);
}

#[test]
fn grid_template_areas_bounds() {
    let areas = GridTemplateAreas::parse("a a .\nb a c\n\"b . c\"");
    assert_eq!(areas.row_count(), 3);
    assert_eq!(areas.get_area("a"), Some((0, 0, 2, 2)));
    assert_eq!(areas.get_area("b"), Some((1, 0, 3, 1)));
    assert_eq!(areas.get_area("c"), Some((1, 2, 3, 3)));
    assert_eq!(areas.get_area("."), None);
    assert_eq!(areas.get_area("z"), None);
    let placement = GridPlacement::from_area_name("main");
    assert_eq!(placement.column_start.area_name, Some("main".to_string()));
    assert!(!placement.is_auto());
}

#[test]
fn test_parse_grid_line() {
    let line = parse_grid_line("3");
    assert_eq!(line.line_number, 3);

    let span = parse_grid_line("span 2");
    assert_eq!(span.span, Some(2));

    let auto = parse_grid_line("auto");
    assert!(auto.is_auto());

    let named = parse_grid_line("header");
    assert_eq!(named.area_name, Some("header".to_string()));
}

#[test]
fn grid_line_edge_cases() {
    assert_eq!(parse_grid_line("  span x ").span, Some(1));
    assert_eq!(parse_grid_line("-2").area_name, Some("-2".to_string()));
    assert_eq!(parse_grid_line("+4").line_number, 4);
    assert!(parse_grid_line("AUTO").is_auto());
    assert_eq!(parse_grid_line("99999999999").area_name, Some("99999999999".to_string()));
}

#[test]
fn test_parse_grid_auto_flow() {
    assert_eq!(parse_grid_auto_flow("row"), GridAutoFlow::Row);
    assert_eq!(parse_grid_auto_flow("column"), GridAutoFlow::Column);
    assert_eq!(parse_grid_auto_flow("row dense"), GridAutoFlow::RowDense);
    assert_eq!(parse_grid_auto_flow("column dense"), GridAutoFlow::ColumnDense);
    assert_eq!(parse_grid_auto_flow(" DENSE Column"), GridAutoFlow::ColumnDense);
}

#[test]
fn test_can_fit() {
    let occupied = vec![
        vec![false, false, false],
        vec![false, true, false],
        vec![false, false, false],
    ];

    assert!(can_fit(&occupied, 0, 0, 1, 1));
    assert!(!can_fit(&occupied, 1, 1, 1, 1));
    assert!(can_fit(&occupied, 2, 0, 2, 1));
}

#[test]
fn test_parse_display() {
    assert_eq!(parse_display(&ident("block")), Display::Block);
    assert_eq!(parse_display(&ident("inline")), Display::Inline);
    assert_eq!(parse_display(&ident("none")), Display::NoDisplay);
}

#[test]
fn test_parse_object_fit() {
    assert_eq!(parse_object_fit(&ident("fill")), ObjectFit::Fill);
    assert_eq!(parse_object_fit(&ident("cover")), ObjectFit::Cover);
    assert_eq!(parse_object_fit(&ident("contain")), ObjectFit::Contain);
    assert_eq!(parse_object_fit(&ident("none")), ObjectFit::NoFit);
    assert_eq!(parse_object_fit(&ident("scale-down")), ObjectFit::ScaleDown);
}

#[test]
fn test_parse_list_style() {
    assert_eq!(parse_list_style_type(&ident("disc")), ListStyleType::Disc);
    assert_eq!(parse_list_style_type(&ident("decimal")), ListStyleType::Decimal);
    assert_eq!(parse_list_style_type(&ident("none")), ListStyleType::NoMarker);

    assert_eq!(parse_list_style_position(&ident("inside")), ListStylePosition::Inside);
    assert_eq!(parse_list_style_position(&ident("outside")), ListStylePosition::Outside);
}

#[test]
fn style_values_from_css() {
    assert_eq!(Display::TableCell.to_box_type(), BoxType::TableCell);
    assert!(Display::NoDisplay.is_none());
    assert!(Display::TableCaption.is_table_type());
    assert!(!Display::Block.is_table_type());
    assert_eq!(FontStretch::from_css(&CssValue::Percentage(F32Bits(62.9f32.to_bits()))), FontStretch::ExtraCondensed);
    assert_eq!(FontStretch::from_css(&CssValue::Percentage(F32Bits(150.0f32.to_bits()))), FontStretch::ExtraExpanded);
    assert_eq!(FontStretch::from_css(&CssValue::Percentage(F32Bits((-3.0f32).to_bits()))), FontStretch::UltraExpanded);
    assert_eq!(FontStretch::from_css(&ident("condensed")), FontStretch::Condensed);
    assert!(FontVariantCaps::from_css(&ident("petite-caps")).is_small_caps());
    assert_eq!(parse_font_weight(&CssValue::Number(F32Bits(700.5f32.to_bits()))), FontWeight::Number(700));
    assert_eq!(parse_z_index(&CssValue::Number(F32Bits((-2.7f32).to_bits()))), ZIndex::Number(-2));
    assert_eq!(parse_z_index(&CssValue::Length(F32Bits(1.0f32.to_bits()), Unit::Px)), ZIndex::Auto);
    assert!(WhiteSpace::PreLine.preserves_newlines() && WhiteSpace::PreLine.wraps());
    assert!(!WhiteSpace::Pre.collapses_spaces());
}

#[test]
fn test_caption_side_variants() {
    assert_eq!(CaptionSide::Top, CaptionSide::default());

    let top = parse_caption_side(&ident("top"));
    let bottom = parse_caption_side(&ident("bottom"));
    let left = parse_caption_side(&ident("left"));
    let right = parse_caption_side(&ident("right"));

    assert_eq!(top, CaptionSide::Top);
    assert_eq!(bottom, CaptionSide::Bottom);
    assert_eq!(left, CaptionSide::Left);
    assert_eq!(right, CaptionSide::Right);
}

#[test]
fn test_border_collapse_variants() {
    let collapse = parse_border_collapse(&ident("collapse"));
    let separate = parse_border_collapse(&ident("separate"));

    assert_eq!(collapse, BorderCollapse::Collapse);
    assert_eq!(separate, BorderCollapse::Separate);
}

#[test]
fn test_table_layout_variants() {
    let fixed = parse_table_layout(&ident("fixed"));
    let auto = parse_table_layout(&ident("auto"));

    assert_eq!(fixed, TableLayout::Fixed);
    assert_eq!(auto, TableLayout::Auto);
}

#[test]
fn test_empty_cells_variants() {
    let show = parse_empty_cells(&ident("show"));
    let hide = parse_empty_cells(&ident("hide"));

    assert_eq!(show, EmptyCells::Show);
    assert_eq!(hide, EmptyCells::Hide);
}

#[test]
fn test_is_table_element() {
    assert!(is_table_element("table"));
    assert!(is_table_element("thead"));
    assert!(is_table_element("tbody"));
    assert!(is_table_element("tfoot"));
    assert!(is_table_element("tr"));
    assert!(is_table_element("td"));
    assert!(is_table_element("th"));
    assert!(is_table_element("caption"));
    assert!(is_table_element("colgroup"));
    assert!(is_table_element("col"));

    assert!(!is_table_element("div"));
    assert!(!is_table_element("span"));
    assert!(!is_table_element("p"));
}

#[test]
fn test_table_element_display() {
    assert_eq!(table_element_display("table"), Some(Display::Table));
    assert_eq!(table_element_display("tr"), Some(Display::TableRow));
    assert_eq!(table_element_display("td"), Some(Display::TableCell));
    assert_eq!(table_element_display("th"), Some(Display::TableCell));
    assert_eq!(table_element_display("caption"), Some(Display::Block));

    assert_eq!(table_element_display("div"), None);
}

#[test]
fn test_table_layout_context() {
    let mut ctx = TableLayoutContext::new(F32Bits(500.0f32.to_bits()), F32Bits(12.0f32.to_bits()));

    assert_eq!(f32::from_bits(ctx.available_width.0), 500.0);
    assert_eq!(f32::from_bits(ctx.base_font_size.0), 12.0);

    ctx.mark_occupied(0, 0, 2, 2);

    assert!(ctx.is_occupied(0, 0));
    assert!(ctx.is_occupied(0, 1));
    assert!(ctx.is_occupied(1, 0));
    assert!(ctx.is_occupied(1, 1));
    assert!(!ctx.is_occupied(0, 2));
    assert!(!ctx.is_occupied(2, 0));
}

#[test]
fn table_context_next_available_column() {
    let mut ctx = TableLayoutContext::new(F32Bits(0), F32Bits(0));
    ctx.mark_occupied(1, 2, 1, 3);
    assert_eq!(ctx.next_available_col(1, 0), 0);
    assert_eq!(ctx.next_available_col(1, 2), 5);
    assert_eq!(ctx.next_available_col(0, 2), 2);
}

#[test]
fn test_cell_align_variants() {
    assert_eq!(CellAlign::Left, CellAlign::default());

    let left = CellAlign::Left;
    let center = CellAlign::Center;
    let right = CellAlign::Right;
    let justify = CellAlign::Justify;
    let _char_align = CellAlign::Char;

    assert_ne!(left, center);
    assert_ne!(center, right);
    assert_ne!(right, justify);
}

#[test]
fn test_cell_vertical_align_variants() {
    assert_eq!(CellVerticalAlign::Middle, CellVerticalAlign::default());

    let top = CellVerticalAlign::Top;
    let middle = CellVerticalAlign::Middle;
    let bottom = CellVerticalAlign::Bottom;
    let baseline = CellVerticalAlign::Baseline;

    assert_ne!(top, middle);
    assert_ne!(middle, bottom);
    assert_ne!(bottom, baseline);
}

fn named(s: &str) -> GridLine {
    GridLine { line_number: 0, area_name: Some(s.to_string()), span: None }
}

#[test]
fn test_grid_line_from_value() {
    assert_eq!(parse_grid_value(&ident("auto")), GridLine::auto());
    assert_eq!(parse_grid_value(&ident("span 3")), GridLine::span(3));
    assert_eq!(parse_grid_value(&ident("span x")), GridLine::span(1));
    assert_eq!(parse_grid_value(&ident("header")), named("header"));
    assert_eq!(parse_grid_value(&ident("Auto")), named("Auto"));
    assert_eq!(parse_grid_value(&CssValue::Integer(4)), GridLine::numbered(4));
    assert_eq!(parse_grid_value(&CssValue::Integer(0)), GridLine::auto());
    assert_eq!(parse_grid_value(&CssValue::Number(F32Bits(2.9f32.to_bits()))), GridLine::numbered(2));
    assert_eq!(parse_grid_value(&CssValue::Number(F32Bits((-2.0f32).to_bits()))), GridLine::auto());
    assert_eq!(parse_grid_value(&CssValue::Number(F32Bits(f32::NAN.to_bits()))), GridLine::auto());
    assert_eq!(parse_grid_value(&CssValue::String("a".to_string())), GridLine::auto());
}

#[test]
fn test_grid_line_shorthand() {
    assert_eq!(parse_grid_line_shorthand(&ident("1 / 3")), (GridLine::numbered(1), GridLine::numbered(3)));
    assert_eq!(parse_grid_line_shorthand(&ident("-1 / span 2")), (GridLine::numbered(-1), GridLine::span(2)));
    assert_eq!(parse_grid_line_shorthand(&ident("auto / main")), (GridLine::auto(), named("main")));
    assert_eq!(parse_grid_line_shorthand(&ident("span 2")), (GridLine::span(2), GridLine::auto()));
    assert_eq!(parse_grid_line_shorthand(&CssValue::String("a/b".to_string())), (named("a"), named("b")));
    assert_eq!(parse_grid_line_shorthand(&CssValue::String("a".to_string())), (GridLine::auto(), GridLine::auto()));
    assert_eq!(parse_grid_line_shorthand(&ident("1/2/3")), (named("1/2/3"), GridLine::auto()));
    assert_eq!(
        parse_grid_line_shorthand(&CssValue::List(vec![CssValue::Integer(2), ident("span 4")])),
        (GridLine::numbered(2), GridLine::span(4))
    );
    assert_eq!(parse_grid_line_shorthand(&CssValue::Integer(5)), (GridLine::numbered(5), GridLine::auto()));
}

#[test]
fn test_grid_area_value() {
    let a = GridLine::auto();
    assert_eq!(parse_grid_area(&ident("header")), (named("header"), a.clone(), a.clone(), a.clone()));
    assert_eq!(parse_grid_area(&ident("1 / 2")), (named("1"), named("2"), a.clone(), a.clone()));
    assert_eq!(
        parse_grid_area(&ident("auto / span 2 / x / y")),
        (GridLine::auto(), GridLine::span(2), named("x"), named("y"))
    );
    assert_eq!(parse_grid_area(&ident("a / b / c")), (named("a / b / c"), a.clone(), a.clone(), a.clone()));
    assert_eq!(
        parse_grid_area(&CssValue::List(vec![CssValue::Integer(3)])),
        (GridLine::numbered(3), GridLine::numbered(3), a.clone(), a.clone())
    );
    assert_eq!(
        parse_grid_area(&CssValue::List(vec![CssValue::Integer(1), CssValue::Integer(2), CssValue::Integer(3), CssValue::Integer(4)])),
        (GridLine::numbered(1), GridLine::numbered(2), GridLine::numbered(3), GridLine::numbered(4))
    );
    assert_eq!(parse_grid_area(&CssValue::List(vec![ident("a"), ident("b"), ident("c")])), (a.clone(), a.clone(), a.clone(), a.clone()));
    assert_eq!(parse_grid_area(&CssValue::Integer(2)), (a.clone(), a.clone(), a.clone(), a.clone()));
}

#[test]
fn test_grid_auto_flow_value() {
    assert_eq!(parse_grid_auto_flow_value(&ident("column dense")), GridAutoFlow::ColumnDense);
    assert_eq!(parse_grid_auto_flow_value(&ident("row")), GridAutoFlow::Row);
    assert_eq!(parse_grid_auto_flow_value(&CssValue::Integer(1)), GridAutoFlow::Row);
}

#[test]
fn test_collapse_whitespace_modes() {
    assert_eq!(collapse_whitespace("  a \t b\n\nc  ", WhiteSpace::Normal), "a b c");
    assert_eq!(collapse_whitespace("  a  b ", WhiteSpace::Nowrap), "a b");
    assert_eq!(collapse_whitespace("  a  b ", WhiteSpace::PreLine), "a b");
    assert_eq!(collapse_whitespace("  a  b ", WhiteSpace::Pre), "  a  b ");
    assert_eq!(collapse_whitespace("  a  b ", WhiteSpace::PreWrap), "  a  b ");
    assert_eq!(collapse_whitespace("   ", WhiteSpace::Normal), "");
    let once = collapse_whitespace(" x   y  z ", WhiteSpace::Normal);
    assert_eq!(collapse_whitespace(&once, WhiteSpace::Normal), once);
}

#[test]
fn test_text_transform() {
    assert_eq!(apply_text_transform("Hello  World", TextTransform::NoTransform), "Hello  World");
    assert_eq!(apply_text_transform("hello world", TextTransform::Uppercase), "HELLO WORLD");
    assert_eq!(apply_text_transform("Hello WORLD", TextTransform::Lowercase), "hello world");
    assert_eq!(apply_text_transform("  hello   wORLD ", TextTransform::Capitalize), "Hello World");
    assert_eq!(apply_text_transform("straße", TextTransform::Uppercase), "STRASSE");
    assert_eq!(apply_text_transform("ßa", TextTransform::Capitalize), "SSa");
    assert_eq!(apply_text_transform("", TextTransform::Capitalize), "");
}

#[test]
fn test_word_breaker_opportunities() {
    let normal = WordBreaker::new(WordBreak::Normal, OverflowWrap::Normal);
    assert!(normal.can_break_at(' ', Some('a')));
    assert!(normal.can_break_at('-', None));
    assert!(!normal.can_break_at('b', Some('a')));
    assert!(normal.can_break_at('\u{4E2D}', Some('\u{6587}')));
    assert!(!normal.can_break_at('\u{4E2D}', None));
    let keep = WordBreaker::new(WordBreak::KeepAll, OverflowWrap::BreakWord);
    assert!(!keep.can_break_at('\u{4E2D}', Some('\u{6587}')));
    assert!(keep.can_break_at('-', Some('a')));
    let all = WordBreaker::new(WordBreak::BreakAll, OverflowWrap::Anywhere);
    assert!(all.can_break_at('x', Some('y')));

    let w = F32Bits(120.0f32.to_bits());
    let max = F32Bits(100.0f32.to_bits());
    assert!(keep.should_break_word("long", w, max));
    assert!(!keep.should_break_word("long", max, w));
    assert!(!normal.should_break_word("long", w, max));
    assert!(!all.should_break_word("x", F32Bits(f32::NAN.to_bits()), max));
    assert!(!all.should_break_word("x", F32Bits(0.0f32.to_bits()), F32Bits((-0.0f32).to_bits())));
    assert!(all.should_break_word("x", F32Bits((-1.0f32).to_bits()), F32Bits((-2.0f32).to_bits())));
}

#[test]
fn test_split_text_into_words() {
    let normal = WordBreaker::new(WordBreak::Normal, OverflowWrap::Normal);
    let words: Vec<String> = normal.split_text_into_words("  well-known  text ").iter().map(|w| w.text.clone()).collect();
    assert_eq!(words, vec!["well", "-known", "text"]);
    let cjk: Vec<String> = normal.split_text_into_words("\u{4E2D}\u{6587}a").iter().map(|w| w.text.clone()).collect();
    assert_eq!(cjk, vec!["\u{4E2D}", "\u{6587}a"]);
    let all = WordBreaker::new(WordBreak::BreakAll, OverflowWrap::Normal);
    let pieces: Vec<String> = all.split_text_into_words("ab c").iter().map(|w| w.text.clone()).collect();
    assert_eq!(pieces, vec!["a", "b", "c"]);
    assert!(all.split_text_into_words("ab").iter().all(|w| w.is_break_opportunity));
    assert!(all.split_text_into_words(" \n ").is_empty());
}

#[test]
fn test_word_wrap_mapping() {
    assert_eq!(parse_word_break(WordWrap::BreakWord), WordBreak::BreakAll);
    assert_eq!(parse_word_break(WordWrap::Anywhere), WordBreak::BreakAll);
    assert_eq!(parse_word_break(WordWrap::Normal), WordBreak::Normal);
    assert_eq!(parse_overflow_wrap(WordWrap::BreakWord), OverflowWrap::BreakWord);
    assert_eq!(parse_overflow_wrap(WordWrap::Anywhere), OverflowWrap::Anywhere);
    assert_eq!(parse_overflow_wrap(WordWrap::Normal), OverflowWrap::Normal);
}

#[test]
fn test_collapse_whitespace() {
    let result = collapse_whitespace("Hello   world", WhiteSpace::Normal);
    assert_eq!(result, "Hello world");

    let result = collapse_whitespace("Hello   world", WhiteSpace::Pre);
    assert_eq!(result, "Hello   world");
}

#[test]
fn test_overflow_wrap() {
    let wrap = OverflowWrap::BreakWord;
    let breaker = WordBreaker::new(WordBreak::Normal, wrap);

    assert!(breaker.should_break_word("verylongword", F32Bits(100.0f32.to_bits()), F32Bits(50.0f32.to_bits())));
    assert!(!breaker.should_break_word("short", F32Bits(30.0f32.to_bits()), F32Bits(50.0f32.to_bits())));
}

#[test]
fn test_specificity() {
    let selector = Selector {
        parts: vec![
            SelectorPart::Type("div".to_string()),
            SelectorPart::Class("foo".to_string()),
            SelectorPart::Id("bar".to_string()),
        ],
    };

    let spec = Specificity::from_selector(&selector);
    assert_eq!(spec.0, 1); // 1 ID
    assert_eq!(spec.1, 1); // 1 class
    assert_eq!(spec.2, 1); // 1 type
}

#[test]
fn test_specificity_counts_every_kind() {
    let selector = Selector {
        parts: vec![
            SelectorPart::Universal,
            SelectorPart::Attribute { name: "href".to_string() },
            SelectorPart::PseudoClass("hover".to_string()),
            SelectorPart::PseudoElement("before".to_string()),
            SelectorPart::Id("a".to_string()),
            SelectorPart::Id("b".to_string()),
        ],
    };
    let spec = Specificity::from_selector(&selector);
    assert_eq!(spec, Specificity(2, 2, 1));
    assert!(Specificity(1, 0, 0) > Specificity(0, 9, 9));
    assert_eq!(Specificity::from_selector(&Selector { parts: vec![] }), Specificity::new());
}

fn func(name: &str, args: Vec<CssValue>) -> CssValue {
    let mut f = CssFunction::new(name);
    for a in args {
        f.add_argument(a);
    }
    CssValue::Function(f)
}

#[test]
fn test_font_family_values() {
    let list = CssValue::List(vec![
        CssValue::String("Open Sans".to_string()),
        CssValue::Integer(3),
        ident("sans-serif"),
    ]);
    assert_eq!(parse_font_family(&list), vec!["Open Sans".to_string(), "sans-serif".to_string()]);
    assert_eq!(parse_font_family(&ident("monospace")), vec!["monospace".to_string()]);
    assert_eq!(parse_font_family(&CssValue::Integer(1)), vec!["serif".to_string()]);
    assert_eq!(parse_font_family(&CssValue::List(vec![CssValue::Integer(1)])), vec!["serif".to_string()]);
}

#[test]
fn test_page_name_and_numbers() {
    assert_eq!(parse_page_name(&ident("cover")), Some("cover".to_string()));
    assert_eq!(parse_page_name(&ident("auto")), None);
    assert_eq!(parse_page_name(&CssValue::String("auto".to_string())), Some("auto".to_string()));
    assert_eq!(parse_page_name(&CssValue::Integer(2)), None);
    assert_eq!(parse_integer(&CssValue::Number(F32Bits(3.7f32.to_bits())), 9), 3);
    assert_eq!(parse_integer(&CssValue::Integer(5), 9), 9);
    let d = F32Bits(1.5f32.to_bits());
    assert_eq!(parse_number(&CssValue::Number(F32Bits(2.0f32.to_bits())), d), F32Bits(2.0f32.to_bits()));
    assert_eq!(parse_number(&ident("x"), d), d);
}

#[test]
fn test_string_set_values() {
    assert_eq!(parse_string_set_value(&CssValue::String("Chapter 1".to_string())), StringSetValue::Text("Chapter 1".to_string()));
    assert_eq!(parse_string_set_value(&ident("none")), StringSetValue::Text(String::new()));
    assert_eq!(parse_string_set_value(&func("attr", vec![ident("title")])), StringSetValue::Attr("title".to_string()));
    assert_eq!(parse_string_set_value(&func("counter", vec![ident("page")])), StringSetValue::Text("[page]".to_string()));
    assert_eq!(parse_string_set_value(&func("attr", vec![CssValue::Integer(1)])), StringSetValue::Text(String::new()));
    assert_eq!(parse_string_set_value(&func("url", vec![ident("x")])), StringSetValue::Text(String::new()));

    let value = CssValue::List(vec![
        ident("header"),
        CssValue::String("Chapter 1".to_string()),
        CssValue::Integer(7),
        ident("footer"),
        func("attr", vec![ident("data-x")]),
        ident("dangling"),
    ]);
    assert_eq!(
        parse_string_set(&value),
        vec![
            ("header".to_string(), StringSetValue::Text("Chapter 1".to_string())),
            ("footer".to_string(), StringSetValue::Attr("data-x".to_string())),
        ]
    );
    assert!(parse_string_set(&ident("header")).is_empty());
}

fn form_box(control_type: FormControlType, value: &str) -> FormBox {
    FormBox {
        control_type,
        value: value.to_string(),
        placeholder: String::new(),
        disabled: false,
        readonly: false,
        checked: false,
        selected_index: None,
        options: Vec::new(),
        name: String::new(),
        id: String::new(),
        filename: None,
        label_for: None,
    }
}

#[test]
fn test_integer_to_single_precision() {
    let mut cases: Vec<u128> = vec![
        0, 1, 2, 3, 7, 255, 0xFF_FFFF, 0x100_0000, 0x100_0001, 0x100_0002, 0x100_0003, 0x1FF_FFFF,
        0x200_0001, 0x200_0002, 0x200_0003, 0x200_0006, 0xFFFF_FFFF, u64::MAX as u128, (u64::MAX as u128) + 40,
        0xFF_FFFF_8000_0000_0000, 0xFF_FFFF_FFFF_FFFF_FFFF,
    ];
    let mut x: u64 = 0x1234_5678_9abc_def1;
    for _ in 0..3000 {
        x = x.wrapping_mul(6364136223846793005).wrapping_add(1442695040888963407);
        cases.push((x >> (x % 60)) as u128);
    }
    for n in cases {
        let (bits, value) = f32_of_u128(n);
        let f = n as f32;
        assert_eq!(bits, f.to_bits(), "bits of {}", n);
        assert_eq!(value, f as u128, "value of {}", n);
    }
}

#[test]
fn test_form_intrinsic_sizes() {
    assert_eq!(form_box(FormControlType::Text, "x").intrinsic_width(), F32Bits(200.0f32.to_bits()));
    assert_eq!(form_box(FormControlType::Number, "").intrinsic_width(), F32Bits(100.0f32.to_bits()));
    assert_eq!(form_box(FormControlType::Hidden, "abc").intrinsic_width(), F32Bits(0.0f32.to_bits()));
    assert_eq!(form_box(FormControlType::Submit, "Send").intrinsic_width(), F32Bits(64.0f32.to_bits()));
    assert_eq!(form_box(FormControlType::Label, "Name").intrinsic_width(), F32Bits(28.0f32.to_bits()));
    assert_eq!(form_box(FormControlType::Label, "\u{e9}").intrinsic_width(), F32Bits(14.0f32.to_bits()));
    for v in ["", "a", "OK", "A much longer button caption"] {
        let expect = (v.len() as f32) * 8.0 + 32.0;
        assert_eq!(form_box(FormControlType::Button, v).intrinsic_width(), F32Bits(expect.to_bits()));
    }
    assert_eq!(form_box(FormControlType::Textarea, "").intrinsic_height(), F32Bits(80.0f32.to_bits()));
    assert_eq!(form_box(FormControlType::Select, "").intrinsic_height(), F32Bits(28.0f32.to_bits()));
    assert_eq!(form_box(FormControlType::Reset, "").intrinsic_height(), F32Bits(32.0f32.to_bits()));
    assert_eq!(form_box(FormControlType::Label, "").intrinsic_height(), F32Bits(20.0f32.to_bits()));
    assert_eq!(form_box(FormControlType::Radio, "").border_width(), F32Bits(1.0f32.to_bits()));
}

#[test]
fn test_font_stretch_percentages() {
    assert_eq!(FontStretch::Normal.to_percentage(), F32Bits(100.0f32.to_bits()));
    assert_eq!(FontStretch::ExtraCondensed.to_percentage(), F32Bits(62.5f32.to_bits()));
    assert_eq!(FontStretch::UltraExpanded.to_percentage(), F32Bits(200.0f32.to_bits()));
    assert_eq!(FontStretch::from_percentage(F32Bits(49.9f32.to_bits())), FontStretch::UltraCondensed);
    assert_eq!(FontStretch::from_percentage(F32Bits(50.0f32.to_bits())), FontStretch::ExtraCondensed);
    assert_eq!(FontStretch::from_percentage(F32Bits(100.0f32.to_bits())), FontStretch::Normal);
    assert_eq!(FontStretch::from_percentage(F32Bits(199.5f32.to_bits())), FontStretch::ExtraExpanded);
    assert_eq!(FontStretch::from_percentage(F32Bits(f32::NAN.to_bits())), FontStretch::UltraCondensed);
    assert_eq!(FontStretch::from_percentage(F32Bits((-0.5f32).to_bits())), FontStretch::UltraCondensed);
    assert_eq!(FontStretch::from_percentage(F32Bits((-1.0f32).to_bits())), FontStretch::UltraExpanded);
}

fn px(v: f32) -> F32Bits {
    F32Bits(v.to_bits())
}

#[test]
fn test_edge_sizes() {
    let edges = EdgeSizes::all(px(10.0));
    assert_eq!(edges.horizontal(), px(20.0));
    assert_eq!(edges.vertical(), px(20.0));

    let edges = EdgeSizes::symmetric(px(10.0), px(20.0));
    assert_eq!(edges.horizontal(), px(40.0));
    assert_eq!(edges.vertical(), px(20.0));
}

#[test]
fn test_dimensions() {
    let mut dims = Dimensions::new(Rect::new(px(0.0), px(0.0), px(100.0), px(50.0)));
    dims.padding = EdgeSizes::all(px(10.0));
    dims.border = EdgeSizes::all(px(5.0));
    dims.margin = EdgeSizes::all(px(15.0));

    // Content: 100x50
    assert_eq!(dims.content.width, px(100.0));
    assert_eq!(dims.content.height, px(50.0));

    // Padding box: (100 + 20) x (50 + 20) = 120 x 70
    let padding = dims.padding_box();
    assert_eq!(padding.width, px(120.0));
    assert_eq!(padding.height, px(70.0));

    // Border box: (120 + 10) x (70 + 10) = 130 x 80
    let border = dims.border_box();
    assert_eq!(border.width, px(130.0));
    assert_eq!(border.height, px(80.0));

    // Margin box: (130 + 30) x (80 + 30) = 160 x 110
    let margin = dims.margin_box();
    assert_eq!(margin.width, px(160.0));
    assert_eq!(margin.height, px(110.0));
}

#[test]
fn test_dimension_totals_and_offsets() {
    let mut dims = Dimensions::new(Rect::new(px(10.0), px(20.0), px(100.0), px(50.0)));
    dims.padding = EdgeSizes::new(px(1.0), px(2.0), px(3.0), px(4.0));
    dims.border = EdgeSizes::all(px(0.5));
    dims.margin = EdgeSizes::symmetric(px(6.0), px(7.0));
    let p = dims.padding_box();
    assert_eq!((p.x, p.y, p.width, p.height), (px(6.0), px(19.0), px(106.0), px(54.0)));
    let m = dims.margin_box();
    assert_eq!((m.x, m.y, m.width, m.height), (px(-1.5), px(12.5), px(121.0), px(67.0)));
    assert_eq!(dims.border_box_width(), px(107.0));
    assert_eq!(dims.border_box_height(), px(55.0));
    assert_eq!(dims.margin_box_width(), px(121.0));
    assert_eq!(dims.margin_box_height(), px(67.0));
    assert_eq!(Dimensions::default(), Dimensions::new(Rect::new(px(0.0), px(0.0), px(0.0), px(0.0))));
}

#[test]
fn test_block_formatting_context() {
    let containing = Rect::new(px(0.0), px(0.0), px(500.0), px(800.0));
    let mut bfc = BlockFormattingContext::new(containing);

    assert_eq!(bfc.available_width(), px(500.0));
    assert!(bfc.has_room_for(px(100.0)));

    bfc.advance(px(100.0));
    assert_eq!(bfc.current_y, px(100.0));
}

#[test]
fn test_inline_formatting_context() {
    let mut ifc = InlineFormattingContext::new(px(200.0), px(20.0));

    let fragment = InlineFragment {
        box_index: 0,
        width: px(50.0),
        height: px(20.0),
        x: px(0.0),
        is_text: true,
        text: Some("Hello".to_string()),
    };

    ifc.add_fragment(fragment);
    assert_eq!(ifc.current_x, px(50.0));
    assert!(ifc.has_room_for(px(100.0)));
    assert!(!ifc.has_room_for(px(200.0)));
}

#[test]
fn test_clearance() {
    let floats = vec![FloatBox { rect: Rect::new(px(0.0), px(0.0), px(100.0), px(50.0)), is_left: true, box_index: 0 }];

    let clearance = calculate_clearance(&floats, Clear::Left, px(0.0));
    assert_eq!(clearance, px(50.0));

    let clearance = calculate_clearance(&floats, Clear::Right, px(0.0));
    assert_eq!(clearance, px(0.0));
}

#[test]
fn test_clear_floats_and_remaining_height() {
    let mut bfc = BlockFormattingContext::new(Rect::new(px(0.0), px(10.0), px(300.0), px(100.0)));
    assert_eq!(bfc.remaining_height(), px(100.0));
    bfc.advance(px(150.0));
    assert_eq!(bfc.remaining_height(), px(0.0));
    assert!(!bfc.has_room_for(px(1.0)));
    bfc.floats.push(FloatBox { rect: Rect::new(px(0.0), px(100.0), px(50.0), px(90.0)), is_left: true, box_index: 1 });
    bfc.floats.push(FloatBox { rect: Rect::new(px(250.0), px(20.0), px(50.0), px(300.0)), is_left: false, box_index: 2 });
    let floats = bfc.floats.clone();
    assert_eq!(calculate_clearance(&floats, Clear::Both, px(160.0)), px(160.0));
    assert_eq!(calculate_clearance(&floats, Clear::Left, px(160.0)), px(30.0));
    assert_eq!(calculate_clearance(&floats, Clear::NoClear, px(0.0)), px(0.0));
    let mut none = bfc.clone();
    none.clear_floats(Clear::NoClear);
    assert_eq!(none.floats.len(), 2);
    assert_eq!(none.current_y, px(160.0));
    bfc.clear_floats(Clear::Left);
    assert_eq!(bfc.current_y, px(190.0));
    assert!(bfc.floats.is_empty());

    let mut ifc = InlineFormattingContext::new(px(100.0), px(12.0));
    assert_eq!(ifc.total_height(), px(0.0));
    ifc.add_fragment(InlineFragment { box_index: 0, width: px(30.0), height: px(10.0), x: px(0.0), is_text: false, text: None });
    assert_eq!(ifc.current_line.width, px(30.0));
    assert!(ifc.has_room_for(px(70.0)));
    assert!(!ifc.has_room_for(px(70.5)));
}

#[test]
fn test_flex_axes() {
    let row = FlexContainer::default();
    let size = html2pdf::types::Size::new(px(300.0), px(200.0));
    let rect = Rect::new(px(1.0), px(2.0), px(3.0), px(4.0));
    assert_eq!(row.main_size(size), px(300.0));
    assert_eq!(row.cross_size(size), px(200.0));
    assert_eq!(row.main_pos(rect), px(1.0));
    assert_eq!(row.cross_pos(rect), px(2.0));
    let column = FlexContainer { direction: FlexDirection::Column, ..FlexContainer::default() };
    assert_eq!(column.main_size(size), px(200.0));
    assert_eq!(column.cross_size(size), px(300.0));
    assert_eq!(column.main_pos(rect), px(2.0));
    assert_eq!(column.cross_pos(rect), px(1.0));
    let reversed = FlexContainer { direction: FlexDirection::RowReverse, ..FlexContainer::default() };
    assert!(reversed.is_horizontal());
    assert!(reversed.is_reversed());
    let up = FlexContainer { direction: FlexDirection::ColumnReverse, ..FlexContainer::default() };
    assert!(!up.is_horizontal());
    assert!(up.is_reversed());
}

#[test]
fn test_text_metrics() {
    let metrics = TextMetrics::new(px(12.0));
    assert_eq!(metrics.font_size, px(12.0));
    assert!(metrics.line_height.gt(&metrics.font_size));
    assert_eq!(metrics.ascent, px(12.0 * 0.8));
    assert_eq!(metrics.descent, px(12.0 * 0.2));
    assert_eq!(metrics.line_height(), px(12.0 * 1.2));
    assert_eq!(metrics.space_width, px(3.0));
    assert_eq!(metrics.baseline_offset(), metrics.ascent);
}

#[test]
fn test_inline_lines_finish() {
    let mut ifc = InlineFormattingContext::new(px(100.0), px(12.0));
    ifc.finish_line();
    assert!(ifc.line_boxes.is_empty());
    let frag = |w: f32, h: f32| InlineFragment { box_index: 0, width: px(w), height: px(h), x: px(0.0), is_text: true, text: None };
    ifc.add_fragment(frag(40.0, 10.0));
    ifc.add_fragment(frag(30.0, 15.0));
    ifc.finish_line();
    assert_eq!(ifc.line_boxes.len(), 1);
    assert_eq!(ifc.line_boxes[0].height, px(15.0));
    assert_eq!(ifc.line_boxes[0].baseline, px(15.0 * 0.8));
    assert_eq!(ifc.line_boxes[0].width, px(70.0));
    assert_eq!(ifc.line_boxes[0].top, px(0.0));
    assert_eq!(ifc.vertical_offset, px(15.0));
    assert_eq!(ifc.current_x, px(0.0));
    ifc.add_fragment(frag(10.0, 5.0));
    let lines = ifc.finish();
    assert_eq!(lines.len(), 2);
    assert_eq!(lines[1].height, px(12.0));
    assert_eq!(lines[1].top, px(15.0));
}

#[test]
fn text_units_count_spaces_and_columns() {
    assert_eq!(html2pdf::layout::text::measure_units("ab  c"), (2, 3));
    assert_eq!(html2pdf::layout::text::measure_units("中文 x"), (1, 5));
    assert_eq!(html2pdf::layout::text::measure_units("\u{7}"), (0, 1));
    assert_eq!(html2pdf::layout::text::measure_units(""), (0, 0));
}
