//! The cascade: computed styles, the user-agent rules, and how the
//! declarations of matching rules resolve into the style of an element.

use vstd::prelude::*;
use crate::css::{CssValue, Selector, SelectorPart, PageSelector, Unit};
use crate::html::{Element, ElementQuery, element_matches, matches_query, attr_of};
use crate::strings::{chars_are, lower_chars, ascii_lower_seq, str_eq};
use crate::types::{Color, F32Bits, Length};
use crate::binary32::f32_quotient;
use crate::layout::box_model::BoxType;
use crate::layout::grid::{GridLine, GridAutoFlow, line_view, auto_line};
use crate::layout::table::{
    BorderCollapse, CaptionSide, EmptyCells, TableLayout, parse_border_collapse, parse_caption_side,
    parse_empty_cells, parse_table_layout, parse_border_spacing, border_collapse_of, caption_side_of,
    empty_cells_of, table_layout_of, border_spacing_of,
};
use crate::pdf::print_css::{
    BreakType, BreakInside, StringSetValue, parse_break_value, parse_break_inside_value, break_of,
    break_inside_of,
};
use crate::layout::style::{
    Display, Position, Float, Clear, BorderStyle, FontWeight,
    FontStyle, FontStretch, FontVariant, FontVariantCaps, LineHeight, TextAlign,
    TextDecoration, TextTransform, WhiteSpace, WordWrap, BackgroundSize, BackgroundPosition,
    PositionValue, BackgroundRepeat, ObjectFit, Visibility, Overflow, ListStyleType,
    ListStylePosition, ZIndex, PageBreak, PageBreakInside, Specificity, display_of,
    position_of, float_of, clear_of, length_of, box_sides_of, border_style_of,
    font_families_of, font_weight_of, font_style_of, font_stretch_of, font_variant_of, font_variant_caps_of,
    line_height_of, text_align_of, text_decoration_of, text_transform_of, white_space_of, word_wrap_of,
    background_size_of, background_position_of, background_repeat_of, number_of, visibility_of, overflow_of,
    object_fit_of, list_style_type_of, list_style_position_of, z_index_of, page_break_of, page_break_inside_of,
    integer_of, page_name_of, string_set_of, set_value_view, auto_flow_value_of, gaps_of,
    value_line, shorthand_lines, area_lines, specificity_of, box_type_of, parse_display,
    parse_position, parse_float, parse_clear, parse_length, parse_margin_or_padding, parse_border_style,
    parse_font_family, parse_font_weight, parse_font_style, parse_line_height, parse_text_align, parse_text_decoration,
    parse_text_transform, parse_white_space, parse_word_wrap, parse_background_size, parse_background_position, parse_background_repeat,
    parse_number, parse_visibility, parse_overflow, parse_object_fit, parse_list_style_type, parse_list_style_position,
    parse_z_index, parse_page_break, parse_page_break_inside, parse_integer, parse_page_name, parse_string_set,
    parse_grid_auto_flow_value, parse_gap, parse_grid_line, parse_grid_line_shorthand, parse_grid_area,
};

verus! {

/// The parts of a grid line: its number, area name and span.
pub type LineView = (i32, Option<Seq<char>>, Option<i32>);

/// The characters of an optional string.
pub open spec fn opt_view(o: Option<String>) -> Option<Seq<char>> {
    match o {
        Some(s) => Some(s@),
        None => None,
    }
}

/// Where an image sits in its box, each axis from 0 (left, top) to 1
/// (right, bottom).
#[derive(Debug, Clone, Copy, PartialEq, Eq, Structural)]
pub struct ObjectPosition {
    pub horizontal: F32Bits,
    pub vertical: F32Bits,
}

impl ObjectPosition {
    /// Centered on both axes.
    pub fn center() -> (r: Self)
        ensures
            r == (ObjectPosition { horizontal: F32Bits(0x3F00_0000), vertical: F32Bits(0x3F00_0000) }),
    {
        ObjectPosition { horizontal: F32Bits(0x3F00_0000), vertical: F32Bits(0x3F00_0000) }
    }
}

/// A declaration: a property name and its value.
#[derive(Debug, PartialEq)]
pub struct Declaration {
    pub name: String,
    pub value: CssValue,
}

impl Declaration {
    /// A declaration of `name` with `value`.
    pub fn new(name: &str, value: CssValue) -> (r: Self)
        ensures
            r.name@ == name@,
            r.value == value,
    {
        Declaration { name: String::from_str(name), value }
    }
}

/// A style rule: a selector and the declarations it applies.
#[derive(Debug, PartialEq)]
pub struct StyleRule {
    pub selector: Selector,
    pub declarations: Vec<Declaration>,
}

/// A rule of a stylesheet.
#[derive(Debug, PartialEq)]
pub enum Rule {
    /// A style rule
    Style(StyleRule),
    /// An `@page` rule
    Page { selectors: Vec<PageSelector>, declarations: Vec<Declaration> },
}

/// A stylesheet: its rules in order.
#[derive(Debug, PartialEq)]
pub struct Stylesheet {
    pub rules: Vec<Rule>,
}

/// The computed style of an element, every property resolved.
#[derive(Debug, Clone, PartialEq)]
pub struct ComputedStyle {
    pub display: Display,
    pub position: Position,
    pub float: Float,
    pub clear: Clear,
    pub width: Length,
    pub height: Length,
    pub min_width: Length,
    pub min_height: Length,
    pub max_width: Length,
    pub max_height: Length,
    pub margin_top: Length,
    pub margin_right: Length,
    pub margin_bottom: Length,
    pub margin_left: Length,
    pub padding_top: Length,
    pub padding_right: Length,
    pub padding_bottom: Length,
    pub padding_left: Length,
    pub border_top_width: Length,
    pub border_right_width: Length,
    pub border_bottom_width: Length,
    pub border_left_width: Length,
    pub border_top_color: Color,
    pub border_right_color: Color,
    pub border_bottom_color: Color,
    pub border_left_color: Color,
    pub border_top_style: BorderStyle,
    pub border_right_style: BorderStyle,
    pub border_bottom_style: BorderStyle,
    pub border_left_style: BorderStyle,
    pub font_family: Vec<String>,
    pub font_size: Length,
    pub font_weight: FontWeight,
    pub font_style: FontStyle,
    pub font_stretch: FontStretch,
    pub font_variant: FontVariant,
    pub font_variant_caps: FontVariantCaps,
    pub line_height: LineHeight,
    pub color: Color,
    pub text_align: TextAlign,
    pub text_decoration: TextDecoration,
    pub text_transform: TextTransform,
    pub white_space: WhiteSpace,
    pub word_wrap: WordWrap,
    pub letter_spacing: Length,
    pub word_spacing: Length,
    pub text_indent: Length,
    pub background_color: Color,
    pub background_image: Option<String>,
    pub background_size: BackgroundSize,
    pub background_position: BackgroundPosition,
    pub background_repeat: BackgroundRepeat,
    pub opacity: F32Bits,
    pub visibility: Visibility,
    pub overflow: Overflow,
    pub object_fit: ObjectFit,
    pub object_position: ObjectPosition,
    pub list_style_type: ListStyleType,
    pub list_style_image: Option<String>,
    pub list_style_position: ListStylePosition,
    pub top: Length,
    pub right: Length,
    pub bottom: Length,
    pub left: Length,
    pub z_index: ZIndex,
    pub page_break_before: PageBreak,
    pub page_break_after: PageBreak,
    pub page_break_inside: PageBreakInside,
    pub break_before: BreakType,
    pub break_after: BreakType,
    pub break_inside: BreakInside,
    pub orphans: u32,
    pub widows: u32,
    pub page: Option<String>,
    pub string_set: Vec<(String, StringSetValue)>,
    pub grid_template_columns: String,
    pub grid_template_rows: String,
    pub grid_template_areas: String,
    pub grid_auto_columns: String,
    pub grid_auto_rows: String,
    pub grid_auto_flow: GridAutoFlow,
    pub column_gap: Length,
    pub row_gap: Length,
    pub grid_column_start: GridLine,
    pub grid_column_end: GridLine,
    pub grid_row_start: GridLine,
    pub grid_row_end: GridLine,
    pub border_collapse: BorderCollapse,
    pub border_spacing_h: Length,
    pub border_spacing_v: Length,
    pub caption_side: CaptionSide,
    pub empty_cells: EmptyCells,
    pub table_layout: TableLayout,
}

/// A computed style as values: text as characters, grid lines as their parts.
pub struct StyleView {
    pub display: Display,
    pub position: Position,
    pub float: Float,
    pub clear: Clear,
    pub width: Length,
    pub height: Length,
    pub min_width: Length,
    pub min_height: Length,
    pub max_width: Length,
    pub max_height: Length,
    pub margin_top: Length,
    pub margin_right: Length,
    pub margin_bottom: Length,
    pub margin_left: Length,
    pub padding_top: Length,
    pub padding_right: Length,
    pub padding_bottom: Length,
    pub padding_left: Length,
    pub border_top_width: Length,
    pub border_right_width: Length,
    pub border_bottom_width: Length,
    pub border_left_width: Length,
    pub border_top_color: Color,
    pub border_right_color: Color,
    pub border_bottom_color: Color,
    pub border_left_color: Color,
    pub border_top_style: BorderStyle,
    pub border_right_style: BorderStyle,
    pub border_bottom_style: BorderStyle,
    pub border_left_style: BorderStyle,
    pub font_family: Seq<Seq<char>>,
    pub font_size: Length,
    pub font_weight: FontWeight,
    pub font_style: FontStyle,
    pub font_stretch: FontStretch,
    pub font_variant: FontVariant,
    pub font_variant_caps: FontVariantCaps,
    pub line_height: LineHeight,
    pub color: Color,
    pub text_align: TextAlign,
    pub text_decoration: TextDecoration,
    pub text_transform: TextTransform,
    pub white_space: WhiteSpace,
    pub word_wrap: WordWrap,
    pub letter_spacing: Length,
    pub word_spacing: Length,
    pub text_indent: Length,
    pub background_color: Color,
    pub background_image: Option<Seq<char>>,
    pub background_size: BackgroundSize,
    pub background_position: BackgroundPosition,
    pub background_repeat: BackgroundRepeat,
    pub opacity: F32Bits,
    pub visibility: Visibility,
    pub overflow: Overflow,
    pub object_fit: ObjectFit,
    pub object_position: ObjectPosition,
    pub list_style_type: ListStyleType,
    pub list_style_image: Option<Seq<char>>,
    pub list_style_position: ListStylePosition,
    pub top: Length,
    pub right: Length,
    pub bottom: Length,
    pub left: Length,
    pub z_index: ZIndex,
    pub page_break_before: PageBreak,
    pub page_break_after: PageBreak,
    pub page_break_inside: PageBreakInside,
    pub break_before: BreakType,
    pub break_after: BreakType,
    pub break_inside: BreakInside,
    pub orphans: u32,
    pub widows: u32,
    pub page: Option<Seq<char>>,
    pub string_set: Seq<(Seq<char>, Option<(bool, Seq<char>)>)>,
    pub grid_template_columns: Seq<char>,
    pub grid_template_rows: Seq<char>,
    pub grid_template_areas: Seq<char>,
    pub grid_auto_columns: Seq<char>,
    pub grid_auto_rows: Seq<char>,
    pub grid_auto_flow: GridAutoFlow,
    pub column_gap: Length,
    pub row_gap: Length,
    pub grid_column_start: LineView,
    pub grid_column_end: LineView,
    pub grid_row_start: LineView,
    pub grid_row_end: LineView,
    pub border_collapse: BorderCollapse,
    pub border_spacing_h: Length,
    pub border_spacing_v: Length,
    pub caption_side: CaptionSide,
    pub empty_cells: EmptyCells,
    pub table_layout: TableLayout,
}

/// The values of a computed style.
#[verifier::opaque]
pub open spec fn style_view(st: ComputedStyle) -> StyleView {
        StyleView {
            display: st.display,
            position: st.position,
            float: st.float,
            clear: st.clear,
            width: st.width,
            height: st.height,
            min_width: st.min_width,
            min_height: st.min_height,
            max_width: st.max_width,
            max_height: st.max_height,
            margin_top: st.margin_top,
            margin_right: st.margin_right,
            margin_bottom: st.margin_bottom,
            margin_left: st.margin_left,
            padding_top: st.padding_top,
            padding_right: st.padding_right,
            padding_bottom: st.padding_bottom,
            padding_left: st.padding_left,
            border_top_width: st.border_top_width,
            border_right_width: st.border_right_width,
            border_bottom_width: st.border_bottom_width,
            border_left_width: st.border_left_width,
            border_top_color: st.border_top_color,
            border_right_color: st.border_right_color,
            border_bottom_color: st.border_bottom_color,
            border_left_color: st.border_left_color,
            border_top_style: st.border_top_style,
            border_right_style: st.border_right_style,
            border_bottom_style: st.border_bottom_style,
            border_left_style: st.border_left_style,
            font_family: st.font_family@.map_values(|s: String| s@),
            font_size: st.font_size,
            font_weight: st.font_weight,
            font_style: st.font_style,
            font_stretch: st.font_stretch,
            font_variant: st.font_variant,
            font_variant_caps: st.font_variant_caps,
            line_height: st.line_height,
            color: st.color,
            text_align: st.text_align,
            text_decoration: st.text_decoration,
            text_transform: st.text_transform,
            white_space: st.white_space,
            word_wrap: st.word_wrap,
            letter_spacing: st.letter_spacing,
            word_spacing: st.word_spacing,
            text_indent: st.text_indent,
            background_color: st.background_color,
            background_image: opt_view(st.background_image),
            background_size: st.background_size,
            background_position: st.background_position,
            background_repeat: st.background_repeat,
            opacity: st.opacity,
            visibility: st.visibility,
            overflow: st.overflow,
            object_fit: st.object_fit,
            object_position: st.object_position,
            list_style_type: st.list_style_type,
            list_style_image: opt_view(st.list_style_image),
            list_style_position: st.list_style_position,
            top: st.top,
            right: st.right,
            bottom: st.bottom,
            left: st.left,
            z_index: st.z_index,
            page_break_before: st.page_break_before,
            page_break_after: st.page_break_after,
            page_break_inside: st.page_break_inside,
            break_before: st.break_before,
            break_after: st.break_after,
            break_inside: st.break_inside,
            orphans: st.orphans,
            widows: st.widows,
            page: opt_view(st.page),
            string_set: st.string_set@.map_values(|p: (String, StringSetValue)| (p.0@, set_value_view(p.1))),
            grid_template_columns: st.grid_template_columns@,
            grid_template_rows: st.grid_template_rows@,
            grid_template_areas: st.grid_template_areas@,
            grid_auto_columns: st.grid_auto_columns@,
            grid_auto_rows: st.grid_auto_rows@,
            grid_auto_flow: st.grid_auto_flow,
            column_gap: st.column_gap,
            row_gap: st.row_gap,
            grid_column_start: line_view(st.grid_column_start),
            grid_column_end: line_view(st.grid_column_end),
            grid_row_start: line_view(st.grid_row_start),
            grid_row_end: line_view(st.grid_row_end),
            border_collapse: st.border_collapse,
            border_spacing_h: st.border_spacing_h,
            border_spacing_v: st.border_spacing_v,
            caption_side: st.caption_side,
            empty_cells: st.empty_cells,
            table_layout: st.table_layout,
        }
}

impl View for ComputedStyle {
    type V = StyleView;

    open spec fn view(&self) -> StyleView {
        style_view(*self)
    }
}

/// The initial value of every property.
pub open spec fn initial_style() -> StyleView {
    StyleView {
        display: Display::Inline,
        position: Position::Static,
        float: Float::NoFloat,
        clear: Clear::NoClear,
        width: Length::Auto,
        height: Length::Auto,
        min_width: Length::Px(F32Bits(0)),
        min_height: Length::Px(F32Bits(0)),
        max_width: Length::Auto,
        max_height: Length::Auto,
        margin_top: Length::Px(F32Bits(0)),
        margin_right: Length::Px(F32Bits(0)),
        margin_bottom: Length::Px(F32Bits(0)),
        margin_left: Length::Px(F32Bits(0)),
        padding_top: Length::Px(F32Bits(0)),
        padding_right: Length::Px(F32Bits(0)),
        padding_bottom: Length::Px(F32Bits(0)),
        padding_left: Length::Px(F32Bits(0)),
        border_top_width: Length::Px(F32Bits(0)),
        border_right_width: Length::Px(F32Bits(0)),
        border_bottom_width: Length::Px(F32Bits(0)),
        border_left_width: Length::Px(F32Bits(0)),
        border_top_color: Color { r: 0, g: 0, b: 0, a: 255 },
        border_right_color: Color { r: 0, g: 0, b: 0, a: 255 },
        border_bottom_color: Color { r: 0, g: 0, b: 0, a: 255 },
        border_left_color: Color { r: 0, g: 0, b: 0, a: 255 },
        border_top_style: BorderStyle::NoBorder,
        border_right_style: BorderStyle::NoBorder,
        border_bottom_style: BorderStyle::NoBorder,
        border_left_style: BorderStyle::NoBorder,
        font_family: seq!["serif"@],
        font_size: Length::Px(F32Bits(0x4180_0000)),
        font_weight: FontWeight::Normal,
        font_style: FontStyle::Normal,
        font_stretch: FontStretch::Normal,
        font_variant: FontVariant::Normal,
        font_variant_caps: FontVariantCaps::Normal,
        line_height: LineHeight::Normal,
        color: Color { r: 0, g: 0, b: 0, a: 255 },
        text_align: TextAlign::Left,
        text_decoration: TextDecoration::NoDecoration,
        text_transform: TextTransform::NoTransform,
        white_space: WhiteSpace::Normal,
        word_wrap: WordWrap::Normal,
        letter_spacing: Length::Px(F32Bits(0)),
        word_spacing: Length::Px(F32Bits(0)),
        text_indent: Length::Px(F32Bits(0)),
        background_color: Color { r: 0, g: 0, b: 0, a: 0 },
        background_image: None,
        background_size: BackgroundSize::Auto,
        background_position: BackgroundPosition { horizontal: PositionValue::Center, vertical: PositionValue::Center },
        background_repeat: BackgroundRepeat::Repeat,
        opacity: F32Bits(0x3F80_0000),
        visibility: Visibility::Visible,
        overflow: Overflow::Visible,
        object_fit: ObjectFit::Cover,
        object_position: ObjectPosition { horizontal: F32Bits(0x3F00_0000), vertical: F32Bits(0x3F00_0000) },
        list_style_type: ListStyleType::Disc,
        list_style_image: None,
        list_style_position: ListStylePosition::Outside,
        top: Length::Auto,
        right: Length::Auto,
        bottom: Length::Auto,
        left: Length::Auto,
        z_index: ZIndex::Auto,
        page_break_before: PageBreak::Auto,
        page_break_after: PageBreak::Auto,
        page_break_inside: PageBreakInside::Auto,
        break_before: BreakType::Auto,
        break_after: BreakType::Auto,
        break_inside: BreakInside::Auto,
        orphans: 2,
        widows: 2,
        page: None,
        string_set: Seq::empty(),
        grid_template_columns: Seq::empty(),
        grid_template_rows: Seq::empty(),
        grid_template_areas: Seq::empty(),
        grid_auto_columns: Seq::empty(),
        grid_auto_rows: Seq::empty(),
        grid_auto_flow: GridAutoFlow::Row,
        column_gap: Length::Px(F32Bits(0)),
        row_gap: Length::Px(F32Bits(0)),
        grid_column_start: auto_line(),
        grid_column_end: auto_line(),
        grid_row_start: auto_line(),
        grid_row_end: auto_line(),
        border_collapse: BorderCollapse::Separate,
        border_spacing_h: Length::Px(F32Bits(0x4000_0000)),
        border_spacing_v: Length::Px(F32Bits(0x4000_0000)),
        caption_side: CaptionSide::Top,
        empty_cells: EmptyCells::Show,
        table_layout: TableLayout::Auto,
    }
}

/// A computed style holding the initial value of every property.
pub fn initial_computed_style() -> (r: ComputedStyle)
    ensures
        r@ == initial_style(),
{
    let r = ComputedStyle {
        display: Display::Inline,
        position: Position::Static,
        float: Float::NoFloat,
        clear: Clear::NoClear,
        width: Length::Auto,
        height: Length::Auto,
        min_width: Length::Px(F32Bits(0)),
        min_height: Length::Px(F32Bits(0)),
        max_width: Length::Auto,
        max_height: Length::Auto,
        margin_top: Length::Px(F32Bits(0)),
        margin_right: Length::Px(F32Bits(0)),
        margin_bottom: Length::Px(F32Bits(0)),
        margin_left: Length::Px(F32Bits(0)),
        padding_top: Length::Px(F32Bits(0)),
        padding_right: Length::Px(F32Bits(0)),
        padding_bottom: Length::Px(F32Bits(0)),
        padding_left: Length::Px(F32Bits(0)),
        border_top_width: Length::Px(F32Bits(0)),
        border_right_width: Length::Px(F32Bits(0)),
        border_bottom_width: Length::Px(F32Bits(0)),
        border_left_width: Length::Px(F32Bits(0)),
        border_top_color: Color { r: 0, g: 0, b: 0, a: 255 },
        border_right_color: Color { r: 0, g: 0, b: 0, a: 255 },
        border_bottom_color: Color { r: 0, g: 0, b: 0, a: 255 },
        border_left_color: Color { r: 0, g: 0, b: 0, a: 255 },
        border_top_style: BorderStyle::NoBorder,
        border_right_style: BorderStyle::NoBorder,
        border_bottom_style: BorderStyle::NoBorder,
        border_left_style: BorderStyle::NoBorder,
        font_family: vec![String::from_str("serif")],
        font_size: Length::Px(F32Bits(0x4180_0000)),
        font_weight: FontWeight::Normal,
        font_style: FontStyle::Normal,
        font_stretch: FontStretch::Normal,
        font_variant: FontVariant::Normal,
        font_variant_caps: FontVariantCaps::Normal,
        line_height: LineHeight::Normal,
        color: Color { r: 0, g: 0, b: 0, a: 255 },
        text_align: TextAlign::Left,
        text_decoration: TextDecoration::NoDecoration,
        text_transform: TextTransform::NoTransform,
        white_space: WhiteSpace::Normal,
        word_wrap: WordWrap::Normal,
        letter_spacing: Length::Px(F32Bits(0)),
        word_spacing: Length::Px(F32Bits(0)),
        text_indent: Length::Px(F32Bits(0)),
        background_color: Color { r: 0, g: 0, b: 0, a: 0 },
        background_image: None,
        background_size: BackgroundSize::Auto,
        background_position: BackgroundPosition { horizontal: PositionValue::Center, vertical: PositionValue::Center },
        background_repeat: BackgroundRepeat::Repeat,
        opacity: F32Bits(0x3F80_0000),
        visibility: Visibility::Visible,
        overflow: Overflow::Visible,
        object_fit: ObjectFit::Cover,
        object_position: ObjectPosition { horizontal: F32Bits(0x3F00_0000), vertical: F32Bits(0x3F00_0000) },
        list_style_type: ListStyleType::Disc,
        list_style_image: None,
        list_style_position: ListStylePosition::Outside,
        top: Length::Auto,
        right: Length::Auto,
        bottom: Length::Auto,
        left: Length::Auto,
        z_index: ZIndex::Auto,
        page_break_before: PageBreak::Auto,
        page_break_after: PageBreak::Auto,
        page_break_inside: PageBreakInside::Auto,
        break_before: BreakType::Auto,
        break_after: BreakType::Auto,
        break_inside: BreakInside::Auto,
        orphans: 2,
        widows: 2,
        page: None,
        string_set: Vec::new(),
        grid_template_columns: String::new(),
        grid_template_rows: String::new(),
        grid_template_areas: String::new(),
        grid_auto_columns: String::new(),
        grid_auto_rows: String::new(),
        grid_auto_flow: GridAutoFlow::Row,
        column_gap: Length::Px(F32Bits(0)),
        row_gap: Length::Px(F32Bits(0)),
        grid_column_start: GridLine::auto(),
        grid_column_end: GridLine::auto(),
        grid_row_start: GridLine::auto(),
        grid_row_end: GridLine::auto(),
        border_collapse: BorderCollapse::Separate,
        border_spacing_h: Length::Px(F32Bits(0x4000_0000)),
        border_spacing_v: Length::Px(F32Bits(0x4000_0000)),
        caption_side: CaptionSide::Top,
        empty_cells: EmptyCells::Show,
        table_layout: TableLayout::Auto,
    };
    proof {
        reveal(style_view);
        assert(r.font_family@.map_values(|s: String| s@) =~= seq!["serif"@]);
        assert(r.string_set@.map_values(|p: (String, StringSetValue)| (p.0@, set_value_view(p.1))) =~= Seq::empty());
    }
    r
}

/// `s` with the inherited properties taken from `parent`.
pub open spec fn inherited(s: StyleView, parent: StyleView) -> StyleView {
    StyleView {
        color: parent.color,
        font_family: parent.font_family,
        font_size: parent.font_size,
        font_weight: parent.font_weight,
        font_style: parent.font_style,
        line_height: parent.line_height,
        text_align: parent.text_align,
        text_decoration: parent.text_decoration,
        text_transform: parent.text_transform,
        white_space: parent.white_space,
        word_wrap: parent.word_wrap,
        letter_spacing: parent.letter_spacing,
        word_spacing: parent.word_spacing,
        visibility: parent.visibility,
        orphans: parent.orphans,
        widows: parent.widows,
        list_style_type: parent.list_style_type,
        list_style_image: parent.list_style_image,
        list_style_position: parent.list_style_position,
        ..s
    }
}

/// The channel a color component gives: a number saturated into 0..=255,
/// or a percentage times 2.55 saturated the same way; 0 for anything else.
pub open spec fn component_of(v: CssValue) -> u8 {
    match v {
        CssValue::Number(n) => u8_of(n.0),
        CssValue::Percentage(p) => u8_of(crate::binary32::f32_product(p.0, 0x4023_3333)),
        _ => 0,
    }
}

/// A single-precision value converted to a byte as `as u8` does: truncated
/// toward zero, saturated, NaN as 0.
pub open spec fn u8_of(b: u32) -> u8 {
    if crate::types::f32_is_nan(b) { 0 } else { crate::types::saturate(crate::types::f32_trunc(b), 0, 255) as u8 }
}

/// The color a value names: `#rrggbb`, a basic keyword, or `rgb()` /
/// `rgba()` of at least three / four components; black otherwise.
pub open spec fn color_of(v: CssValue) -> Color {
    match v {
        CssValue::HexColor(h) => Color { r: ((h / 0x1_0000) % 0x100) as u8, g: ((h / 0x100) % 0x100) as u8, b: (h % 0x100) as u8, a: 255 },
        CssValue::Ident(s) => if s@ == "white"@ {
            Color { r: 255, g: 255, b: 255, a: 255 }
        } else if s@ == "red"@ {
            Color { r: 255, g: 0, b: 0, a: 255 }
        } else if s@ == "green"@ {
            Color { r: 0, g: 128, b: 0, a: 255 }
        } else if s@ == "blue"@ {
            Color { r: 0, g: 0, b: 255, a: 255 }
        } else if s@ == "transparent"@ {
            Color { r: 0, g: 0, b: 0, a: 0 }
        } else {
            Color { r: 0, g: 0, b: 0, a: 255 }
        },
        CssValue::Function(f) => if f.name@ == "rgb"@ && f.arguments@.len() >= 3 {
            Color { r: component_of(f.arguments@[0]), g: component_of(f.arguments@[1]), b: component_of(f.arguments@[2]), a: 255 }
        } else if f.name@ == "rgba"@ && f.arguments@.len() >= 4 {
            Color { r: component_of(f.arguments@[0]), g: component_of(f.arguments@[1]), b: component_of(f.arguments@[2]), a: component_of(f.arguments@[3]) }
        } else {
            Color { r: 0, g: 0, b: 0, a: 255 }
        },
        _ => Color { r: 0, g: 0, b: 0, a: 255 },
    }
}

fn parse_color_component(value: &CssValue) -> (r: u8)
    ensures
        r == component_of(*value),
{
    match value {
        CssValue::Number(n) => {
            let w = n.to_u16();
            if w > 255 { 255 } else { w as u8 }
        },
        CssValue::Percentage(p) => {
            let w = p.product(&F32Bits(0x4023_3333)).to_u16();
            if w > 255 { 255 } else { w as u8 }
        },
        _ => 0,
    }
}

/// Parse a color value.
pub fn parse_color(value: &CssValue) -> (r: Color)
    ensures
        r == color_of(*value),
{
    match value {
        CssValue::HexColor(h) => {
            let h = *h;
            assert((h >> 16) & 0xFF == (h / 0x1_0000) % 0x100 && (h >> 8) & 0xFF == (h / 0x100) % 0x100
                && h & 0xFF == h % 0x100) by (bit_vector);
            Color::new_rgba(((h >> 16) & 0xFF) as u8, ((h >> 8) & 0xFF) as u8, (h & 0xFF) as u8, 255)
        },
        CssValue::Ident(s) => {
            let s = s.as_str();
            if str_eq(s, "white") {
                Color::new_rgba(255, 255, 255, 255)
            } else if str_eq(s, "red") {
                Color::new_rgba(255, 0, 0, 255)
            } else if str_eq(s, "green") {
                Color::new_rgba(0, 128, 0, 255)
            } else if str_eq(s, "blue") {
                Color::new_rgba(0, 0, 255, 255)
            } else if str_eq(s, "transparent") {
                Color::new_rgba(0, 0, 0, 0)
            } else {
                Color::new_rgba(0, 0, 0, 255)
            }
        },
        CssValue::Function(f) => {
            if str_eq(f.name.as_str(), "rgb") && f.arguments.len() >= 3 {
                Color::new_rgba(parse_color_component(&f.arguments[0]), parse_color_component(&f.arguments[1]),
                    parse_color_component(&f.arguments[2]), 255)
            } else if str_eq(f.name.as_str(), "rgba") && f.arguments.len() >= 4 {
                Color::new_rgba(parse_color_component(&f.arguments[0]), parse_color_component(&f.arguments[1]),
                    parse_color_component(&f.arguments[2]), parse_color_component(&f.arguments[3]))
            } else {
                Color::new_rgba(0, 0, 0, 255)
            }
        },
        _ => Color::new_rgba(0, 0, 0, 255),
    }
}

/// Border widths, read as the margin shorthand reads its lengths.
pub fn parse_border_widths(value: &CssValue) -> (r: (Length, Length, Length, Length))
    ensures
        r == box_sides_of(*value),
{
    parse_margin_or_padding(value)
}

/// Where a keyword or percentage places an image along one axis.
pub open spec fn position_fraction_of(v: CssValue) -> F32Bits {
    match v {
        CssValue::Ident(s) => if s@ == "left"@ || s@ == "top"@ {
            F32Bits(0)
        } else if s@ == "right"@ || s@ == "bottom"@ {
            F32Bits(0x3F80_0000)
        } else {
            F32Bits(0x3F00_0000)
        },
        CssValue::Percentage(p) => F32Bits(f32_quotient(p.0, 0x42C8_0000)),
        _ => F32Bits(0x3F00_0000),
    }
}

fn parse_position_value(value: &CssValue) -> (r: F32Bits)
    ensures
        r == position_fraction_of(*value),
{
    match value {
        CssValue::Ident(s) => {
            let s = s.as_str();
            if str_eq(s, "left") || str_eq(s, "top") {
                F32Bits(0)
            } else if str_eq(s, "right") || str_eq(s, "bottom") {
                F32Bits(0x3F80_0000)
            } else {
                F32Bits(0x3F00_0000)
            }
        },
        CssValue::Percentage(p) => p.quotient(&F32Bits(0x42C8_0000)),
        _ => F32Bits(0x3F00_0000),
    }
}

/// The `object-position` a value gives: a keyword puts the image at a
/// corner or the center, two values give the two axes; centered otherwise.
pub open spec fn object_position_of(v: CssValue) -> ObjectPosition {
    match v {
        CssValue::Ident(s) => if s@ == "top"@ || s@ == "left"@ {
            ObjectPosition { horizontal: F32Bits(0), vertical: F32Bits(0) }
        } else if s@ == "bottom"@ {
            ObjectPosition { horizontal: F32Bits(0), vertical: F32Bits(0x3F80_0000) }
        } else if s@ == "right"@ {
            ObjectPosition { horizontal: F32Bits(0x3F80_0000), vertical: F32Bits(0) }
        } else {
            ObjectPosition { horizontal: F32Bits(0x3F00_0000), vertical: F32Bits(0x3F00_0000) }
        },
        CssValue::List(vs) => if vs@.len() >= 2 {
            ObjectPosition { horizontal: position_fraction_of(vs@[0]), vertical: position_fraction_of(vs@[1]) }
        } else {
            ObjectPosition { horizontal: F32Bits(0x3F00_0000), vertical: F32Bits(0x3F00_0000) }
        },
        _ => ObjectPosition { horizontal: F32Bits(0x3F00_0000), vertical: F32Bits(0x3F00_0000) },
    }
}

/// Parse `object-position`.
pub fn parse_object_position(value: &CssValue) -> (r: ObjectPosition)
    ensures
        r == object_position_of(*value),
{
    match value {
        CssValue::Ident(s) => {
            let s = s.as_str();
            if str_eq(s, "top") || str_eq(s, "left") {
                ObjectPosition { horizontal: F32Bits(0), vertical: F32Bits(0) }
            } else if str_eq(s, "bottom") {
                ObjectPosition { horizontal: F32Bits(0), vertical: F32Bits(0x3F80_0000) }
            } else if str_eq(s, "right") {
                ObjectPosition { horizontal: F32Bits(0x3F80_0000), vertical: F32Bits(0) }
            } else {
                ObjectPosition::center()
            }
        },
        CssValue::List(vs) => {
            if vs.len() >= 2 {
                ObjectPosition { horizontal: parse_position_value(&vs[0]), vertical: parse_position_value(&vs[1]) }
            } else {
                ObjectPosition::center()
            }
        },
        _ => ObjectPosition::center(),
    }
}

/// `s` without the leading and trailing copies of `c`.
pub open spec fn trim_char(s: Seq<char>, c: char) -> Seq<char>
    decreases s.len(),
{
    if s.len() > 0 && s[0] == c {
        trim_char(s.drop_first(), c)
    } else if s.len() > 0 && s.last() == c {
        trim_char(s.drop_last(), c)
    } else {
        s
    }
}

/// `s` with surrounding double quotes, then single quotes, taken off.
pub open spec fn unquoted(s: Seq<char>) -> Seq<char> {
    trim_char(trim_char(s, '"'), '\'')
}

fn trim_char_exec(s: &Vec<char>, c: char) -> (r: Vec<char>)
    ensures
        r@ == trim_char(s@, c),
{
    let mut lo: usize = 0;
    let mut hi: usize = s.len();
    assert(s@.subrange(0, s@.len() as int) =~= s@);
    while lo < hi && s[lo] == c
        invariant
            lo <= hi <= s@.len(),
            hi == s@.len(),
            trim_char(s@.subrange(lo as int, hi as int), c) == trim_char(s@, c),
        decreases hi - lo,
    {
        assert(s@.subrange(lo as int, hi as int).drop_first() =~= s@.subrange(lo + 1, hi as int));
        lo = lo + 1;
    }
    while lo < hi && s[hi - 1] == c
        invariant
            lo <= hi <= s@.len(),
            trim_char(s@.subrange(lo as int, hi as int), c) == trim_char(s@, c),
            lo == hi || s@[lo as int] != c,
        decreases hi - lo,
    {
        assert(s@.subrange(lo as int, hi as int).drop_last() =~= s@.subrange(lo as int, hi - 1));
        hi = hi - 1;
    }
    let mut r: Vec<char> = Vec::new();
    let mut i: usize = lo;
    while i < hi
        invariant
            lo <= i <= hi <= s@.len(),
            r@ =~= s@.subrange(lo as int, i as int),
        decreases hi - i,
    {
        r.push(s[i]);
        i = i + 1;
    }
    r
}

/// The address of a `url(...)` value: its first argument's text without
/// surrounding quotes. `none` and every other value give no image.
pub open spec fn url_of(v: CssValue) -> Option<Seq<char>> {
    match v {
        CssValue::Function(f) => if f.name@ == "url"@ && f.arguments@.len() > 0 {
            match f.arguments@[0] {
                CssValue::String(s) => Some(unquoted(s@)),
                CssValue::Ident(s) => Some(unquoted(s@)),
                CssValue::Literal(s) => Some(unquoted(s@)),
                _ => None,
            }
        } else {
            None
        },
        _ => None,
    }
}

fn parse_url(value: &CssValue) -> (r: Option<String>)
    ensures
        opt_view(r) == url_of(*value),
{
    match value {
        CssValue::Function(f) => {
            if str_eq(f.name.as_str(), "url") && f.arguments.len() > 0 {
                let text = match &f.arguments[0] {
                    CssValue::String(s) => Some(s),
                    CssValue::Ident(s) => Some(s),
                    CssValue::Literal(s) => Some(s),
                    _ => None,
                };
                match text {
                    Some(s) => {
                        let cs = crate::strings::chars_of(s.as_str());
                        let a = trim_char_exec(&cs, '"');
                        let b = trim_char_exec(&a, '\'');
                        Some(crate::strings::string_of(&b))
                    },
                    None => None,
                }
            } else {
                None
            }
        },
        _ => None,
    }
}

/// Parse `background-image`.
pub fn parse_background_image(value: &CssValue) -> (r: Option<String>)
    ensures
        opt_view(r) == url_of(*value),
{
    parse_url(value)
}

/// Parse `list-style-image`.
pub fn parse_list_style_image(value: &CssValue) -> (r: Option<String>)
    ensures
        opt_view(r) == url_of(*value),
{
    parse_url(value)
}

/// The text kept for a grid track list: a quoted string as it is; the
/// empty text for `none` and for every other value.
pub open spec fn template_text(v: CssValue) -> Seq<char> {
    match v {
        CssValue::String(s) => s@,
        _ => Seq::empty(),
    }
}

/// Parse `grid-template-columns` / `grid-template-rows`.
pub fn parse_grid_template(value: &CssValue) -> (r: String)
    ensures
        r@ == template_text(*value),
{
    match value {
        CssValue::String(s) => s.clone(),
        _ => String::new(),
    }
}

/// The text kept for `grid-template-areas`: a string or a keyword other
/// than `none` as it is; the empty text otherwise.
pub open spec fn areas_text(v: CssValue) -> Seq<char> {
    match v {
        CssValue::String(s) => s@,
        CssValue::Ident(s) => if s@ == "none"@ { Seq::empty() } else { s@ },
        CssValue::Literal(s) => s@,
        _ => Seq::empty(),
    }
}

/// Parse `grid-template-areas`.
pub fn parse_grid_template_areas(value: &CssValue) -> (r: String)
    ensures
        r@ == areas_text(*value),
{
    match value {
        CssValue::String(s) => s.clone(),
        CssValue::Ident(s) => if str_eq(s.as_str(), "none") { String::new() } else { s.clone() },
        CssValue::Literal(s) => s.clone(),
        _ => String::new(),
    }
}

/// The text kept for an implicit track size: a keyword or literal as it
/// is; the empty text otherwise.
pub open spec fn auto_size_text(v: CssValue) -> Seq<char> {
    match v {
        CssValue::Ident(s) => s@,
        CssValue::Literal(s) => s@,
        _ => Seq::empty(),
    }
}

/// Parse `grid-auto-columns` / `grid-auto-rows`.
pub fn parse_grid_auto_size(value: &CssValue) -> (r: String)
    ensures
        r@ == auto_size_text(*value),
{
    match value {
        CssValue::Ident(s) => s.clone(),
        CssValue::Literal(s) => s.clone(),
        _ => String::new(),
    }
}


/// Whether property name `n` is `lit`.
pub open spec fn is_prop(n: Seq<char>, lit: Seq<char>) -> bool {
    n == lit
}

fn prop_is(n: &Vec<char>, lit: &str) -> (r: bool)
    ensures
        r == is_prop(n@, lit@),
{
    chars_are(n, lit)
}

/// The style after a declaration of one of the layout and box model properties; `None`
/// for another name.
pub open spec fn declared_box(s: StyleView, n: Seq<char>, v: CssValue) -> Option<StyleView> {
    if is_prop(n, "display"@) {
        Some(StyleView { display: display_of(v), ..s })
    } else if is_prop(n, "position"@) {
        Some(StyleView { position: position_of(v), ..s })
    } else if is_prop(n, "float"@) {
        Some(StyleView { float: float_of(v), ..s })
    } else if is_prop(n, "clear"@) {
        Some(StyleView { clear: clear_of(v), ..s })
    } else if is_prop(n, "width"@) {
        Some(StyleView { width: length_of(v), ..s })
    } else if is_prop(n, "height"@) {
        Some(StyleView { height: length_of(v), ..s })
    } else if is_prop(n, "min-width"@) {
        Some(StyleView { min_width: length_of(v), ..s })
    } else if is_prop(n, "min-height"@) {
        Some(StyleView { min_height: length_of(v), ..s })
    } else if is_prop(n, "max-width"@) {
        Some(StyleView { max_width: length_of(v), ..s })
    } else if is_prop(n, "max-height"@) {
        Some(StyleView { max_height: length_of(v), ..s })
    } else if is_prop(n, "margin"@) {
        Some(StyleView { margin_top: box_sides_of(v).0, margin_right: box_sides_of(v).1, margin_bottom: box_sides_of(v).2, margin_left: box_sides_of(v).3, ..s })
    } else if is_prop(n, "margin-top"@) {
        Some(StyleView { margin_top: length_of(v), ..s })
    } else if is_prop(n, "margin-right"@) {
        Some(StyleView { margin_right: length_of(v), ..s })
    } else if is_prop(n, "margin-bottom"@) {
        Some(StyleView { margin_bottom: length_of(v), ..s })
    } else if is_prop(n, "margin-left"@) {
        Some(StyleView { margin_left: length_of(v), ..s })
    } else if is_prop(n, "padding"@) {
        Some(StyleView { padding_top: box_sides_of(v).0, padding_right: box_sides_of(v).1, padding_bottom: box_sides_of(v).2, padding_left: box_sides_of(v).3, ..s })
    } else if is_prop(n, "padding-top"@) {
        Some(StyleView { padding_top: length_of(v), ..s })
    } else if is_prop(n, "padding-right"@) {
        Some(StyleView { padding_right: length_of(v), ..s })
    } else if is_prop(n, "padding-bottom"@) {
        Some(StyleView { padding_bottom: length_of(v), ..s })
    } else if is_prop(n, "padding-left"@) {
        Some(StyleView { padding_left: length_of(v), ..s })
    } else {
        None
    }
}

/// The style after a declaration of one of the borders properties; `None`
/// for another name.
pub open spec fn declared_border(s: StyleView, n: Seq<char>, v: CssValue) -> Option<StyleView> {
    if is_prop(n, "border-width"@) {
        Some(StyleView { border_top_width: box_sides_of(v).0, border_right_width: box_sides_of(v).1, border_bottom_width: box_sides_of(v).2, border_left_width: box_sides_of(v).3, ..s })
    } else if is_prop(n, "border-top-width"@) {
        Some(StyleView { border_top_width: length_of(v), ..s })
    } else if is_prop(n, "border-right-width"@) {
        Some(StyleView { border_right_width: length_of(v), ..s })
    } else if is_prop(n, "border-bottom-width"@) {
        Some(StyleView { border_bottom_width: length_of(v), ..s })
    } else if is_prop(n, "border-left-width"@) {
        Some(StyleView { border_left_width: length_of(v), ..s })
    } else if is_prop(n, "border-color"@) {
        Some(StyleView { border_top_color: color_of(v), border_right_color: color_of(v), border_bottom_color: color_of(v), border_left_color: color_of(v), ..s })
    } else if is_prop(n, "border-top-color"@) {
        Some(StyleView { border_top_color: color_of(v), ..s })
    } else if is_prop(n, "border-right-color"@) {
        Some(StyleView { border_right_color: color_of(v), ..s })
    } else if is_prop(n, "border-bottom-color"@) {
        Some(StyleView { border_bottom_color: color_of(v), ..s })
    } else if is_prop(n, "border-left-color"@) {
        Some(StyleView { border_left_color: color_of(v), ..s })
    } else if is_prop(n, "border-style"@) {
        Some(StyleView { border_top_style: border_style_of(v), border_right_style: border_style_of(v), border_bottom_style: border_style_of(v), border_left_style: border_style_of(v), ..s })
    } else if is_prop(n, "border-top-style"@) {
        Some(StyleView { border_top_style: border_style_of(v), ..s })
    } else if is_prop(n, "border-right-style"@) {
        Some(StyleView { border_right_style: border_style_of(v), ..s })
    } else if is_prop(n, "border-bottom-style"@) {
        Some(StyleView { border_bottom_style: border_style_of(v), ..s })
    } else if is_prop(n, "border-left-style"@) {
        Some(StyleView { border_left_style: border_style_of(v), ..s })
    } else {
        None
    }
}

/// The style after a declaration of one of the fonts and text properties; `None`
/// for another name.
pub open spec fn declared_text(s: StyleView, n: Seq<char>, v: CssValue) -> Option<StyleView> {
    if is_prop(n, "font-family"@) {
        Some(StyleView { font_family: font_families_of(v), ..s })
    } else if is_prop(n, "font-size"@) {
        Some(StyleView { font_size: length_of(v), ..s })
    } else if is_prop(n, "font-weight"@) {
        Some(StyleView { font_weight: font_weight_of(v), ..s })
    } else if is_prop(n, "font-style"@) {
        Some(StyleView { font_style: font_style_of(v), ..s })
    } else if is_prop(n, "font-stretch"@) {
        Some(StyleView { font_stretch: font_stretch_of(v), ..s })
    } else if is_prop(n, "font-variant"@) {
        Some(StyleView { font_variant: font_variant_of(v), ..s })
    } else if is_prop(n, "font-variant-caps"@) {
        Some(StyleView { font_variant_caps: font_variant_caps_of(v), ..s })
    } else if is_prop(n, "line-height"@) {
        Some(StyleView { line_height: line_height_of(v), ..s })
    } else if is_prop(n, "color"@) {
        Some(StyleView { color: color_of(v), ..s })
    } else if is_prop(n, "text-align"@) {
        Some(StyleView { text_align: text_align_of(v), ..s })
    } else if is_prop(n, "text-decoration"@) {
        Some(StyleView { text_decoration: text_decoration_of(v), ..s })
    } else if is_prop(n, "text-transform"@) {
        Some(StyleView { text_transform: text_transform_of(v), ..s })
    } else if is_prop(n, "white-space"@) {
        Some(StyleView { white_space: white_space_of(v), ..s })
    } else if is_prop(n, "word-wrap"@) {
        Some(StyleView { word_wrap: word_wrap_of(v), ..s })
    } else if is_prop(n, "letter-spacing"@) {
        Some(StyleView { letter_spacing: length_of(v), ..s })
    } else if is_prop(n, "word-spacing"@) {
        Some(StyleView { word_spacing: length_of(v), ..s })
    } else if is_prop(n, "text-indent"@) {
        Some(StyleView { text_indent: length_of(v), ..s })
    } else {
        None
    }
}

/// The style after a declaration of one of the backgrounds, images, lists and offsets properties; `None`
/// for another name.
pub open spec fn declared_visual(s: StyleView, n: Seq<char>, v: CssValue) -> Option<StyleView> {
    if is_prop(n, "background-color"@) {
        Some(StyleView { background_color: color_of(v), ..s })
    } else if is_prop(n, "background-image"@) {
        Some(StyleView { background_image: url_of(v), ..s })
    } else if is_prop(n, "background-size"@) {
        Some(StyleView { background_size: background_size_of(v), ..s })
    } else if is_prop(n, "background-position"@) {
        Some(StyleView { background_position: background_position_of(v), ..s })
    } else if is_prop(n, "background-repeat"@) {
        Some(StyleView { background_repeat: background_repeat_of(v), ..s })
    } else if is_prop(n, "opacity"@) {
        Some(StyleView { opacity: number_of(v, F32Bits(0x3F80_0000)), ..s })
    } else if is_prop(n, "visibility"@) {
        Some(StyleView { visibility: visibility_of(v), ..s })
    } else if is_prop(n, "overflow"@) {
        Some(StyleView { overflow: overflow_of(v), ..s })
    } else if is_prop(n, "object-fit"@) {
        Some(StyleView { object_fit: object_fit_of(v), ..s })
    } else if is_prop(n, "object-position"@) {
        Some(StyleView { object_position: object_position_of(v), ..s })
    } else if is_prop(n, "list-style-type"@) {
        Some(StyleView { list_style_type: list_style_type_of(v), ..s })
    } else if is_prop(n, "list-style-image"@) {
        Some(StyleView { list_style_image: url_of(v), ..s })
    } else if is_prop(n, "list-style-position"@) {
        Some(StyleView { list_style_position: list_style_position_of(v), ..s })
    } else if is_prop(n, "top"@) {
        Some(StyleView { top: length_of(v), ..s })
    } else if is_prop(n, "right"@) {
        Some(StyleView { right: length_of(v), ..s })
    } else if is_prop(n, "bottom"@) {
        Some(StyleView { bottom: length_of(v), ..s })
    } else if is_prop(n, "left"@) {
        Some(StyleView { left: length_of(v), ..s })
    } else if is_prop(n, "z-index"@) {
        Some(StyleView { z_index: z_index_of(v), ..s })
    } else {
        None
    }
}

/// The style after a declaration of one of the paged media properties; `None`
/// for another name.
pub open spec fn declared_print(s: StyleView, n: Seq<char>, v: CssValue) -> Option<StyleView> {
    if is_prop(n, "page-break-before"@) {
        Some(StyleView { page_break_before: page_break_of(v), ..s })
    } else if is_prop(n, "page-break-after"@) {
        Some(StyleView { page_break_after: page_break_of(v), ..s })
    } else if is_prop(n, "page-break-inside"@) {
        Some(StyleView { page_break_inside: page_break_inside_of(v), ..s })
    } else if is_prop(n, "break-before"@) {
        Some(StyleView { break_before: break_of(v), ..s })
    } else if is_prop(n, "break-after"@) {
        Some(StyleView { break_after: break_of(v), ..s })
    } else if is_prop(n, "break-inside"@) {
        Some(StyleView { break_inside: break_inside_of(v), ..s })
    } else if is_prop(n, "orphans"@) {
        Some(StyleView { orphans: integer_of(v, 2) as u32, ..s })
    } else if is_prop(n, "widows"@) {
        Some(StyleView { widows: integer_of(v, 2) as u32, ..s })
    } else if is_prop(n, "page"@) {
        Some(StyleView { page: page_name_of(v), ..s })
    } else if is_prop(n, "string-set"@) {
        Some(StyleView { string_set: string_set_of(v).map_values(|p: (Seq<char>, (bool, Seq<char>))| (p.0, Some(p.1))), ..s })
    } else {
        None
    }
}

/// The style after a declaration of one of the grid layout properties; `None`
/// for another name.
pub open spec fn declared_grid(s: StyleView, n: Seq<char>, v: CssValue) -> Option<StyleView> {
    if is_prop(n, "grid-template-columns"@) {
        Some(StyleView { grid_template_columns: template_text(v), ..s })
    } else if is_prop(n, "grid-template-rows"@) {
        Some(StyleView { grid_template_rows: template_text(v), ..s })
    } else if is_prop(n, "grid-template-areas"@) {
        Some(StyleView { grid_template_areas: areas_text(v), ..s })
    } else if is_prop(n, "grid-auto-columns"@) {
        Some(StyleView { grid_auto_columns: auto_size_text(v), ..s })
    } else if is_prop(n, "grid-auto-rows"@) {
        Some(StyleView { grid_auto_rows: auto_size_text(v), ..s })
    } else if is_prop(n, "grid-auto-flow"@) {
        Some(StyleView { grid_auto_flow: auto_flow_value_of(v), ..s })
    } else if is_prop(n, "column-gap"@) {
        Some(StyleView { column_gap: length_of(v), ..s })
    } else if is_prop(n, "row-gap"@) {
        Some(StyleView { row_gap: length_of(v), ..s })
    } else if is_prop(n, "gap"@) {
        Some(StyleView { row_gap: gaps_of(v).0, column_gap: gaps_of(v).1, ..s })
    } else if is_prop(n, "grid-column-start"@) {
        Some(StyleView { grid_column_start: value_line(v), ..s })
    } else if is_prop(n, "grid-column-end"@) {
        Some(StyleView { grid_column_end: value_line(v), ..s })
    } else if is_prop(n, "grid-row-start"@) {
        Some(StyleView { grid_row_start: value_line(v), ..s })
    } else if is_prop(n, "grid-row-end"@) {
        Some(StyleView { grid_row_end: value_line(v), ..s })
    } else if is_prop(n, "grid-column"@) {
        Some(StyleView { grid_column_start: shorthand_lines(v).0, grid_column_end: shorthand_lines(v).1, ..s })
    } else if is_prop(n, "grid-row"@) {
        Some(StyleView { grid_row_start: shorthand_lines(v).0, grid_row_end: shorthand_lines(v).1, ..s })
    } else if is_prop(n, "grid-area"@) {
        Some(StyleView { grid_row_start: area_lines(v).0, grid_column_start: area_lines(v).1, grid_row_end: area_lines(v).2, grid_column_end: area_lines(v).3, ..s })
    } else {
        None
    }
}

/// The style after a declaration of one of the tables properties; `None`
/// for another name.
pub open spec fn declared_table(s: StyleView, n: Seq<char>, v: CssValue) -> Option<StyleView> {
    if is_prop(n, "border-collapse"@) {
        Some(StyleView { border_collapse: border_collapse_of(v), ..s })
    } else if is_prop(n, "border-spacing"@) {
        Some(StyleView { border_spacing_h: Length::Px(border_spacing_of(v).0), border_spacing_v: Length::Px(border_spacing_of(v).1), ..s })
    } else if is_prop(n, "caption-side"@) {
        Some(StyleView { caption_side: caption_side_of(v), ..s })
    } else if is_prop(n, "empty-cells"@) {
        Some(StyleView { empty_cells: empty_cells_of(v), ..s })
    } else if is_prop(n, "table-layout"@) {
        Some(StyleView { table_layout: table_layout_of(v), ..s })
    } else {
        None
    }
}

fn set_display(style: &mut ComputedStyle, value: &CssValue)
    ensures
        final(style)@ == (StyleView { display: display_of(*value), ..old(style)@ }),
{
    proof { reveal(style_view); }
    style.display = parse_display(value);
}

fn set_position(style: &mut ComputedStyle, value: &CssValue)
    ensures
        final(style)@ == (StyleView { position: position_of(*value), ..old(style)@ }),
{
    proof { reveal(style_view); }
    style.position = parse_position(value);
}

fn set_float(style: &mut ComputedStyle, value: &CssValue)
    ensures
        final(style)@ == (StyleView { float: float_of(*value), ..old(style)@ }),
{
    proof { reveal(style_view); }
    style.float = parse_float(value);
}

fn set_clear(style: &mut ComputedStyle, value: &CssValue)
    ensures
        final(style)@ == (StyleView { clear: clear_of(*value), ..old(style)@ }),
{
    proof { reveal(style_view); }
    style.clear = parse_clear(value);
}

fn set_width(style: &mut ComputedStyle, value: &CssValue)
    ensures
        final(style)@ == (StyleView { width: length_of(*value), ..old(style)@ }),
{
    proof { reveal(style_view); }
    style.width = parse_length(value);
}

fn set_height(style: &mut ComputedStyle, value: &CssValue)
    ensures
        final(style)@ == (StyleView { height: length_of(*value), ..old(style)@ }),
{
    proof { reveal(style_view); }
    style.height = parse_length(value);
}

fn set_min_width(style: &mut ComputedStyle, value: &CssValue)
    ensures
        final(style)@ == (StyleView { min_width: length_of(*value), ..old(style)@ }),
{
    proof { reveal(style_view); }
    style.min_width = parse_length(value);
}

fn set_min_height(style: &mut ComputedStyle, value: &CssValue)
    ensures
        final(style)@ == (StyleView { min_height: length_of(*value), ..old(style)@ }),
{
    proof { reveal(style_view); }
    style.min_height = parse_length(value);
}

fn set_max_width(style: &mut ComputedStyle, value: &CssValue)
    ensures
        final(style)@ == (StyleView { max_width: length_of(*value), ..old(style)@ }),
{
    proof { reveal(style_view); }
    style.max_width = parse_length(value);
}

fn set_max_height(style: &mut ComputedStyle, value: &CssValue)
    ensures
        final(style)@ == (StyleView { max_height: length_of(*value), ..old(style)@ }),
{
    proof { reveal(style_view); }
    style.max_height = parse_length(value);
}

fn set_margin(style: &mut ComputedStyle, value: &CssValue)
    ensures
        final(style)@ == (StyleView { margin_top: box_sides_of(*value).0, margin_right: box_sides_of(*value).1, margin_bottom: box_sides_of(*value).2, margin_left: box_sides_of(*value).3, ..old(style)@ }),
{
    proof { reveal(style_view); }
    let t = parse_margin_or_padding(value);
    style.margin_top = t.0;
    style.margin_right = t.1;
    style.margin_bottom = t.2;
    style.margin_left = t.3;
}

fn set_margin_top(style: &mut ComputedStyle, value: &CssValue)
    ensures
        final(style)@ == (StyleView { margin_top: length_of(*value), ..old(style)@ }),
{
    proof { reveal(style_view); }
    style.margin_top = parse_length(value);
}

fn set_margin_right(style: &mut ComputedStyle, value: &CssValue)
    ensures
        final(style)@ == (StyleView { margin_right: length_of(*value), ..old(style)@ }),
{
    proof { reveal(style_view); }
    style.margin_right = parse_length(value);
}

fn set_margin_bottom(style: &mut ComputedStyle, value: &CssValue)
    ensures
        final(style)@ == (StyleView { margin_bottom: length_of(*value), ..old(style)@ }),
{
    proof { reveal(style_view); }
    style.margin_bottom = parse_length(value);
}

fn set_margin_left(style: &mut ComputedStyle, value: &CssValue)
    ensures
        final(style)@ == (StyleView { margin_left: length_of(*value), ..old(style)@ }),
{
    proof { reveal(style_view); }
    style.margin_left = parse_length(value);
}

fn set_padding(style: &mut ComputedStyle, value: &CssValue)
    ensures
        final(style)@ == (StyleView { padding_top: box_sides_of(*value).0, padding_right: box_sides_of(*value).1, padding_bottom: box_sides_of(*value).2, padding_left: box_sides_of(*value).3, ..old(style)@ }),
{
    proof { reveal(style_view); }
    let t = parse_margin_or_padding(value);
    style.padding_top = t.0;
    style.padding_right = t.1;
    style.padding_bottom = t.2;
    style.padding_left = t.3;
}

fn set_padding_top(style: &mut ComputedStyle, value: &CssValue)
    ensures
        final(style)@ == (StyleView { padding_top: length_of(*value), ..old(style)@ }),
{
    proof { reveal(style_view); }
    style.padding_top = parse_length(value);
}

fn set_padding_right(style: &mut ComputedStyle, value: &CssValue)
    ensures
        final(style)@ == (StyleView { padding_right: length_of(*value), ..old(style)@ }),
{
    proof { reveal(style_view); }
    style.padding_right = parse_length(value);
}

fn set_padding_bottom(style: &mut ComputedStyle, value: &CssValue)
    ensures
        final(style)@ == (StyleView { padding_bottom: length_of(*value), ..old(style)@ }),
{
    proof { reveal(style_view); }
    style.padding_bottom = parse_length(value);
}

fn set_padding_left(style: &mut ComputedStyle, value: &CssValue)
    ensures
        final(style)@ == (StyleView { padding_left: length_of(*value), ..old(style)@ }),
{
    proof { reveal(style_view); }
    style.padding_left = parse_length(value);
}

/// Applies a declaration of one of the layout and box model properties; `false`, with
/// the style unchanged, for another name.
fn apply_box(style: &mut ComputedStyle, n: &Vec<char>, value: &CssValue) -> (handled: bool)
    ensures
        handled == declared_box(old(style)@, n@, *value) is Some,
        final(style)@ == match declared_box(old(style)@, n@, *value) {
            Some(t) => t,
            None => old(style)@,
        },
{
    if prop_is(n, "display") {
        set_display(style, value);
        return true;
    }
    if prop_is(n, "position") {
        set_position(style, value);
        return true;
    }
    if prop_is(n, "float") {
        set_float(style, value);
        return true;
    }
    if prop_is(n, "clear") {
        set_clear(style, value);
        return true;
    }
    if prop_is(n, "width") {
        set_width(style, value);
        return true;
    }
    if prop_is(n, "height") {
        set_height(style, value);
        return true;
    }
    if prop_is(n, "min-width") {
        set_min_width(style, value);
        return true;
    }
    if prop_is(n, "min-height") {
        set_min_height(style, value);
        return true;
    }
    if prop_is(n, "max-width") {
        set_max_width(style, value);
        return true;
    }
    if prop_is(n, "max-height") {
        set_max_height(style, value);
        return true;
    }
    if prop_is(n, "margin") {
        set_margin(style, value);
        return true;
    }
    if prop_is(n, "margin-top") {
        set_margin_top(style, value);
        return true;
    }
    if prop_is(n, "margin-right") {
        set_margin_right(style, value);
        return true;
    }
    if prop_is(n, "margin-bottom") {
        set_margin_bottom(style, value);
        return true;
    }
    if prop_is(n, "margin-left") {
        set_margin_left(style, value);
        return true;
    }
    if prop_is(n, "padding") {
        set_padding(style, value);
        return true;
    }
    if prop_is(n, "padding-top") {
        set_padding_top(style, value);
        return true;
    }
    if prop_is(n, "padding-right") {
        set_padding_right(style, value);
        return true;
    }
    if prop_is(n, "padding-bottom") {
        set_padding_bottom(style, value);
        return true;
    }
    if prop_is(n, "padding-left") {
        set_padding_left(style, value);
        return true;
    }
    false
}

fn set_border_width(style: &mut ComputedStyle, value: &CssValue)
    ensures
        final(style)@ == (StyleView { border_top_width: box_sides_of(*value).0, border_right_width: box_sides_of(*value).1, border_bottom_width: box_sides_of(*value).2, border_left_width: box_sides_of(*value).3, ..old(style)@ }),
{
    proof { reveal(style_view); }
    let t = parse_border_widths(value);
    style.border_top_width = t.0;
    style.border_right_width = t.1;
    style.border_bottom_width = t.2;
    style.border_left_width = t.3;
}

fn set_border_top_width(style: &mut ComputedStyle, value: &CssValue)
    ensures
        final(style)@ == (StyleView { border_top_width: length_of(*value), ..old(style)@ }),
{
    proof { reveal(style_view); }
    style.border_top_width = parse_length(value);
}

fn set_border_right_width(style: &mut ComputedStyle, value: &CssValue)
    ensures
        final(style)@ == (StyleView { border_right_width: length_of(*value), ..old(style)@ }),
{
    proof { reveal(style_view); }
    style.border_right_width = parse_length(value);
}

fn set_border_bottom_width(style: &mut ComputedStyle, value: &CssValue)
    ensures
        final(style)@ == (StyleView { border_bottom_width: length_of(*value), ..old(style)@ }),
{
    proof { reveal(style_view); }
    style.border_bottom_width = parse_length(value);
}

fn set_border_left_width(style: &mut ComputedStyle, value: &CssValue)
    ensures
        final(style)@ == (StyleView { border_left_width: length_of(*value), ..old(style)@ }),
{
    proof { reveal(style_view); }
    style.border_left_width = parse_length(value);
}

fn set_border_color(style: &mut ComputedStyle, value: &CssValue)
    ensures
        final(style)@ == (StyleView { border_top_color: color_of(*value), border_right_color: color_of(*value), border_bottom_color: color_of(*value), border_left_color: color_of(*value), ..old(style)@ }),
{
    proof { reveal(style_view); }
    let t = parse_color(value);
    style.border_top_color = t;
    style.border_right_color = t;
    style.border_bottom_color = t;
    style.border_left_color = t;
}

fn set_border_top_color(style: &mut ComputedStyle, value: &CssValue)
    ensures
        final(style)@ == (StyleView { border_top_color: color_of(*value), ..old(style)@ }),
{
    proof { reveal(style_view); }
    style.border_top_color = parse_color(value);
}

fn set_border_right_color(style: &mut ComputedStyle, value: &CssValue)
    ensures
        final(style)@ == (StyleView { border_right_color: color_of(*value), ..old(style)@ }),
{
    proof { reveal(style_view); }
    style.border_right_color = parse_color(value);
}

fn set_border_bottom_color(style: &mut ComputedStyle, value: &CssValue)
    ensures
        final(style)@ == (StyleView { border_bottom_color: color_of(*value), ..old(style)@ }),
{
    proof { reveal(style_view); }
    style.border_bottom_color = parse_color(value);
}

fn set_border_left_color(style: &mut ComputedStyle, value: &CssValue)
    ensures
        final(style)@ == (StyleView { border_left_color: color_of(*value), ..old(style)@ }),
{
    proof { reveal(style_view); }
    style.border_left_color = parse_color(value);
}

fn set_border_style(style: &mut ComputedStyle, value: &CssValue)
    ensures
        final(style)@ == (StyleView { border_top_style: border_style_of(*value), border_right_style: border_style_of(*value), border_bottom_style: border_style_of(*value), border_left_style: border_style_of(*value), ..old(style)@ }),
{
    proof { reveal(style_view); }
    let t = parse_border_style(value);
    style.border_top_style = t;
    style.border_right_style = t;
    style.border_bottom_style = t;
    style.border_left_style = t;
}

fn set_border_top_style(style: &mut ComputedStyle, value: &CssValue)
    ensures
        final(style)@ == (StyleView { border_top_style: border_style_of(*value), ..old(style)@ }),
{
    proof { reveal(style_view); }
    style.border_top_style = parse_border_style(value);
}

fn set_border_right_style(style: &mut ComputedStyle, value: &CssValue)
    ensures
        final(style)@ == (StyleView { border_right_style: border_style_of(*value), ..old(style)@ }),
{
    proof { reveal(style_view); }
    style.border_right_style = parse_border_style(value);
}

fn set_border_bottom_style(style: &mut ComputedStyle, value: &CssValue)
    ensures
        final(style)@ == (StyleView { border_bottom_style: border_style_of(*value), ..old(style)@ }),
{
    proof { reveal(style_view); }
    style.border_bottom_style = parse_border_style(value);
}

fn set_border_left_style(style: &mut ComputedStyle, value: &CssValue)
    ensures
        final(style)@ == (StyleView { border_left_style: border_style_of(*value), ..old(style)@ }),
{
    proof { reveal(style_view); }
    style.border_left_style = parse_border_style(value);
}

/// Applies a declaration of one of the borders properties; `false`, with
/// the style unchanged, for another name.
fn apply_border(style: &mut ComputedStyle, n: &Vec<char>, value: &CssValue) -> (handled: bool)
    ensures
        handled == declared_border(old(style)@, n@, *value) is Some,
        final(style)@ == match declared_border(old(style)@, n@, *value) {
            Some(t) => t,
            None => old(style)@,
        },
{
    if prop_is(n, "border-width") {
        set_border_width(style, value);
        return true;
    }
    if prop_is(n, "border-top-width") {
        set_border_top_width(style, value);
        return true;
    }
    if prop_is(n, "border-right-width") {
        set_border_right_width(style, value);
        return true;
    }
    if prop_is(n, "border-bottom-width") {
        set_border_bottom_width(style, value);
        return true;
    }
    if prop_is(n, "border-left-width") {
        set_border_left_width(style, value);
        return true;
    }
    if prop_is(n, "border-color") {
        set_border_color(style, value);
        return true;
    }
    if prop_is(n, "border-top-color") {
        set_border_top_color(style, value);
        return true;
    }
    if prop_is(n, "border-right-color") {
        set_border_right_color(style, value);
        return true;
    }
    if prop_is(n, "border-bottom-color") {
        set_border_bottom_color(style, value);
        return true;
    }
    if prop_is(n, "border-left-color") {
        set_border_left_color(style, value);
        return true;
    }
    if prop_is(n, "border-style") {
        set_border_style(style, value);
        return true;
    }
    if prop_is(n, "border-top-style") {
        set_border_top_style(style, value);
        return true;
    }
    if prop_is(n, "border-right-style") {
        set_border_right_style(style, value);
        return true;
    }
    if prop_is(n, "border-bottom-style") {
        set_border_bottom_style(style, value);
        return true;
    }
    if prop_is(n, "border-left-style") {
        set_border_left_style(style, value);
        return true;
    }
    false
}

fn set_font_family(style: &mut ComputedStyle, value: &CssValue)
    ensures
        final(style)@ == (StyleView { font_family: font_families_of(*value), ..old(style)@ }),
{
    proof { reveal(style_view); }
    style.font_family = parse_font_family(value);
    proof { assert(style.font_family@.map_values(|s: String| s@) =~= font_families_of(*value)); }
}

fn set_font_size(style: &mut ComputedStyle, value: &CssValue)
    ensures
        final(style)@ == (StyleView { font_size: length_of(*value), ..old(style)@ }),
{
    proof { reveal(style_view); }
    style.font_size = parse_length(value);
}

fn set_font_weight(style: &mut ComputedStyle, value: &CssValue)
    ensures
        final(style)@ == (StyleView { font_weight: font_weight_of(*value), ..old(style)@ }),
{
    proof { reveal(style_view); }
    style.font_weight = parse_font_weight(value);
}

fn set_font_style(style: &mut ComputedStyle, value: &CssValue)
    ensures
        final(style)@ == (StyleView { font_style: font_style_of(*value), ..old(style)@ }),
{
    proof { reveal(style_view); }
    style.font_style = parse_font_style(value);
}

fn set_font_stretch(style: &mut ComputedStyle, value: &CssValue)
    ensures
        final(style)@ == (StyleView { font_stretch: font_stretch_of(*value), ..old(style)@ }),
{
    proof { reveal(style_view); }
    style.font_stretch = FontStretch::from_css(value);
}

fn set_font_variant(style: &mut ComputedStyle, value: &CssValue)
    ensures
        final(style)@ == (StyleView { font_variant: font_variant_of(*value), ..old(style)@ }),
{
    proof { reveal(style_view); }
    style.font_variant = FontVariant::from_css(value);
}

fn set_font_variant_caps(style: &mut ComputedStyle, value: &CssValue)
    ensures
        final(style)@ == (StyleView { font_variant_caps: font_variant_caps_of(*value), ..old(style)@ }),
{
    proof { reveal(style_view); }
    style.font_variant_caps = FontVariantCaps::from_css(value);
}

fn set_line_height(style: &mut ComputedStyle, value: &CssValue)
    ensures
        final(style)@ == (StyleView { line_height: line_height_of(*value), ..old(style)@ }),
{
    proof { reveal(style_view); }
    style.line_height = parse_line_height(value);
}

fn set_color(style: &mut ComputedStyle, value: &CssValue)
    ensures
        final(style)@ == (StyleView { color: color_of(*value), ..old(style)@ }),
{
    proof { reveal(style_view); }
    style.color = parse_color(value);
}

fn set_text_align(style: &mut ComputedStyle, value: &CssValue)
    ensures
        final(style)@ == (StyleView { text_align: text_align_of(*value), ..old(style)@ }),
{
    proof { reveal(style_view); }
    style.text_align = parse_text_align(value);
}

fn set_text_decoration(style: &mut ComputedStyle, value: &CssValue)
    ensures
        final(style)@ == (StyleView { text_decoration: text_decoration_of(*value), ..old(style)@ }),
{
    proof { reveal(style_view); }
    style.text_decoration = parse_text_decoration(value);
}

fn set_text_transform(style: &mut ComputedStyle, value: &CssValue)
    ensures
        final(style)@ == (StyleView { text_transform: text_transform_of(*value), ..old(style)@ }),
{
    proof { reveal(style_view); }
    style.text_transform = parse_text_transform(value);
}

fn set_white_space(style: &mut ComputedStyle, value: &CssValue)
    ensures
        final(style)@ == (StyleView { white_space: white_space_of(*value), ..old(style)@ }),
{
    proof { reveal(style_view); }
    style.white_space = parse_white_space(value);
}

fn set_word_wrap(style: &mut ComputedStyle, value: &CssValue)
    ensures
        final(style)@ == (StyleView { word_wrap: word_wrap_of(*value), ..old(style)@ }),
{
    proof { reveal(style_view); }
    style.word_wrap = parse_word_wrap(value);
}

fn set_letter_spacing(style: &mut ComputedStyle, value: &CssValue)
    ensures
        final(style)@ == (StyleView { letter_spacing: length_of(*value), ..old(style)@ }),
{
    proof { reveal(style_view); }
    style.letter_spacing = parse_length(value);
}

fn set_word_spacing(style: &mut ComputedStyle, value: &CssValue)
    ensures
        final(style)@ == (StyleView { word_spacing: length_of(*value), ..old(style)@ }),
{
    proof { reveal(style_view); }
    style.word_spacing = parse_length(value);
}

fn set_text_indent(style: &mut ComputedStyle, value: &CssValue)
    ensures
        final(style)@ == (StyleView { text_indent: length_of(*value), ..old(style)@ }),
{
    proof { reveal(style_view); }
    style.text_indent = parse_length(value);
}

/// Applies a declaration of one of the fonts and text properties; `false`, with
/// the style unchanged, for another name.
fn apply_text(style: &mut ComputedStyle, n: &Vec<char>, value: &CssValue) -> (handled: bool)
    ensures
        handled == declared_text(old(style)@, n@, *value) is Some,
        final(style)@ == match declared_text(old(style)@, n@, *value) {
            Some(t) => t,
            None => old(style)@,
        },
{
    if prop_is(n, "font-family") {
        set_font_family(style, value);
        return true;
    }
    if prop_is(n, "font-size") {
        set_font_size(style, value);
        return true;
    }
    if prop_is(n, "font-weight") {
        set_font_weight(style, value);
        return true;
    }
    if prop_is(n, "font-style") {
        set_font_style(style, value);
        return true;
    }
    if prop_is(n, "font-stretch") {
        set_font_stretch(style, value);
        return true;
    }
    if prop_is(n, "font-variant") {
        set_font_variant(style, value);
        return true;
    }
    if prop_is(n, "font-variant-caps") {
        set_font_variant_caps(style, value);
        return true;
    }
    if prop_is(n, "line-height") {
        set_line_height(style, value);
        return true;
    }
    if prop_is(n, "color") {
        set_color(style, value);
        return true;
    }
    if prop_is(n, "text-align") {
        set_text_align(style, value);
        return true;
    }
    if prop_is(n, "text-decoration") {
        set_text_decoration(style, value);
        return true;
    }
    if prop_is(n, "text-transform") {
        set_text_transform(style, value);
        return true;
    }
    if prop_is(n, "white-space") {
        set_white_space(style, value);
        return true;
    }
    if prop_is(n, "word-wrap") {
        set_word_wrap(style, value);
        return true;
    }
    if prop_is(n, "letter-spacing") {
        set_letter_spacing(style, value);
        return true;
    }
    if prop_is(n, "word-spacing") {
        set_word_spacing(style, value);
        return true;
    }
    if prop_is(n, "text-indent") {
        set_text_indent(style, value);
        return true;
    }
    false
}

fn set_background_color(style: &mut ComputedStyle, value: &CssValue)
    ensures
        final(style)@ == (StyleView { background_color: color_of(*value), ..old(style)@ }),
{
    proof { reveal(style_view); }
    style.background_color = parse_color(value);
}

fn set_background_image(style: &mut ComputedStyle, value: &CssValue)
    ensures
        final(style)@ == (StyleView { background_image: url_of(*value), ..old(style)@ }),
{
    proof { reveal(style_view); }
    style.background_image = parse_background_image(value);
}

fn set_background_size(style: &mut ComputedStyle, value: &CssValue)
    ensures
        final(style)@ == (StyleView { background_size: background_size_of(*value), ..old(style)@ }),
{
    proof { reveal(style_view); }
    style.background_size = parse_background_size(value);
}

fn set_background_position(style: &mut ComputedStyle, value: &CssValue)
    ensures
        final(style)@ == (StyleView { background_position: background_position_of(*value), ..old(style)@ }),
{
    proof { reveal(style_view); }
    style.background_position = parse_background_position(value);
}

fn set_background_repeat(style: &mut ComputedStyle, value: &CssValue)
    ensures
        final(style)@ == (StyleView { background_repeat: background_repeat_of(*value), ..old(style)@ }),
{
    proof { reveal(style_view); }
    style.background_repeat = parse_background_repeat(value);
}

fn set_opacity(style: &mut ComputedStyle, value: &CssValue)
    ensures
        final(style)@ == (StyleView { opacity: number_of(*value, F32Bits(0x3F80_0000)), ..old(style)@ }),
{
    proof { reveal(style_view); }
    style.opacity = parse_number(value, F32Bits(0x3F80_0000));
}

fn set_visibility(style: &mut ComputedStyle, value: &CssValue)
    ensures
        final(style)@ == (StyleView { visibility: visibility_of(*value), ..old(style)@ }),
{
    proof { reveal(style_view); }
    style.visibility = parse_visibility(value);
}

fn set_overflow(style: &mut ComputedStyle, value: &CssValue)
    ensures
        final(style)@ == (StyleView { overflow: overflow_of(*value), ..old(style)@ }),
{
    proof { reveal(style_view); }
    style.overflow = parse_overflow(value);
}

fn set_object_fit(style: &mut ComputedStyle, value: &CssValue)
    ensures
        final(style)@ == (StyleView { object_fit: object_fit_of(*value), ..old(style)@ }),
{
    proof { reveal(style_view); }
    style.object_fit = parse_object_fit(value);
}

fn set_object_position(style: &mut ComputedStyle, value: &CssValue)
    ensures
        final(style)@ == (StyleView { object_position: object_position_of(*value), ..old(style)@ }),
{
    proof { reveal(style_view); }
    style.object_position = parse_object_position(value);
}

fn set_list_style_type(style: &mut ComputedStyle, value: &CssValue)
    ensures
        final(style)@ == (StyleView { list_style_type: list_style_type_of(*value), ..old(style)@ }),
{
    proof { reveal(style_view); }
    style.list_style_type = parse_list_style_type(value);
}

fn set_list_style_image(style: &mut ComputedStyle, value: &CssValue)
    ensures
        final(style)@ == (StyleView { list_style_image: url_of(*value), ..old(style)@ }),
{
    proof { reveal(style_view); }
    style.list_style_image = parse_list_style_image(value);
}

fn set_list_style_position(style: &mut ComputedStyle, value: &CssValue)
    ensures
        final(style)@ == (StyleView { list_style_position: list_style_position_of(*value), ..old(style)@ }),
{
    proof { reveal(style_view); }
    style.list_style_position = parse_list_style_position(value);
}

fn set_top(style: &mut ComputedStyle, value: &CssValue)
    ensures
        final(style)@ == (StyleView { top: length_of(*value), ..old(style)@ }),
{
    proof { reveal(style_view); }
    style.top = parse_length(value);
}

fn set_right(style: &mut ComputedStyle, value: &CssValue)
    ensures
        final(style)@ == (StyleView { right: length_of(*value), ..old(style)@ }),
{
    proof { reveal(style_view); }
    style.right = parse_length(value);
}

fn set_bottom(style: &mut ComputedStyle, value: &CssValue)
    ensures
        final(style)@ == (StyleView { bottom: length_of(*value), ..old(style)@ }),
{
    proof { reveal(style_view); }
    style.bottom = parse_length(value);
}

fn set_left(style: &mut ComputedStyle, value: &CssValue)
    ensures
        final(style)@ == (StyleView { left: length_of(*value), ..old(style)@ }),
{
    proof { reveal(style_view); }
    style.left = parse_length(value);
}

fn set_z_index(style: &mut ComputedStyle, value: &CssValue)
    ensures
        final(style)@ == (StyleView { z_index: z_index_of(*value), ..old(style)@ }),
{
    proof { reveal(style_view); }
    style.z_index = parse_z_index(value);
}

/// Applies a declaration of one of the backgrounds, images, lists and offsets properties; `false`, with
/// the style unchanged, for another name.
fn apply_visual(style: &mut ComputedStyle, n: &Vec<char>, value: &CssValue) -> (handled: bool)
    ensures
        handled == declared_visual(old(style)@, n@, *value) is Some,
        final(style)@ == match declared_visual(old(style)@, n@, *value) {
            Some(t) => t,
            None => old(style)@,
        },
{
    if prop_is(n, "background-color") {
        set_background_color(style, value);
        return true;
    }
    if prop_is(n, "background-image") {
        set_background_image(style, value);
        return true;
    }
    if prop_is(n, "background-size") {
        set_background_size(style, value);
        return true;
    }
    if prop_is(n, "background-position") {
        set_background_position(style, value);
        return true;
    }
    if prop_is(n, "background-repeat") {
        set_background_repeat(style, value);
        return true;
    }
    if prop_is(n, "opacity") {
        set_opacity(style, value);
        return true;
    }
    if prop_is(n, "visibility") {
        set_visibility(style, value);
        return true;
    }
    if prop_is(n, "overflow") {
        set_overflow(style, value);
        return true;
    }
    if prop_is(n, "object-fit") {
        set_object_fit(style, value);
        return true;
    }
    if prop_is(n, "object-position") {
        set_object_position(style, value);
        return true;
    }
    if prop_is(n, "list-style-type") {
        set_list_style_type(style, value);
        return true;
    }
    if prop_is(n, "list-style-image") {
        set_list_style_image(style, value);
        return true;
    }
    if prop_is(n, "list-style-position") {
        set_list_style_position(style, value);
        return true;
    }
    if prop_is(n, "top") {
        set_top(style, value);
        return true;
    }
    if prop_is(n, "right") {
        set_right(style, value);
        return true;
    }
    if prop_is(n, "bottom") {
        set_bottom(style, value);
        return true;
    }
    if prop_is(n, "left") {
        set_left(style, value);
        return true;
    }
    if prop_is(n, "z-index") {
        set_z_index(style, value);
        return true;
    }
    false
}

fn set_page_break_before(style: &mut ComputedStyle, value: &CssValue)
    ensures
        final(style)@ == (StyleView { page_break_before: page_break_of(*value), ..old(style)@ }),
{
    proof { reveal(style_view); }
    style.page_break_before = parse_page_break(value);
}

fn set_page_break_after(style: &mut ComputedStyle, value: &CssValue)
    ensures
        final(style)@ == (StyleView { page_break_after: page_break_of(*value), ..old(style)@ }),
{
    proof { reveal(style_view); }
    style.page_break_after = parse_page_break(value);
}

fn set_page_break_inside(style: &mut ComputedStyle, value: &CssValue)
    ensures
        final(style)@ == (StyleView { page_break_inside: page_break_inside_of(*value), ..old(style)@ }),
{
    proof { reveal(style_view); }
    style.page_break_inside = parse_page_break_inside(value);
}

fn set_break_before(style: &mut ComputedStyle, value: &CssValue)
    ensures
        final(style)@ == (StyleView { break_before: break_of(*value), ..old(style)@ }),
{
    proof { reveal(style_view); }
    style.break_before = parse_break_value(value);
}

fn set_break_after(style: &mut ComputedStyle, value: &CssValue)
    ensures
        final(style)@ == (StyleView { break_after: break_of(*value), ..old(style)@ }),
{
    proof { reveal(style_view); }
    style.break_after = parse_break_value(value);
}

fn set_break_inside(style: &mut ComputedStyle, value: &CssValue)
    ensures
        final(style)@ == (StyleView { break_inside: break_inside_of(*value), ..old(style)@ }),
{
    proof { reveal(style_view); }
    style.break_inside = parse_break_inside_value(value);
}

fn set_orphans(style: &mut ComputedStyle, value: &CssValue)
    ensures
        final(style)@ == (StyleView { orphans: integer_of(*value, 2) as u32, ..old(style)@ }),
{
    proof { reveal(style_view); }
    style.orphans = parse_integer(value, 2) as u32;
}

fn set_widows(style: &mut ComputedStyle, value: &CssValue)
    ensures
        final(style)@ == (StyleView { widows: integer_of(*value, 2) as u32, ..old(style)@ }),
{
    proof { reveal(style_view); }
    style.widows = parse_integer(value, 2) as u32;
}

fn set_page(style: &mut ComputedStyle, value: &CssValue)
    ensures
        final(style)@ == (StyleView { page: page_name_of(*value), ..old(style)@ }),
{
    proof { reveal(style_view); }
    style.page = parse_page_name(value);
}

fn set_string_set(style: &mut ComputedStyle, value: &CssValue)
    ensures
        final(style)@ == (StyleView { string_set: string_set_of(*value).map_values(|p: (Seq<char>, (bool, Seq<char>))| (p.0, Some(p.1))), ..old(style)@ }),
{
    proof { reveal(style_view); }
    style.string_set = parse_string_set(value);
    proof { assert(style.string_set@.map_values(|p: (String, StringSetValue)| (p.0@, set_value_view(p.1))) =~= string_set_of(*value).map_values(|p: (Seq<char>, (bool, Seq<char>))| (p.0, Some(p.1)))); }
}

/// Applies a declaration of one of the paged media properties; `false`, with
/// the style unchanged, for another name.
fn apply_print(style: &mut ComputedStyle, n: &Vec<char>, value: &CssValue) -> (handled: bool)
    ensures
        handled == declared_print(old(style)@, n@, *value) is Some,
        final(style)@ == match declared_print(old(style)@, n@, *value) {
            Some(t) => t,
            None => old(style)@,
        },
{
    if prop_is(n, "page-break-before") {
        set_page_break_before(style, value);
        return true;
    }
    if prop_is(n, "page-break-after") {
        set_page_break_after(style, value);
        return true;
    }
    if prop_is(n, "page-break-inside") {
        set_page_break_inside(style, value);
        return true;
    }
    if prop_is(n, "break-before") {
        set_break_before(style, value);
        return true;
    }
    if prop_is(n, "break-after") {
        set_break_after(style, value);
        return true;
    }
    if prop_is(n, "break-inside") {
        set_break_inside(style, value);
        return true;
    }
    if prop_is(n, "orphans") {
        set_orphans(style, value);
        return true;
    }
    if prop_is(n, "widows") {
        set_widows(style, value);
        return true;
    }
    if prop_is(n, "page") {
        set_page(style, value);
        return true;
    }
    if prop_is(n, "string-set") {
        set_string_set(style, value);
        return true;
    }
    false
}

fn set_grid_template_columns(style: &mut ComputedStyle, value: &CssValue)
    ensures
        final(style)@ == (StyleView { grid_template_columns: template_text(*value), ..old(style)@ }),
{
    proof { reveal(style_view); }
    style.grid_template_columns = parse_grid_template(value);
}

fn set_grid_template_rows(style: &mut ComputedStyle, value: &CssValue)
    ensures
        final(style)@ == (StyleView { grid_template_rows: template_text(*value), ..old(style)@ }),
{
    proof { reveal(style_view); }
    style.grid_template_rows = parse_grid_template(value);
}

fn set_grid_template_areas(style: &mut ComputedStyle, value: &CssValue)
    ensures
        final(style)@ == (StyleView { grid_template_areas: areas_text(*value), ..old(style)@ }),
{
    proof { reveal(style_view); }
    style.grid_template_areas = parse_grid_template_areas(value);
}

fn set_grid_auto_columns(style: &mut ComputedStyle, value: &CssValue)
    ensures
        final(style)@ == (StyleView { grid_auto_columns: auto_size_text(*value), ..old(style)@ }),
{
    proof { reveal(style_view); }
    style.grid_auto_columns = parse_grid_auto_size(value);
}

fn set_grid_auto_rows(style: &mut ComputedStyle, value: &CssValue)
    ensures
        final(style)@ == (StyleView { grid_auto_rows: auto_size_text(*value), ..old(style)@ }),
{
    proof { reveal(style_view); }
    style.grid_auto_rows = parse_grid_auto_size(value);
}

fn set_grid_auto_flow(style: &mut ComputedStyle, value: &CssValue)
    ensures
        final(style)@ == (StyleView { grid_auto_flow: auto_flow_value_of(*value), ..old(style)@ }),
{
    proof { reveal(style_view); }
    style.grid_auto_flow = parse_grid_auto_flow_value(value);
}

fn set_column_gap(style: &mut ComputedStyle, value: &CssValue)
    ensures
        final(style)@ == (StyleView { column_gap: length_of(*value), ..old(style)@ }),
{
    proof { reveal(style_view); }
    style.column_gap = parse_length(value);
}

fn set_row_gap(style: &mut ComputedStyle, value: &CssValue)
    ensures
        final(style)@ == (StyleView { row_gap: length_of(*value), ..old(style)@ }),
{
    proof { reveal(style_view); }
    style.row_gap = parse_length(value);
}

fn set_gap(style: &mut ComputedStyle, value: &CssValue)
    ensures
        final(style)@ == (StyleView { row_gap: gaps_of(*value).0, column_gap: gaps_of(*value).1, ..old(style)@ }),
{
    proof { reveal(style_view); }
    let (row, col) = parse_gap(value);
    style.row_gap = row;
    style.column_gap = col;
}

fn set_grid_column_start(style: &mut ComputedStyle, value: &CssValue)
    ensures
        final(style)@ == (StyleView { grid_column_start: value_line(*value), ..old(style)@ }),
{
    proof { reveal(style_view); }
    style.grid_column_start = parse_grid_line(value);
}

fn set_grid_column_end(style: &mut ComputedStyle, value: &CssValue)
    ensures
        final(style)@ == (StyleView { grid_column_end: value_line(*value), ..old(style)@ }),
{
    proof { reveal(style_view); }
    style.grid_column_end = parse_grid_line(value);
}

fn set_grid_row_start(style: &mut ComputedStyle, value: &CssValue)
    ensures
        final(style)@ == (StyleView { grid_row_start: value_line(*value), ..old(style)@ }),
{
    proof { reveal(style_view); }
    style.grid_row_start = parse_grid_line(value);
}

fn set_grid_row_end(style: &mut ComputedStyle, value: &CssValue)
    ensures
        final(style)@ == (StyleView { grid_row_end: value_line(*value), ..old(style)@ }),
{
    proof { reveal(style_view); }
    style.grid_row_end = parse_grid_line(value);
}

fn set_grid_column(style: &mut ComputedStyle, value: &CssValue)
    ensures
        final(style)@ == (StyleView { grid_column_start: shorthand_lines(*value).0, grid_column_end: shorthand_lines(*value).1, ..old(style)@ }),
{
    proof { reveal(style_view); }
    let (start, end) = parse_grid_line_shorthand(value);
    style.grid_column_start = start;
    style.grid_column_end = end;
}

fn set_grid_row(style: &mut ComputedStyle, value: &CssValue)
    ensures
        final(style)@ == (StyleView { grid_row_start: shorthand_lines(*value).0, grid_row_end: shorthand_lines(*value).1, ..old(style)@ }),
{
    proof { reveal(style_view); }
    let (start, end) = parse_grid_line_shorthand(value);
    style.grid_row_start = start;
    style.grid_row_end = end;
}

fn set_grid_area(style: &mut ComputedStyle, value: &CssValue)
    ensures
        final(style)@ == (StyleView { grid_row_start: area_lines(*value).0, grid_column_start: area_lines(*value).1, grid_row_end: area_lines(*value).2, grid_column_end: area_lines(*value).3, ..old(style)@ }),
{
    proof { reveal(style_view); }
    let (row_start, col_start, row_end, col_end) = parse_grid_area(value);
    style.grid_row_start = row_start;
    style.grid_column_start = col_start;
    style.grid_row_end = row_end;
    style.grid_column_end = col_end;
}

/// Applies a declaration of one of the grid layout properties; `false`, with
/// the style unchanged, for another name.
fn apply_grid(style: &mut ComputedStyle, n: &Vec<char>, value: &CssValue) -> (handled: bool)
    ensures
        handled == declared_grid(old(style)@, n@, *value) is Some,
        final(style)@ == match declared_grid(old(style)@, n@, *value) {
            Some(t) => t,
            None => old(style)@,
        },
{
    if prop_is(n, "grid-template-columns") {
        set_grid_template_columns(style, value);
        return true;
    }
    if prop_is(n, "grid-template-rows") {
        set_grid_template_rows(style, value);
        return true;
    }
    if prop_is(n, "grid-template-areas") {
        set_grid_template_areas(style, value);
        return true;
    }
    if prop_is(n, "grid-auto-columns") {
        set_grid_auto_columns(style, value);
        return true;
    }
    if prop_is(n, "grid-auto-rows") {
        set_grid_auto_rows(style, value);
        return true;
    }
    if prop_is(n, "grid-auto-flow") {
        set_grid_auto_flow(style, value);
        return true;
    }
    if prop_is(n, "column-gap") {
        set_column_gap(style, value);
        return true;
    }
    if prop_is(n, "row-gap") {
        set_row_gap(style, value);
        return true;
    }
    if prop_is(n, "gap") {
        set_gap(style, value);
        return true;
    }
    if prop_is(n, "grid-column-start") {
        set_grid_column_start(style, value);
        return true;
    }
    if prop_is(n, "grid-column-end") {
        set_grid_column_end(style, value);
        return true;
    }
    if prop_is(n, "grid-row-start") {
        set_grid_row_start(style, value);
        return true;
    }
    if prop_is(n, "grid-row-end") {
        set_grid_row_end(style, value);
        return true;
    }
    if prop_is(n, "grid-column") {
        set_grid_column(style, value);
        return true;
    }
    if prop_is(n, "grid-row") {
        set_grid_row(style, value);
        return true;
    }
    if prop_is(n, "grid-area") {
        set_grid_area(style, value);
        return true;
    }
    false
}

fn set_border_collapse(style: &mut ComputedStyle, value: &CssValue)
    ensures
        final(style)@ == (StyleView { border_collapse: border_collapse_of(*value), ..old(style)@ }),
{
    proof { reveal(style_view); }
    style.border_collapse = parse_border_collapse(value);
}

fn set_border_spacing(style: &mut ComputedStyle, value: &CssValue)
    ensures
        final(style)@ == (StyleView { border_spacing_h: Length::Px(border_spacing_of(*value).0), border_spacing_v: Length::Px(border_spacing_of(*value).1), ..old(style)@ }),
{
    proof { reveal(style_view); }
    let (h, w) = parse_border_spacing(value);
    style.border_spacing_h = Length::Px(h);
    style.border_spacing_v = Length::Px(w);
}

fn set_caption_side(style: &mut ComputedStyle, value: &CssValue)
    ensures
        final(style)@ == (StyleView { caption_side: caption_side_of(*value), ..old(style)@ }),
{
    proof { reveal(style_view); }
    style.caption_side = parse_caption_side(value);
}

fn set_empty_cells(style: &mut ComputedStyle, value: &CssValue)
    ensures
        final(style)@ == (StyleView { empty_cells: empty_cells_of(*value), ..old(style)@ }),
{
    proof { reveal(style_view); }
    style.empty_cells = parse_empty_cells(value);
}

fn set_table_layout(style: &mut ComputedStyle, value: &CssValue)
    ensures
        final(style)@ == (StyleView { table_layout: table_layout_of(*value), ..old(style)@ }),
{
    proof { reveal(style_view); }
    style.table_layout = parse_table_layout(value);
}

/// Applies a declaration of one of the tables properties; `false`, with
/// the style unchanged, for another name.
fn apply_table(style: &mut ComputedStyle, n: &Vec<char>, value: &CssValue) -> (handled: bool)
    ensures
        handled == declared_table(old(style)@, n@, *value) is Some,
        final(style)@ == match declared_table(old(style)@, n@, *value) {
            Some(t) => t,
            None => old(style)@,
        },
{
    if prop_is(n, "border-collapse") {
        set_border_collapse(style, value);
        return true;
    }
    if prop_is(n, "border-spacing") {
        set_border_spacing(style, value);
        return true;
    }
    if prop_is(n, "caption-side") {
        set_caption_side(style, value);
        return true;
    }
    if prop_is(n, "empty-cells") {
        set_empty_cells(style, value);
        return true;
    }
    if prop_is(n, "table-layout") {
        set_table_layout(style, value);
        return true;
    }
    false
}

/// The style after one declaration of property `n` (in lowercase) with
/// value `v`; an unknown property leaves it unchanged.
pub open spec fn declared(s: StyleView, n: Seq<char>, v: CssValue) -> StyleView {
    if let Some(t) = declared_box(s, n, v) {
        t
    } else if let Some(t) = declared_border(s, n, v) {
        t
    } else if let Some(t) = declared_text(s, n, v) {
        t
    } else if let Some(t) = declared_visual(s, n, v) {
        t
    } else if let Some(t) = declared_print(s, n, v) {
        t
    } else if let Some(t) = declared_grid(s, n, v) {
        t
    } else if let Some(t) = declared_table(s, n, v) {
        t
    } else {
        s
    }
}

/// The style after the declarations `ds` in order, each property name
/// compared in ASCII lowercase.
pub open spec fn declared_all(s: StyleView, ds: Seq<Declaration>) -> StyleView
    decreases ds.len(),
{
    if ds.len() == 0 {
        s
    } else {
        let d = ds.last();
        declared(declared_all(s, ds.drop_last()), ascii_lower_seq(d.name@), d.value)
    }
}

/// Whether one part of a selector holds of an element: its type (without
/// ASCII case), a class, its id, the presence of an attribute, or `*`.
/// Pseudo-classes and pseudo-elements describe states and generated
/// content that a static document has not, and hold of no element.
pub open spec fn part_matches(p: SelectorPart, e: Element) -> bool {
    match p {
        SelectorPart::Type(t) => element_matches(e, ElementQuery::Tag, t@),
        SelectorPart::Class(c) => element_matches(e, ElementQuery::Class, c@),
        SelectorPart::Id(i) => element_matches(e, ElementQuery::Id, i@),
        SelectorPart::Attribute { name } => attr_of(e.attributes@, name@) is Some,
        SelectorPart::Universal => true,
        _ => false,
    }
}

/// A selector matches an element when every one of its parts does.
pub open spec fn selector_matches(sel: Selector, e: Element) -> bool {
    forall|i: int| 0 <= i < sel.parts@.len() ==> part_matches(#[trigger] sel.parts@[i], e)
}

fn part_matches_exec(p: &SelectorPart, e: &Element) -> (r: bool)
    ensures
        r == part_matches(*p, *e),
{
    match p {
        SelectorPart::Type(t) => matches_query(e, ElementQuery::Tag, t.as_str()),
        SelectorPart::Class(c) => matches_query(e, ElementQuery::Class, c.as_str()),
        SelectorPart::Id(i) => matches_query(e, ElementQuery::Id, i.as_str()),
        SelectorPart::Attribute { name } => e.has_attr(name.as_str()),
        SelectorPart::Universal => true,
        _ => false,
    }
}

/// Whether the selector matches the element.
pub fn selector_matches_exec(sel: &Selector, e: &Element) -> (r: bool)
    ensures
        r == selector_matches(*sel, *e),
{
    let mut i: usize = 0;
    while i < sel.parts.len()
        invariant
            i <= sel.parts@.len(),
            forall|j: int| 0 <= j < i ==> part_matches(#[trigger] sel.parts@[j], *e),
        decreases sel.parts@.len() - i,
    {
        if !part_matches_exec(&sel.parts[i], e) {
            return false;
        }
        i = i + 1;
    }
    true
}

/// A user-agent declaration value: a keyword, a length in pixels or ems
/// (single-precision bits), or a `#rrggbb` color.
pub enum DeclSpec {
    Keyword(Seq<char>),
    Px(u32),
    Em(u32),
    Hex(u32),
    Other,
}

/// A declaration as a name and a value of the user-agent kinds.
pub open spec fn decl_view(d: Declaration) -> (Seq<char>, DeclSpec) {
    (d.name@, match d.value {
        CssValue::Ident(s) => DeclSpec::Keyword(s@),
        CssValue::Length(b, crate::css::Unit::Px) => DeclSpec::Px(b.0),
        CssValue::Length(b, crate::css::Unit::Em) => DeclSpec::Em(b.0),
        CssValue::HexColor(h) => DeclSpec::Hex(h),
        _ => DeclSpec::Other,
    })
}

/// The element type a selector of one type part names.
pub open spec fn selector_tag(sel: Selector) -> Option<Seq<char>> {
    if sel.parts@.len() == 1 && sel.parts@[0] is Type {
        match sel.parts@[0] {
            SelectorPart::Type(t) => Some(t@),
            _ => None,
        }
    } else {
        None
    }
}

/// Rules of one type selector each, as types and declarations.
pub open spec fn rules_view(rs: Seq<(Selector, Vec<Declaration>)>) -> Seq<(Option<Seq<char>>, Seq<(Seq<char>, DeclSpec)>)> {
    rs.map_values(|r: (Selector, Vec<Declaration>)| (selector_tag(r.0), r.1@.map_values(|x: Declaration| decl_view(x))))
}

fn type_rule(tag: &str, decls: Vec<Declaration>) -> (r: (Selector, Vec<Declaration>))
    ensures
        selector_tag(r.0) == Some(tag@),
        r.1@ == decls@,
{
    let mut parts: Vec<SelectorPart> = Vec::new();
    parts.push(SelectorPart::Type(String::from_str(tag)));
    (Selector { parts }, decls)
}

/// The style after the matching rules of `rs`, in order.
pub open spec fn after_rules(s: StyleView, rs: Seq<(Selector, Vec<Declaration>)>, e: Element) -> StyleView
    decreases rs.len(),
{
    if rs.len() == 0 {
        s
    } else {
        let t = after_rules(s, rs.drop_last(), e);
        if selector_matches(rs.last().0, e) { declared_all(t, rs.last().1@) } else { t }
    }
}

/// Specificity as ID count, class-like count and type count.
pub open spec fn rule_specificity(r: StyleRule) -> (int, int, int) {
    specificity_of(r.selector.parts@)
}

/// `a` orders no later than `b`: compared by ID count, then class-like
/// count, then type count.
pub open spec fn specificity_le(a: (int, int, int), b: (int, int, int)) -> bool {
    a.0 < b.0 || (a.0 == b.0 && (a.1 < b.1 || (a.1 == b.1 && a.2 <= b.2)))
}

/// The style rules of the stylesheets, in order, whose selectors match.
pub open spec fn matching_rules(sheets: Seq<Stylesheet>, e: Element) -> Seq<StyleRule>
    decreases sheets.len(),
{
    if sheets.len() == 0 {
        Seq::empty()
    } else {
        matching_rules(sheets.drop_last(), e) + matching_in(sheets.last().rules@, e)
    }
}

/// The style rules among `rs` whose selectors match, in order.
pub open spec fn matching_in(rs: Seq<Rule>, e: Element) -> Seq<StyleRule>
    decreases rs.len(),
{
    if rs.len() == 0 {
        Seq::empty()
    } else {
        let before = matching_in(rs.drop_last(), e);
        match rs.last() {
            Rule::Style(r) => if selector_matches(r.selector, e) { before.push(r) } else { before },
            _ => before,
        }
    }
}

/// Where `x` goes among `s`: after the last rule whose specificity is no
/// greater than its own.
pub open spec fn insert_position(s: Seq<StyleRule>, x: StyleRule) -> int
    decreases s.len(),
{
    if s.len() == 0 {
        0
    } else if specificity_le(rule_specificity(s.last()), rule_specificity(x)) {
        s.len() as int
    } else {
        insert_position(s.drop_last(), x)
    }
}

/// The rules ordered by specificity, lowest first; rules of equal
/// specificity keep their order (a stable sort).
pub open spec fn by_specificity(rs: Seq<StyleRule>) -> Seq<StyleRule>
    decreases rs.len(),
{
    if rs.len() == 0 {
        Seq::empty()
    } else {
        let s = by_specificity(rs.drop_last());
        s.insert(insert_position(s, rs.last()), rs.last())
    }
}

/// The style after the declarations of each rule of `rs`, in order.
pub open spec fn after_style_rules(s: StyleView, rs: Seq<StyleRule>) -> StyleView
    decreases rs.len(),
{
    if rs.len() == 0 {
        s
    } else {
        declared_all(after_style_rules(s, rs.drop_last()), rs.last().declarations@)
    }
}

/// Every selector of the stylesheets has at most `u32::MAX` parts, so its
/// specificity counts fit.
pub open spec fn selectors_fit(sheets: Seq<Stylesheet>) -> bool {
    forall|i: int, j: int| 0 <= i < sheets.len() && 0 <= j < sheets[i].rules@.len()
        ==> (#[trigger] sheets[i].rules@[j] matches Rule::Style(r) ==> r.selector.parts@.len() <= u32::MAX)
}

/// Style resolver that matches CSS rules to elements
#[derive(Debug)]
pub struct StyleResolver {
    pub stylesheets: Vec<Stylesheet>,
    pub default_styles: Vec<(Selector, Vec<Declaration>)>,
}

/// The computed style of `e`: initial values, the inherited properties of
/// the parent, the matching user-agent rules in order, then the matching
/// author rules ordered by specificity (stable).
pub open spec fn cascade(r: StyleResolver, e: Element, parent: Option<StyleView>) -> StyleView {
    let s0 = initial_style();
    let s1 = match parent {
        Some(p) => inherited(s0, p),
        None => s0,
    };
    let s2 = after_rules(s1, r.default_styles@, e);
    after_style_rules(s2, by_specificity(matching_rules(r.stylesheets@, e)))
}

impl StyleResolver {
    pub fn new() -> (r: Self)
        ensures
            rules_view(r.default_styles@) == default_rules_view(),
            r.stylesheets@.len() == 0,
    {
        let mut resolver = StyleResolver { stylesheets: Vec::new(), default_styles: Vec::new() };
        resolver.init_default_styles();
        resolver
    }

    /// Add a stylesheet
    pub fn add_stylesheet(&mut self, stylesheet: Stylesheet)
        ensures
            final(self).stylesheets@ == old(self).stylesheets@.push(stylesheet),
            final(self).default_styles@ == old(self).default_styles@,
    {
        self.stylesheets.push(stylesheet);
    }

    /// Apply initial values to all properties
    pub fn apply_initial_values(&self, style: &mut ComputedStyle)
        ensures
            final(style)@ == initial_style(),
    {
        *style = initial_computed_style();
    }

    /// Apply inherited values from parent
    pub fn apply_inheritance(&self, style: &mut ComputedStyle, parent: &ComputedStyle)
        ensures
            final(style)@ == inherited(old(style)@, parent@),
    {
        proof { reveal(style_view); }
        style.color = parent.color;
        style.font_family = copy_strings(&parent.font_family);
        style.font_size = parent.font_size;
        style.font_weight = parent.font_weight;
        style.font_style = parent.font_style;
        style.line_height = parent.line_height;
        style.text_align = parent.text_align;
        style.text_decoration = parent.text_decoration;
        style.text_transform = parent.text_transform;
        style.white_space = parent.white_space;
        style.word_wrap = parent.word_wrap;
        style.letter_spacing = parent.letter_spacing;
        style.word_spacing = parent.word_spacing;
        style.visibility = parent.visibility;
        style.orphans = parent.orphans;
        style.widows = parent.widows;
        style.list_style_type = parent.list_style_type;
        style.list_style_image = match &parent.list_style_image {
            Some(s) => Some(s.clone()),
            None => None,
        };
        style.list_style_position = parent.list_style_position;
    }

    /// Apply a single declaration to the style
    pub fn apply_declaration(&self, style: &mut ComputedStyle, decl: &Declaration)
        ensures
            final(style)@ == declared(old(style)@, ascii_lower_seq(decl.name@), decl.value),
    {
        let name = lower_chars(decl.name.as_str());
        let value = &decl.value;
        if apply_box(style, &name, value) {
        } else if apply_border(style, &name, value) {
        } else if apply_text(style, &name, value) {
        } else if apply_visual(style, &name, value) {
        } else if apply_print(style, &name, value) {
        } else if apply_grid(style, &name, value) {
        } else if apply_table(style, &name, value) {
        }
    }

    /// Applies the declarations in order.
    fn apply_declarations(&self, style: &mut ComputedStyle, decls: &Vec<Declaration>)
        ensures
            final(style)@ == declared_all(old(style)@, decls@),
    {
        let ghost s0 = style@;
        let mut i: usize = 0;
        assert(decls@.take(0) =~= Seq::<Declaration>::empty());
        while i < decls.len()
            invariant
                i <= decls@.len(),
                style@ == declared_all(s0, decls@.take(i as int)),
            decreases decls@.len() - i,
        {
            assert(decls@.take(i + 1).drop_last() =~= decls@.take(i as int));
            self.apply_declaration(style, &decls[i]);
            i = i + 1;
        }
        assert(decls@.take(decls@.len() as int) =~= decls@);
    }

    /// Apply default styles matching the element
    fn apply_default_styles(&self, element: &Element, style: &mut ComputedStyle)
        ensures
            final(style)@ == after_rules(old(style)@, self.default_styles@, *element),
    {
        let ghost s0 = style@;
        let rs = &self.default_styles;
        let mut i: usize = 0;
        assert(rs@.take(0) =~= Seq::<(Selector, Vec<Declaration>)>::empty());
        while i < rs.len()
            invariant
                i <= rs@.len(),
                rs == &self.default_styles,
                style@ == after_rules(s0, rs@.take(i as int), *element),
            decreases rs@.len() - i,
        {
            assert(rs@.take(i + 1).drop_last() =~= rs@.take(i as int));
            if selector_matches_exec(&rs[i].0, element) {
                self.apply_declarations(style, &rs[i].1);
            }
            i = i + 1;
        }
        assert(rs@.take(rs@.len() as int) =~= rs@);
    }
}

/// The display value of a style's values is the style's own.
pub proof fn lemma_display_of_view(st: ComputedStyle)
    ensures
        st@.display == st.display,
{
    reveal(style_view);
}

/// A copy of a list of strings.
fn copy_strings(v: &Vec<String>) -> (r: Vec<String>)
    ensures
        r@ == v@,
{
    let mut r: Vec<String> = Vec::new();
    let mut i: usize = 0;
    while i < v.len()
        invariant
            i <= v@.len(),
            r@ =~= v@.take(i as int),
        decreases v@.len() - i,
    {
        r.push(v[i].clone());
        assert(v@.take(i + 1) =~= v@.take(i as int).push(v@[i as int]));
        i = i + 1;
    }
    assert(v@.take(v@.len() as int) =~= v@);
    r
}


/// The user-agent rules: for each element type in order, its declarations.
pub open spec fn default_rules_view() -> Seq<(Option<Seq<char>>, Seq<(Seq<char>, DeclSpec)>)> {
    seq![
        (Some("body"@), seq![("display"@, DeclSpec::Keyword("block"@)), ("margin"@, DeclSpec::Px(0x41000000))]),
        (Some("h1"@), seq![("display"@, DeclSpec::Keyword("block"@)), ("font-weight"@, DeclSpec::Keyword("bold"@)), ("font-size"@, DeclSpec::Em(0x40000000)), ("margin-top"@, DeclSpec::Em(0x3F2B851F)), ("margin-bottom"@, DeclSpec::Em(0x3F2B851F))]),
        (Some("h2"@), seq![("display"@, DeclSpec::Keyword("block"@)), ("font-weight"@, DeclSpec::Keyword("bold"@)), ("font-size"@, DeclSpec::Em(0x3FC00000)), ("margin-top"@, DeclSpec::Em(0x3F2B851F)), ("margin-bottom"@, DeclSpec::Em(0x3F2B851F))]),
        (Some("h3"@), seq![("display"@, DeclSpec::Keyword("block"@)), ("font-weight"@, DeclSpec::Keyword("bold"@)), ("font-size"@, DeclSpec::Em(0x3F95C28F)), ("margin-top"@, DeclSpec::Em(0x3F2B851F)), ("margin-bottom"@, DeclSpec::Em(0x3F2B851F))]),
        (Some("h4"@), seq![("display"@, DeclSpec::Keyword("block"@)), ("font-weight"@, DeclSpec::Keyword("bold"@)), ("font-size"@, DeclSpec::Em(0x3F800000)), ("margin-top"@, DeclSpec::Em(0x3F2B851F)), ("margin-bottom"@, DeclSpec::Em(0x3F2B851F))]),
        (Some("h5"@), seq![("display"@, DeclSpec::Keyword("block"@)), ("font-weight"@, DeclSpec::Keyword("bold"@)), ("font-size"@, DeclSpec::Em(0x3F547AE1)), ("margin-top"@, DeclSpec::Em(0x3F2B851F)), ("margin-bottom"@, DeclSpec::Em(0x3F2B851F))]),
        (Some("h6"@), seq![("display"@, DeclSpec::Keyword("block"@)), ("font-weight"@, DeclSpec::Keyword("bold"@)), ("font-size"@, DeclSpec::Em(0x3F2B851F)), ("margin-top"@, DeclSpec::Em(0x3F2B851F)), ("margin-bottom"@, DeclSpec::Em(0x3F2B851F))]),
        (Some("p"@), seq![("display"@, DeclSpec::Keyword("block"@)), ("margin-top"@, DeclSpec::Em(0x3F800000)), ("margin-bottom"@, DeclSpec::Em(0x3F800000))]),
        (Some("div"@), seq![("display"@, DeclSpec::Keyword("block"@))]),
        (Some("span"@), seq![("display"@, DeclSpec::Keyword("inline"@))]),
        (Some("strong"@), seq![("font-weight"@, DeclSpec::Keyword("bold"@))]),
        (Some("b"@), seq![("font-weight"@, DeclSpec::Keyword("bold"@))]),
        (Some("em"@), seq![("font-style"@, DeclSpec::Keyword("italic"@))]),
        (Some("i"@), seq![("font-style"@, DeclSpec::Keyword("italic"@))]),
        (Some("img"@), seq![("display"@, DeclSpec::Keyword("inline"@))]),
        (Some("ul"@), seq![("display"@, DeclSpec::Keyword("block"@)), ("list-style-type"@, DeclSpec::Keyword("disc"@)), ("padding-left"@, DeclSpec::Px(0x42200000))]),
        (Some("ol"@), seq![("display"@, DeclSpec::Keyword("block"@)), ("list-style-type"@, DeclSpec::Keyword("decimal"@)), ("padding-left"@, DeclSpec::Px(0x42200000))]),
        (Some("li"@), seq![("display"@, DeclSpec::Keyword("list-item"@))]),
        (Some("input"@), seq![("display"@, DeclSpec::Keyword("inline-block"@)), ("border-top-width"@, DeclSpec::Px(0x3F800000)), ("border-right-width"@, DeclSpec::Px(0x3F800000)), ("border-bottom-width"@, DeclSpec::Px(0x3F800000)), ("border-left-width"@, DeclSpec::Px(0x3F800000)), ("border-top-style"@, DeclSpec::Keyword("solid"@)), ("border-right-style"@, DeclSpec::Keyword("solid"@)), ("border-bottom-style"@, DeclSpec::Keyword("solid"@)), ("border-left-style"@, DeclSpec::Keyword("solid"@)), ("border-top-color"@, DeclSpec::Hex(0x999999)), ("border-right-color"@, DeclSpec::Hex(0x999999)), ("border-bottom-color"@, DeclSpec::Hex(0x999999)), ("border-left-color"@, DeclSpec::Hex(0x999999)), ("background-color"@, DeclSpec::Hex(0xFFFFFF)), ("padding-top"@, DeclSpec::Px(0x40800000)), ("padding-right"@, DeclSpec::Px(0x41000000)), ("padding-bottom"@, DeclSpec::Px(0x40800000)), ("padding-left"@, DeclSpec::Px(0x41000000)), ("margin-top"@, DeclSpec::Px(0x40000000)), ("margin-bottom"@, DeclSpec::Px(0x40000000))]),
        (Some("textarea"@), seq![("display"@, DeclSpec::Keyword("inline-block"@)), ("border-top-width"@, DeclSpec::Px(0x3F800000)), ("border-right-width"@, DeclSpec::Px(0x3F800000)), ("border-bottom-width"@, DeclSpec::Px(0x3F800000)), ("border-left-width"@, DeclSpec::Px(0x3F800000)), ("border-top-style"@, DeclSpec::Keyword("solid"@)), ("border-right-style"@, DeclSpec::Keyword("solid"@)), ("border-bottom-style"@, DeclSpec::Keyword("solid"@)), ("border-left-style"@, DeclSpec::Keyword("solid"@)), ("border-top-color"@, DeclSpec::Hex(0x999999)), ("border-right-color"@, DeclSpec::Hex(0x999999)), ("border-bottom-color"@, DeclSpec::Hex(0x999999)), ("border-left-color"@, DeclSpec::Hex(0x999999)), ("background-color"@, DeclSpec::Hex(0xFFFFFF)), ("padding-top"@, DeclSpec::Px(0x40C00000)), ("padding-right"@, DeclSpec::Px(0x41000000)), ("padding-bottom"@, DeclSpec::Px(0x40C00000)), ("padding-left"@, DeclSpec::Px(0x41000000)), ("margin-top"@, DeclSpec::Px(0x40000000)), ("margin-bottom"@, DeclSpec::Px(0x40000000))]),
        (Some("select"@), seq![("display"@, DeclSpec::Keyword("inline-block"@)), ("border-top-width"@, DeclSpec::Px(0x3F800000)), ("border-right-width"@, DeclSpec::Px(0x3F800000)), ("border-bottom-width"@, DeclSpec::Px(0x3F800000)), ("border-left-width"@, DeclSpec::Px(0x3F800000)), ("border-top-style"@, DeclSpec::Keyword("solid"@)), ("border-right-style"@, DeclSpec::Keyword("solid"@)), ("border-bottom-style"@, DeclSpec::Keyword("solid"@)), ("border-left-style"@, DeclSpec::Keyword("solid"@)), ("border-top-color"@, DeclSpec::Hex(0x999999)), ("border-right-color"@, DeclSpec::Hex(0x999999)), ("border-bottom-color"@, DeclSpec::Hex(0x999999)), ("border-left-color"@, DeclSpec::Hex(0x999999)), ("background-color"@, DeclSpec::Hex(0xFFFFFF)), ("padding-top"@, DeclSpec::Px(0x40800000)), ("padding-right"@, DeclSpec::Px(0x41000000)), ("padding-bottom"@, DeclSpec::Px(0x40800000)), ("padding-left"@, DeclSpec::Px(0x41000000)), ("margin-top"@, DeclSpec::Px(0x40000000)), ("margin-bottom"@, DeclSpec::Px(0x40000000))]),
        (Some("button"@), seq![("display"@, DeclSpec::Keyword("inline-block"@)), ("border-top-width"@, DeclSpec::Px(0x3F800000)), ("border-right-width"@, DeclSpec::Px(0x3F800000)), ("border-bottom-width"@, DeclSpec::Px(0x3F800000)), ("border-left-width"@, DeclSpec::Px(0x3F800000)), ("border-top-style"@, DeclSpec::Keyword("solid"@)), ("border-right-style"@, DeclSpec::Keyword("solid"@)), ("border-bottom-style"@, DeclSpec::Keyword("solid"@)), ("border-left-style"@, DeclSpec::Keyword("solid"@)), ("border-top-color"@, DeclSpec::Hex(0x999999)), ("border-right-color"@, DeclSpec::Hex(0x999999)), ("border-bottom-color"@, DeclSpec::Hex(0x999999)), ("border-left-color"@, DeclSpec::Hex(0x999999)), ("background-color"@, DeclSpec::Hex(0xF0F0F0)), ("padding-top"@, DeclSpec::Px(0x40C00000)), ("padding-right"@, DeclSpec::Px(0x41800000)), ("padding-bottom"@, DeclSpec::Px(0x40C00000)), ("padding-left"@, DeclSpec::Px(0x41800000)), ("margin-top"@, DeclSpec::Px(0x40000000)), ("margin-bottom"@, DeclSpec::Px(0x40000000))]),
        (Some("label"@), seq![("display"@, DeclSpec::Keyword("inline"@)), ("margin-right"@, DeclSpec::Px(0x40800000))]),
        (Some("table"@), seq![("display"@, DeclSpec::Keyword("table"@)), ("border-spacing"@, DeclSpec::Px(0x40000000)), ("border-collapse"@, DeclSpec::Keyword("separate"@))]),
        (Some("caption"@), seq![("display"@, DeclSpec::Keyword("table-caption"@)), ("text-align"@, DeclSpec::Keyword("center"@))]),
        (Some("colgroup"@), seq![("display"@, DeclSpec::Keyword("table-column-group"@))]),
        (Some("col"@), seq![("display"@, DeclSpec::Keyword("table-column"@))]),
        (Some("thead"@), seq![("display"@, DeclSpec::Keyword("table-header-group"@))]),
        (Some("tbody"@), seq![("display"@, DeclSpec::Keyword("table-row-group"@))]),
        (Some("tfoot"@), seq![("display"@, DeclSpec::Keyword("table-footer-group"@))]),
        (Some("tr"@), seq![("display"@, DeclSpec::Keyword("table-row"@))]),
        (Some("td"@), seq![("display"@, DeclSpec::Keyword("table-cell"@)), ("padding"@, DeclSpec::Px(0x3F800000))]),
        (Some("th"@), seq![("display"@, DeclSpec::Keyword("table-cell"@)), ("font-weight"@, DeclSpec::Keyword("bold"@)), ("text-align"@, DeclSpec::Keyword("center"@)), ("padding"@, DeclSpec::Px(0x3F800000))]),
    ]
}

impl StyleResolver {
    /// Initialize default browser styles
    fn init_default_styles(&mut self)
        requires
            old(self).default_styles@.len() == 0,
        ensures
            rules_view(final(self).default_styles@) == default_rules_view(),
            final(self).stylesheets@ == old(self).stylesheets@,
    {
        let d = vec![Declaration::new("display", CssValue::Ident(String::from_str("block"))), Declaration::new("margin", CssValue::Length(F32Bits(0x41000000), Unit::Px))];
        assert(d@.map_values(|x: Declaration| decl_view(x)) =~= default_rules_view()[0].1);
        self.default_styles.push(type_rule("body", d));
        assert(rules_view(self.default_styles@) =~= default_rules_view().take(1));
        let d = vec![Declaration::new("display", CssValue::Ident(String::from_str("block"))), Declaration::new("font-weight", CssValue::Ident(String::from_str("bold"))), Declaration::new("font-size", CssValue::Length(F32Bits(0x40000000), Unit::Em)), Declaration::new("margin-top", CssValue::Length(F32Bits(0x3F2B851F), Unit::Em)), Declaration::new("margin-bottom", CssValue::Length(F32Bits(0x3F2B851F), Unit::Em))];
        assert(d@.map_values(|x: Declaration| decl_view(x)) =~= default_rules_view()[1].1);
        self.default_styles.push(type_rule("h1", d));
        assert(rules_view(self.default_styles@) =~= default_rules_view().take(2));
        let d = vec![Declaration::new("display", CssValue::Ident(String::from_str("block"))), Declaration::new("font-weight", CssValue::Ident(String::from_str("bold"))), Declaration::new("font-size", CssValue::Length(F32Bits(0x3FC00000), Unit::Em)), Declaration::new("margin-top", CssValue::Length(F32Bits(0x3F2B851F), Unit::Em)), Declaration::new("margin-bottom", CssValue::Length(F32Bits(0x3F2B851F), Unit::Em))];
        assert(d@.map_values(|x: Declaration| decl_view(x)) =~= default_rules_view()[2].1);
        self.default_styles.push(type_rule("h2", d));
        assert(rules_view(self.default_styles@) =~= default_rules_view().take(3));
        let d = vec![Declaration::new("display", CssValue::Ident(String::from_str("block"))), Declaration::new("font-weight", CssValue::Ident(String::from_str("bold"))), Declaration::new("font-size", CssValue::Length(F32Bits(0x3F95C28F), Unit::Em)), Declaration::new("margin-top", CssValue::Length(F32Bits(0x3F2B851F), Unit::Em)), Declaration::new("margin-bottom", CssValue::Length(F32Bits(0x3F2B851F), Unit::Em))];
        assert(d@.map_values(|x: Declaration| decl_view(x)) =~= default_rules_view()[3].1);
        self.default_styles.push(type_rule("h3", d));
        assert(rules_view(self.default_styles@) =~= default_rules_view().take(4));
        let d = vec![Declaration::new("display", CssValue::Ident(String::from_str("block"))), Declaration::new("font-weight", CssValue::Ident(String::from_str("bold"))), Declaration::new("font-size", CssValue::Length(F32Bits(0x3F800000), Unit::Em)), Declaration::new("margin-top", CssValue::Length(F32Bits(0x3F2B851F), Unit::Em)), Declaration::new("margin-bottom", CssValue::Length(F32Bits(0x3F2B851F), Unit::Em))];
        assert(d@.map_values(|x: Declaration| decl_view(x)) =~= default_rules_view()[4].1);
        self.default_styles.push(type_rule("h4", d));
        assert(rules_view(self.default_styles@) =~= default_rules_view().take(5));
        let d = vec![Declaration::new("display", CssValue::Ident(String::from_str("block"))), Declaration::new("font-weight", CssValue::Ident(String::from_str("bold"))), Declaration::new("font-size", CssValue::Length(F32Bits(0x3F547AE1), Unit::Em)), Declaration::new("margin-top", CssValue::Length(F32Bits(0x3F2B851F), Unit::Em)), Declaration::new("margin-bottom", CssValue::Length(F32Bits(0x3F2B851F), Unit::Em))];
        assert(d@.map_values(|x: Declaration| decl_view(x)) =~= default_rules_view()[5].1);
        self.default_styles.push(type_rule("h5", d));
        assert(rules_view(self.default_styles@) =~= default_rules_view().take(6));
        let d = vec![Declaration::new("display", CssValue::Ident(String::from_str("block"))), Declaration::new("font-weight", CssValue::Ident(String::from_str("bold"))), Declaration::new("font-size", CssValue::Length(F32Bits(0x3F2B851F), Unit::Em)), Declaration::new("margin-top", CssValue::Length(F32Bits(0x3F2B851F), Unit::Em)), Declaration::new("margin-bottom", CssValue::Length(F32Bits(0x3F2B851F), Unit::Em))];
        assert(d@.map_values(|x: Declaration| decl_view(x)) =~= default_rules_view()[6].1);
        self.default_styles.push(type_rule("h6", d));
        assert(rules_view(self.default_styles@) =~= default_rules_view().take(7));
        let d = vec![Declaration::new("display", CssValue::Ident(String::from_str("block"))), Declaration::new("margin-top", CssValue::Length(F32Bits(0x3F800000), Unit::Em)), Declaration::new("margin-bottom", CssValue::Length(F32Bits(0x3F800000), Unit::Em))];
        assert(d@.map_values(|x: Declaration| decl_view(x)) =~= default_rules_view()[7].1);
        self.default_styles.push(type_rule("p", d));
        assert(rules_view(self.default_styles@) =~= default_rules_view().take(8));
        let d = vec![Declaration::new("display", CssValue::Ident(String::from_str("block")))];
        assert(d@.map_values(|x: Declaration| decl_view(x)) =~= default_rules_view()[8].1);
        self.default_styles.push(type_rule("div", d));
        assert(rules_view(self.default_styles@) =~= default_rules_view().take(9));
        let d = vec![Declaration::new("display", CssValue::Ident(String::from_str("inline")))];
        assert(d@.map_values(|x: Declaration| decl_view(x)) =~= default_rules_view()[9].1);
        self.default_styles.push(type_rule("span", d));
        assert(rules_view(self.default_styles@) =~= default_rules_view().take(10));
        let d = vec![Declaration::new("font-weight", CssValue::Ident(String::from_str("bold")))];
        assert(d@.map_values(|x: Declaration| decl_view(x)) =~= default_rules_view()[10].1);
        self.default_styles.push(type_rule("strong", d));
        assert(rules_view(self.default_styles@) =~= default_rules_view().take(11));
        let d = vec![Declaration::new("font-weight", CssValue::Ident(String::from_str("bold")))];
        assert(d@.map_values(|x: Declaration| decl_view(x)) =~= default_rules_view()[11].1);
        self.default_styles.push(type_rule("b", d));
        assert(rules_view(self.default_styles@) =~= default_rules_view().take(12));
        let d = vec![Declaration::new("font-style", CssValue::Ident(String::from_str("italic")))];
        assert(d@.map_values(|x: Declaration| decl_view(x)) =~= default_rules_view()[12].1);
        self.default_styles.push(type_rule("em", d));
        assert(rules_view(self.default_styles@) =~= default_rules_view().take(13));
        let d = vec![Declaration::new("font-style", CssValue::Ident(String::from_str("italic")))];
        assert(d@.map_values(|x: Declaration| decl_view(x)) =~= default_rules_view()[13].1);
        self.default_styles.push(type_rule("i", d));
        assert(rules_view(self.default_styles@) =~= default_rules_view().take(14));
        let d = vec![Declaration::new("display", CssValue::Ident(String::from_str("inline")))];
        assert(d@.map_values(|x: Declaration| decl_view(x)) =~= default_rules_view()[14].1);
        self.default_styles.push(type_rule("img", d));
        assert(rules_view(self.default_styles@) =~= default_rules_view().take(15));
        let d = vec![Declaration::new("display", CssValue::Ident(String::from_str("block"))), Declaration::new("list-style-type", CssValue::Ident(String::from_str("disc"))), Declaration::new("padding-left", CssValue::Length(F32Bits(0x42200000), Unit::Px))];
        assert(d@.map_values(|x: Declaration| decl_view(x)) =~= default_rules_view()[15].1);
        self.default_styles.push(type_rule("ul", d));
        assert(rules_view(self.default_styles@) =~= default_rules_view().take(16));
        let d = vec![Declaration::new("display", CssValue::Ident(String::from_str("block"))), Declaration::new("list-style-type", CssValue::Ident(String::from_str("decimal"))), Declaration::new("padding-left", CssValue::Length(F32Bits(0x42200000), Unit::Px))];
        assert(d@.map_values(|x: Declaration| decl_view(x)) =~= default_rules_view()[16].1);
        self.default_styles.push(type_rule("ol", d));
        assert(rules_view(self.default_styles@) =~= default_rules_view().take(17));
        let d = vec![Declaration::new("display", CssValue::Ident(String::from_str("list-item")))];
        assert(d@.map_values(|x: Declaration| decl_view(x)) =~= default_rules_view()[17].1);
        self.default_styles.push(type_rule("li", d));
        assert(rules_view(self.default_styles@) =~= default_rules_view().take(18));
        let d = vec![Declaration::new("display", CssValue::Ident(String::from_str("inline-block"))), Declaration::new("border-top-width", CssValue::Length(F32Bits(0x3F800000), Unit::Px)), Declaration::new("border-right-width", CssValue::Length(F32Bits(0x3F800000), Unit::Px)), Declaration::new("border-bottom-width", CssValue::Length(F32Bits(0x3F800000), Unit::Px)), Declaration::new("border-left-width", CssValue::Length(F32Bits(0x3F800000), Unit::Px)), Declaration::new("border-top-style", CssValue::Ident(String::from_str("solid"))), Declaration::new("border-right-style", CssValue::Ident(String::from_str("solid"))), Declaration::new("border-bottom-style", CssValue::Ident(String::from_str("solid"))), Declaration::new("border-left-style", CssValue::Ident(String::from_str("solid"))), Declaration::new("border-top-color", CssValue::HexColor(0x999999)), Declaration::new("border-right-color", CssValue::HexColor(0x999999)), Declaration::new("border-bottom-color", CssValue::HexColor(0x999999)), Declaration::new("border-left-color", CssValue::HexColor(0x999999)), Declaration::new("background-color", CssValue::HexColor(0xFFFFFF)), Declaration::new("padding-top", CssValue::Length(F32Bits(0x40800000), Unit::Px)), Declaration::new("padding-right", CssValue::Length(F32Bits(0x41000000), Unit::Px)), Declaration::new("padding-bottom", CssValue::Length(F32Bits(0x40800000), Unit::Px)), Declaration::new("padding-left", CssValue::Length(F32Bits(0x41000000), Unit::Px)), Declaration::new("margin-top", CssValue::Length(F32Bits(0x40000000), Unit::Px)), Declaration::new("margin-bottom", CssValue::Length(F32Bits(0x40000000), Unit::Px))];
        assert(d@.map_values(|x: Declaration| decl_view(x)) =~= default_rules_view()[18].1);
        self.default_styles.push(type_rule("input", d));
        assert(rules_view(self.default_styles@) =~= default_rules_view().take(19));
        let d = vec![Declaration::new("display", CssValue::Ident(String::from_str("inline-block"))), Declaration::new("border-top-width", CssValue::Length(F32Bits(0x3F800000), Unit::Px)), Declaration::new("border-right-width", CssValue::Length(F32Bits(0x3F800000), Unit::Px)), Declaration::new("border-bottom-width", CssValue::Length(F32Bits(0x3F800000), Unit::Px)), Declaration::new("border-left-width", CssValue::Length(F32Bits(0x3F800000), Unit::Px)), Declaration::new("border-top-style", CssValue::Ident(String::from_str("solid"))), Declaration::new("border-right-style", CssValue::Ident(String::from_str("solid"))), Declaration::new("border-bottom-style", CssValue::Ident(String::from_str("solid"))), Declaration::new("border-left-style", CssValue::Ident(String::from_str("solid"))), Declaration::new("border-top-color", CssValue::HexColor(0x999999)), Declaration::new("border-right-color", CssValue::HexColor(0x999999)), Declaration::new("border-bottom-color", CssValue::HexColor(0x999999)), Declaration::new("border-left-color", CssValue::HexColor(0x999999)), Declaration::new("background-color", CssValue::HexColor(0xFFFFFF)), Declaration::new("padding-top", CssValue::Length(F32Bits(0x40C00000), Unit::Px)), Declaration::new("padding-right", CssValue::Length(F32Bits(0x41000000), Unit::Px)), Declaration::new("padding-bottom", CssValue::Length(F32Bits(0x40C00000), Unit::Px)), Declaration::new("padding-left", CssValue::Length(F32Bits(0x41000000), Unit::Px)), Declaration::new("margin-top", CssValue::Length(F32Bits(0x40000000), Unit::Px)), Declaration::new("margin-bottom", CssValue::Length(F32Bits(0x40000000), Unit::Px))];
        assert(d@.map_values(|x: Declaration| decl_view(x)) =~= default_rules_view()[19].1);
        self.default_styles.push(type_rule("textarea", d));
        assert(rules_view(self.default_styles@) =~= default_rules_view().take(20));
        let d = vec![Declaration::new("display", CssValue::Ident(String::from_str("inline-block"))), Declaration::new("border-top-width", CssValue::Length(F32Bits(0x3F800000), Unit::Px)), Declaration::new("border-right-width", CssValue::Length(F32Bits(0x3F800000), Unit::Px)), Declaration::new("border-bottom-width", CssValue::Length(F32Bits(0x3F800000), Unit::Px)), Declaration::new("border-left-width", CssValue::Length(F32Bits(0x3F800000), Unit::Px)), Declaration::new("border-top-style", CssValue::Ident(String::from_str("solid"))), Declaration::new("border-right-style", CssValue::Ident(String::from_str("solid"))), Declaration::new("border-bottom-style", CssValue::Ident(String::from_str("solid"))), Declaration::new("border-left-style", CssValue::Ident(String::from_str("solid"))), Declaration::new("border-top-color", CssValue::HexColor(0x999999)), Declaration::new("border-right-color", CssValue::HexColor(0x999999)), Declaration::new("border-bottom-color", CssValue::HexColor(0x999999)), Declaration::new("border-left-color", CssValue::HexColor(0x999999)), Declaration::new("background-color", CssValue::HexColor(0xFFFFFF)), Declaration::new("padding-top", CssValue::Length(F32Bits(0x40800000), Unit::Px)), Declaration::new("padding-right", CssValue::Length(F32Bits(0x41000000), Unit::Px)), Declaration::new("padding-bottom", CssValue::Length(F32Bits(0x40800000), Unit::Px)), Declaration::new("padding-left", CssValue::Length(F32Bits(0x41000000), Unit::Px)), Declaration::new("margin-top", CssValue::Length(F32Bits(0x40000000), Unit::Px)), Declaration::new("margin-bottom", CssValue::Length(F32Bits(0x40000000), Unit::Px))];
        assert(d@.map_values(|x: Declaration| decl_view(x)) =~= default_rules_view()[20].1);
        self.default_styles.push(type_rule("select", d));
        assert(rules_view(self.default_styles@) =~= default_rules_view().take(21));
        let d = vec![Declaration::new("display", CssValue::Ident(String::from_str("inline-block"))), Declaration::new("border-top-width", CssValue::Length(F32Bits(0x3F800000), Unit::Px)), Declaration::new("border-right-width", CssValue::Length(F32Bits(0x3F800000), Unit::Px)), Declaration::new("border-bottom-width", CssValue::Length(F32Bits(0x3F800000), Unit::Px)), Declaration::new("border-left-width", CssValue::Length(F32Bits(0x3F800000), Unit::Px)), Declaration::new("border-top-style", CssValue::Ident(String::from_str("solid"))), Declaration::new("border-right-style", CssValue::Ident(String::from_str("solid"))), Declaration::new("border-bottom-style", CssValue::Ident(String::from_str("solid"))), Declaration::new("border-left-style", CssValue::Ident(String::from_str("solid"))), Declaration::new("border-top-color", CssValue::HexColor(0x999999)), Declaration::new("border-right-color", CssValue::HexColor(0x999999)), Declaration::new("border-bottom-color", CssValue::HexColor(0x999999)), Declaration::new("border-left-color", CssValue::HexColor(0x999999)), Declaration::new("background-color", CssValue::HexColor(0xF0F0F0)), Declaration::new("padding-top", CssValue::Length(F32Bits(0x40C00000), Unit::Px)), Declaration::new("padding-right", CssValue::Length(F32Bits(0x41800000), Unit::Px)), Declaration::new("padding-bottom", CssValue::Length(F32Bits(0x40C00000), Unit::Px)), Declaration::new("padding-left", CssValue::Length(F32Bits(0x41800000), Unit::Px)), Declaration::new("margin-top", CssValue::Length(F32Bits(0x40000000), Unit::Px)), Declaration::new("margin-bottom", CssValue::Length(F32Bits(0x40000000), Unit::Px))];
        assert(d@.map_values(|x: Declaration| decl_view(x)) =~= default_rules_view()[21].1);
        self.default_styles.push(type_rule("button", d));
        assert(rules_view(self.default_styles@) =~= default_rules_view().take(22));
        let d = vec![Declaration::new("display", CssValue::Ident(String::from_str("inline"))), Declaration::new("margin-right", CssValue::Length(F32Bits(0x40800000), Unit::Px))];
        assert(d@.map_values(|x: Declaration| decl_view(x)) =~= default_rules_view()[22].1);
        self.default_styles.push(type_rule("label", d));
        assert(rules_view(self.default_styles@) =~= default_rules_view().take(23));
        let d = vec![Declaration::new("display", CssValue::Ident(String::from_str("table"))), Declaration::new("border-spacing", CssValue::Length(F32Bits(0x40000000), Unit::Px)), Declaration::new("border-collapse", CssValue::Ident(String::from_str("separate")))];
        assert(d@.map_values(|x: Declaration| decl_view(x)) =~= default_rules_view()[23].1);
        self.default_styles.push(type_rule("table", d));
        assert(rules_view(self.default_styles@) =~= default_rules_view().take(24));
        let d = vec![Declaration::new("display", CssValue::Ident(String::from_str("table-caption"))), Declaration::new("text-align", CssValue::Ident(String::from_str("center")))];
        assert(d@.map_values(|x: Declaration| decl_view(x)) =~= default_rules_view()[24].1);
        self.default_styles.push(type_rule("caption", d));
        assert(rules_view(self.default_styles@) =~= default_rules_view().take(25));
        let d = vec![Declaration::new("display", CssValue::Ident(String::from_str("table-column-group")))];
        assert(d@.map_values(|x: Declaration| decl_view(x)) =~= default_rules_view()[25].1);
        self.default_styles.push(type_rule("colgroup", d));
        assert(rules_view(self.default_styles@) =~= default_rules_view().take(26));
        let d = vec![Declaration::new("display", CssValue::Ident(String::from_str("table-column")))];
        assert(d@.map_values(|x: Declaration| decl_view(x)) =~= default_rules_view()[26].1);
        self.default_styles.push(type_rule("col", d));
        assert(rules_view(self.default_styles@) =~= default_rules_view().take(27));
        let d = vec![Declaration::new("display", CssValue::Ident(String::from_str("table-header-group")))];
        assert(d@.map_values(|x: Declaration| decl_view(x)) =~= default_rules_view()[27].1);
        self.default_styles.push(type_rule("thead", d));
        assert(rules_view(self.default_styles@) =~= default_rules_view().take(28));
        let d = vec![Declaration::new("display", CssValue::Ident(String::from_str("table-row-group")))];
        assert(d@.map_values(|x: Declaration| decl_view(x)) =~= default_rules_view()[28].1);
        self.default_styles.push(type_rule("tbody", d));
        assert(rules_view(self.default_styles@) =~= default_rules_view().take(29));
        let d = vec![Declaration::new("display", CssValue::Ident(String::from_str("table-footer-group")))];
        assert(d@.map_values(|x: Declaration| decl_view(x)) =~= default_rules_view()[29].1);
        self.default_styles.push(type_rule("tfoot", d));
        assert(rules_view(self.default_styles@) =~= default_rules_view().take(30));
        let d = vec![Declaration::new("display", CssValue::Ident(String::from_str("table-row")))];
        assert(d@.map_values(|x: Declaration| decl_view(x)) =~= default_rules_view()[30].1);
        self.default_styles.push(type_rule("tr", d));
        assert(rules_view(self.default_styles@) =~= default_rules_view().take(31));
        let d = vec![Declaration::new("display", CssValue::Ident(String::from_str("table-cell"))), Declaration::new("padding", CssValue::Length(F32Bits(0x3F800000), Unit::Px))];
        assert(d@.map_values(|x: Declaration| decl_view(x)) =~= default_rules_view()[31].1);
        self.default_styles.push(type_rule("td", d));
        assert(rules_view(self.default_styles@) =~= default_rules_view().take(32));
        let d = vec![Declaration::new("display", CssValue::Ident(String::from_str("table-cell"))), Declaration::new("font-weight", CssValue::Ident(String::from_str("bold"))), Declaration::new("text-align", CssValue::Ident(String::from_str("center"))), Declaration::new("padding", CssValue::Length(F32Bits(0x3F800000), Unit::Px))];
        assert(d@.map_values(|x: Declaration| decl_view(x)) =~= default_rules_view()[32].1);
        self.default_styles.push(type_rule("th", d));
        assert(rules_view(self.default_styles@) =~= default_rules_view().take(33));
        assert(default_rules_view().take(33) =~= default_rules_view());
    }
}

/// The specificity of a rule's selector, as the three counts compare.
fn specificity_le_exec(a: &StyleRule, b: &StyleRule) -> (r: bool)
    requires
        a.selector.parts@.len() <= u32::MAX,
        b.selector.parts@.len() <= u32::MAX,
    ensures
        r == specificity_le(rule_specificity(*a), rule_specificity(*b)),
{
    let x = Specificity::from_selector(&a.selector);
    let y = Specificity::from_selector(&b.selector);
    x.0 < y.0 || (x.0 == y.0 && (x.1 < y.1 || (x.1 == y.1 && x.2 <= y.2)))
}

/// The rules as values.
pub open spec fn rules_of(v: Seq<&StyleRule>) -> Seq<StyleRule> {
    v.map_values(|r: &StyleRule| *r)
}

impl StyleResolver {
    /// The matching style rules of the stylesheets, in order.
    fn collect_matching<'a>(&'a self, element: &Element) -> (r: Vec<&'a StyleRule>)
        requires
            selectors_fit(self.stylesheets@),
        ensures
            rules_of(r@) == matching_rules(self.stylesheets@, *element),
            forall|k: int| 0 <= k < r@.len() ==> (#[trigger] r@[k]).selector.parts@.len() <= u32::MAX,
    {
        let mut found: Vec<&'a StyleRule> = Vec::new();
        let sheets = &self.stylesheets;
        let mut i: usize = 0;
        assert(rules_of(found@) =~= matching_rules(sheets@.take(0), *element)) by {
            assert(sheets@.take(0) =~= Seq::<Stylesheet>::empty());
        }
        while i < sheets.len()
            invariant
                i <= sheets@.len(),
                sheets == &self.stylesheets,
                selectors_fit(sheets@),
                rules_of(found@) == matching_rules(sheets@.take(i as int), *element),
                forall|k: int| 0 <= k < found@.len() ==> (#[trigger] found@[k]).selector.parts@.len() <= u32::MAX,
            decreases sheets@.len() - i,
        {
            let rules = &sheets[i].rules;
            let ghost base = rules_of(found@);
            let mut j: usize = 0;
            assert(rules@.take(0) =~= Seq::<Rule>::empty());
            assert(base + matching_in(rules@.take(0), *element) =~= base);
            while j < rules.len()
                invariant
                    i < sheets@.len(),
                    j <= rules@.len(),
                    rules == &sheets@[i as int].rules,
                    selectors_fit(sheets@),
                    rules_of(found@) == base + matching_in(rules@.take(j as int), *element),
                    forall|k: int| 0 <= k < found@.len() ==> (#[trigger] found@[k]).selector.parts@.len() <= u32::MAX,
                decreases rules@.len() - j,
            {
                assert(rules@.take(j + 1).drop_last() =~= rules@.take(j as int));
                let ghost before = found@;
                match &rules[j] {
                    Rule::Style(r) => {
                        assert(sheets@[i as int].rules@[j as int] matches Rule::Style(q) ==> q.selector.parts@.len() <= u32::MAX);
                        if selector_matches_exec(&r.selector, element) {
                            found.push(r);
                            assert(rules_of(found@) =~= rules_of(before).push(*r));
                        }
                    },
                    _ => {},
                }
                j = j + 1;
            }
            assert(rules@.take(rules@.len() as int) =~= rules@);
            assert(sheets@.take(i + 1).drop_last() =~= sheets@.take(i as int));
            i = i + 1;
        }
        assert(sheets@.take(sheets@.len() as int) =~= sheets@);
        found
    }

    /// Apply author styles from stylesheets
    fn apply_author_styles(&self, element: &Element, style: &mut ComputedStyle)
        requires
            selectors_fit(self.stylesheets@),
        ensures
            final(style)@ == after_style_rules(old(style)@, by_specificity(matching_rules(self.stylesheets@, *element))),
    {
        let found = self.collect_matching(element);
        let ghost fv = rules_of(found@);
        let mut sorted: Vec<&StyleRule> = Vec::new();
        let mut i: usize = 0;
        assert(fv.take(0) =~= Seq::<StyleRule>::empty());
        assert(rules_of(sorted@) =~= by_specificity(fv.take(0)));
        while i < found.len()
            invariant
                i <= found@.len(),
                fv == rules_of(found@),
                rules_of(sorted@) == by_specificity(fv.take(i as int)),
                forall|k: int| 0 <= k < found@.len() ==> (#[trigger] found@[k]).selector.parts@.len() <= u32::MAX,
                forall|k: int| 0 <= k < sorted@.len() ==> (#[trigger] sorted@[k]).selector.parts@.len() <= u32::MAX,
            decreases found@.len() - i,
        {
            let x = found[i];
            let ghost s = rules_of(sorted@);
            let mut p: usize = sorted.len();
            assert(s.take(p as int) =~= s);
            while p > 0 && !specificity_le_exec(sorted[p - 1], x)
                invariant
                    p <= sorted@.len(),
                    s == rules_of(sorted@),
                    x.selector.parts@.len() <= u32::MAX,
                    forall|k: int| 0 <= k < sorted@.len() ==> (#[trigger] sorted@[k]).selector.parts@.len() <= u32::MAX,
                    insert_position(s.take(p as int), *x) == insert_position(s, *x),
                decreases p,
            {
                assert(s.take(p as int).drop_last() =~= s.take(p - 1));
                p = p - 1;
            }
            proof {
                if p > 0 {
                    assert(s.take(p as int).last() == s[p - 1]);
                }
                assert(insert_position(s.take(p as int), *x) == p);
                assert(fv.take(i + 1).drop_last() =~= fv.take(i as int));
            }
            let ghost before = sorted@;
            sorted.insert(p, x);
            assert(rules_of(sorted@) =~= s.insert(p as int, *x));
            i = i + 1;
        }
        assert(fv.take(found@.len() as int) =~= fv);
        let ghost sv = rules_of(sorted@);
        let ghost s0 = style@;
        let mut k: usize = 0;
        assert(sv.take(0) =~= Seq::<StyleRule>::empty());
        while k < sorted.len()
            invariant
                k <= sorted@.len(),
                sv == rules_of(sorted@),
                style@ == after_style_rules(s0, sv.take(k as int)),
            decreases sorted@.len() - k,
        {
            assert(sv.take(k + 1).drop_last() =~= sv.take(k as int));
            self.apply_declarations(style, &sorted[k].declarations);
            k = k + 1;
        }
        assert(sv.take(sorted@.len() as int) =~= sv);
    }

    /// Compute styles for an element
    pub fn compute_style(&self, element: &Element, parent_style: Option<&ComputedStyle>) -> (r: ComputedStyle)
        requires
            selectors_fit(self.stylesheets@),
        ensures
            r@ == cascade(*self, *element, match parent_style {
                Some(p) => Some(p@),
                None => None,
            }),
    {
        let mut style = initial_computed_style();
        self.apply_initial_values(&mut style);
        match parent_style {
            Some(parent) => self.apply_inheritance(&mut style, parent),
            None => {},
        }
        self.apply_default_styles(element, &mut style);
        self.apply_author_styles(element, &mut style);
        style
    }

    /// Resolve display type for an element
    pub fn resolve_display(&self, element: &Element) -> (r: BoxType)
        requires
            selectors_fit(self.stylesheets@),
        ensures
            r == box_type_of(cascade(*self, *element, None).display),
    {
        let style = self.compute_style(element, None);
        proof { lemma_display_of_view(style); }
        style.display.to_box_type()
    }
}

impl Default for ComputedStyle {
    /// A style holding the initial value of every property.
    fn default() -> (r: Self)
        ensures
            r@ == initial_style(),
    {
        initial_computed_style()
    }
}

impl Default for StyleResolver {
    fn default() -> (r: Self)
        ensures
            rules_view(r.default_styles@) == default_rules_view(),
            r.stylesheets@.len() == 0,
    {
        Self::new()
    }
}

} // verus!
