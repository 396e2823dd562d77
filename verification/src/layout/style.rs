//! Style property values and the keyword parsers that read them from CSS
//! values. The CSS keyword `none` is the variant named `No...` of each
//! enum (`Display::NoDisplay`, `Float::NoFloat`, ...).

use vstd::prelude::*;
use crate::css::{CssValue, Selector, SelectorPart};
use crate::pdf::print_css::StringSetValue;
use crate::layout::box_model::BoxType;
use crate::strings::{str_eq, chars_of, chars_from, chars_are, trim_chars, string_of, split_trimmed, trim, split_char};
use crate::layout::grid::{GridLine, GridAutoFlow, parse_i32, parsed_i32, parse_grid_auto_flow, auto_flow_of, line_view, auto_line};
use crate::types::{F32Bits, Length, f32_is_nan, f32_trunc, saturate};
use crate::css::Unit;

verus! {

/// Border collapse property for tables
#[derive(Debug, Clone, Copy, PartialEq, Eq, Structural)]
pub enum BorderCollapse {
    Separate,
    Collapse,
}

impl Default for BorderCollapse {
    fn default() -> (r: Self)
        ensures
            r == BorderCollapse::Separate,
    {
        BorderCollapse::Separate
    }
}

/// Caption side property for tables
#[derive(Debug, Clone, Copy, PartialEq, Eq, Structural)]
pub enum CaptionSide {
    Top,
    Bottom,
    Left,
    Right,
}

impl Default for CaptionSide {
    fn default() -> (r: Self)
        ensures
            r == CaptionSide::Top,
    {
        CaptionSide::Top
    }
}

/// Empty cells property for tables
#[derive(Debug, Clone, Copy, PartialEq, Eq, Structural)]
pub enum EmptyCells {
    Show,
    Hide,
}

impl Default for EmptyCells {
    fn default() -> (r: Self)
        ensures
            r == EmptyCells::Show,
    {
        EmptyCells::Show
    }
}

/// Table layout property
#[derive(Debug, Clone, Copy, PartialEq, Eq, Structural)]
pub enum TableLayout {
    Auto,
    Fixed,
}

impl Default for TableLayout {
    fn default() -> (r: Self)
        ensures
            r == TableLayout::Auto,
    {
        TableLayout::Auto
    }
}

/// Display property value
#[derive(Debug, Clone, Copy, PartialEq, Eq, Structural)]
pub enum Display {
    Inline,
    Block,
    InlineBlock,
    Flex,
    InlineFlex,
    Grid,
    InlineGrid,
    NoDisplay,
    ListItem,
    Table,
    InlineTable,
    TableRow,
    TableRowGroup,
    TableHeaderGroup,
    TableFooterGroup,
    TableColumn,
    TableColumnGroup,
    TableCell,
    TableCaption,
}

impl Default for Display {
    fn default() -> (r: Self)
        ensures
            r == Display::Inline,
    {
        Display::Inline
    }
}

/// The box type that a display value generates.
pub open spec fn box_type_of(d: Display) -> BoxType {
    match d {
        Display::Block | Display::Flex | Display::Grid | Display::Table | Display::InlineTable
        | Display::ListItem => BoxType::Block,
        Display::Inline | Display::InlineFlex | Display::InlineGrid => BoxType::Inline,
        Display::InlineBlock => BoxType::InlineBlock,
        Display::NoDisplay => BoxType::Anonymous,
        Display::TableRow | Display::TableRowGroup | Display::TableHeaderGroup
        | Display::TableFooterGroup => BoxType::TableRow,
        Display::TableCell => BoxType::TableCell,
        Display::TableColumn | Display::TableColumnGroup => BoxType::Table,
        Display::TableCaption => BoxType::Block,
    }
}

impl Display {
    pub fn to_box_type(&self) -> (r: BoxType)
        ensures
            r == box_type_of(*self),
    {
        match self {
            Display::Block | Display::Flex | Display::Grid | Display::Table | Display::InlineTable
            | Display::ListItem => BoxType::Block,
            Display::Inline | Display::InlineFlex | Display::InlineGrid => BoxType::Inline,
            Display::InlineBlock => BoxType::InlineBlock,
            Display::NoDisplay => BoxType::Anonymous,
            Display::TableRow | Display::TableRowGroup | Display::TableHeaderGroup
            | Display::TableFooterGroup => BoxType::TableRow,
            Display::TableCell => BoxType::TableCell,
            Display::TableColumn | Display::TableColumnGroup => BoxType::Table,
            Display::TableCaption => BoxType::Block,
        }
    }

    /// Whether the element generates no box
    pub fn is_none(&self) -> (r: bool)
        ensures
            r == (*self is NoDisplay),
    {
        match self {
            Display::NoDisplay => true,
            _ => false,
        }
    }

    /// Check if this is a table-related display type
    pub fn is_table_type(&self) -> (r: bool)
        ensures
            r == (*self is Table || *self is InlineTable || *self is TableRow || *self is TableRowGroup || *self is TableHeaderGroup || *self is TableFooterGroup || *self is TableCell || *self is TableColumn || *self is TableColumnGroup || *self is TableCaption),
    {
        match self {
            Display::Table | Display::InlineTable | Display::TableRow | Display::TableRowGroup | Display::TableHeaderGroup | Display::TableFooterGroup | Display::TableCell | Display::TableColumn | Display::TableColumnGroup | Display::TableCaption => true,
            _ => false,
        }
    }
}

/// Position property value
#[derive(Debug, Clone, Copy, PartialEq, Eq, Structural)]
pub enum Position {
    Static,
    Relative,
    Absolute,
    Fixed,
    Sticky,
}

impl Default for Position {
    fn default() -> (r: Self)
        ensures
            r == Position::Static,
    {
        Position::Static
    }
}

/// Float property value
#[derive(Debug, Clone, Copy, PartialEq, Eq, Structural)]
pub enum Float {
    NoFloat,
    Left,
    Right,
}

impl Default for Float {
    fn default() -> (r: Self)
        ensures
            r == Float::NoFloat,
    {
        Float::NoFloat
    }
}

/// Clear property value
#[derive(Debug, Clone, Copy, PartialEq, Eq, Structural)]
pub enum Clear {
    NoClear,
    Left,
    Right,
    Both,
}

impl Default for Clear {
    fn default() -> (r: Self)
        ensures
            r == Clear::NoClear,
    {
        Clear::NoClear
    }
}

/// Border style
#[derive(Debug, Clone, Copy, PartialEq, Eq, Structural)]
pub enum BorderStyle {
    NoBorder,
    Hidden,
    Solid,
    Dashed,
    Dotted,
    Double,
    Groove,
    Ridge,
    Inset,
    Outset,
}

impl Default for BorderStyle {
    fn default() -> (r: Self)
        ensures
            r == BorderStyle::NoBorder,
    {
        BorderStyle::NoBorder
    }
}

/// Font weight
#[derive(Debug, Clone, Copy, PartialEq, Eq, Structural)]
pub enum FontWeight {
    Normal,
    Bold,
    Bolder,
    Lighter,
    Number(u16),
}

impl Default for FontWeight {
    fn default() -> (r: Self)
        ensures
            r == FontWeight::Normal,
    {
        FontWeight::Normal
    }
}

/// Font style
#[derive(Debug, Clone, Copy, PartialEq, Eq, Structural)]
pub enum FontStyle {
    Normal,
    Italic,
    Oblique,
}

impl Default for FontStyle {
    fn default() -> (r: Self)
        ensures
            r == FontStyle::Normal,
    {
        FontStyle::Normal
    }
}

/// Font variant
#[derive(Debug, Clone, Copy, PartialEq, Eq, Structural)]
pub enum FontVariant {
    Normal,
    SmallCaps,
}

impl Default for FontVariant {
    fn default() -> (r: Self)
        ensures
            r == FontVariant::Normal,
    {
        FontVariant::Normal
    }
}

/// Font variant caps (more detailed control)
#[derive(Debug, Clone, Copy, PartialEq, Eq, Structural)]
pub enum FontVariantCaps {
    Normal,
    SmallCaps,
    AllSmallCaps,
    PetiteCaps,
    AllPetiteCaps,
    Unicase,
    TitlingCaps,
}

impl Default for FontVariantCaps {
    fn default() -> (r: Self)
        ensures
            r == FontVariantCaps::Normal,
    {
        FontVariantCaps::Normal
    }
}

/// Font stretch (condensed/expanded)
#[derive(Debug, Clone, Copy, PartialEq, Eq, Structural)]
pub enum FontStretch {
    Normal,
    UltraCondensed,
    ExtraCondensed,
    Condensed,
    SemiCondensed,
    SemiExpanded,
    Expanded,
    ExtraExpanded,
    UltraExpanded,
}

impl Default for FontStretch {
    fn default() -> (r: Self)
        ensures
            r == FontStretch::Normal,
    {
        FontStretch::Normal
    }
}

/// Text alignment
#[derive(Debug, Clone, Copy, PartialEq, Eq, Structural)]
pub enum TextAlign {
    Left,
    Center,
    Right,
    Justify,
}

impl Default for TextAlign {
    fn default() -> (r: Self)
        ensures
            r == TextAlign::Left,
    {
        TextAlign::Left
    }
}

/// Text decoration
#[derive(Debug, Clone, Copy, PartialEq, Eq, Structural)]
pub enum TextDecoration {
    NoDecoration,
    Underline,
    Overline,
    LineThrough,
}

impl Default for TextDecoration {
    fn default() -> (r: Self)
        ensures
            r == TextDecoration::NoDecoration,
    {
        TextDecoration::NoDecoration
    }
}

/// Text transform
#[derive(Debug, Clone, Copy, PartialEq, Eq, Structural)]
pub enum TextTransform {
    NoTransform,
    Capitalize,
    Uppercase,
    Lowercase,
}

impl Default for TextTransform {
    fn default() -> (r: Self)
        ensures
            r == TextTransform::NoTransform,
    {
        TextTransform::NoTransform
    }
}

/// White space handling
#[derive(Debug, Clone, Copy, PartialEq, Eq, Structural)]
pub enum WhiteSpace {
    Normal,
    Nowrap,
    Pre,
    PreWrap,
    PreLine,
}

impl Default for WhiteSpace {
    fn default() -> (r: Self)
        ensures
            r == WhiteSpace::Normal,
    {
        WhiteSpace::Normal
    }
}

impl WhiteSpace {
    /// Newlines in the text are kept
    pub fn preserves_newlines(&self) -> (r: bool)
        ensures
            r == (*self is Pre || *self is PreWrap || *self is PreLine),
    {
        match self {
            WhiteSpace::Pre | WhiteSpace::PreWrap | WhiteSpace::PreLine => true,
            _ => false,
        }
    }

    /// Runs of spaces are kept
    pub fn preserves_spaces(&self) -> (r: bool)
        ensures
            r == (*self is Pre || *self is PreWrap),
    {
        match self {
            WhiteSpace::Pre | WhiteSpace::PreWrap => true,
            _ => false,
        }
    }

    /// Runs of spaces collapse to one
    pub fn collapses_spaces(&self) -> (r: bool)
        ensures
            r == (*self is Normal || *self is Nowrap || *self is PreLine),
    {
        match self {
            WhiteSpace::Normal | WhiteSpace::Nowrap | WhiteSpace::PreLine => true,
            _ => false,
        }
    }

    /// Lines wrap at the box edge
    pub fn wraps(&self) -> (r: bool)
        ensures
            r == (*self is Normal || *self is PreWrap || *self is PreLine),
    {
        match self {
            WhiteSpace::Normal | WhiteSpace::PreWrap | WhiteSpace::PreLine => true,
            _ => false,
        }
    }
}

/// Word wrap
#[derive(Debug, Clone, Copy, PartialEq, Eq, Structural)]
pub enum WordWrap {
    Normal,
    BreakWord,
    Anywhere,
}

impl Default for WordWrap {
    fn default() -> (r: Self)
        ensures
            r == WordWrap::Normal,
    {
        WordWrap::Normal
    }
}

/// Object-fit property for images: `Fill` may distort, `Cover` may crop, `Contain` may leave space, `NoFit` does not resize, `ScaleDown` is `Contain` without enlarging
#[derive(Debug, Clone, Copy, PartialEq, Eq, Structural)]
pub enum ObjectFit {
    Fill,
    Cover,
    Contain,
    NoFit,
    ScaleDown,
}

impl Default for ObjectFit {
    fn default() -> (r: Self)
        ensures
            r == ObjectFit::Cover,
    {
        ObjectFit::Cover
    }
}

/// Background repeat property
#[derive(Debug, Clone, Copy, PartialEq, Eq, Structural)]
pub enum BackgroundRepeat {
    Repeat,
    RepeatX,
    RepeatY,
    NoRepeat,
    Space,
    Round,
}

impl Default for BackgroundRepeat {
    fn default() -> (r: Self)
        ensures
            r == BackgroundRepeat::Repeat,
    {
        BackgroundRepeat::Repeat
    }
}

/// List style type property
#[derive(Debug, Clone, Copy, PartialEq, Eq, Structural)]
pub enum ListStyleType {
    Disc,
    Circle,
    Square,
    Decimal,
    DecimalLeadingZero,
    LowerRoman,
    UpperRoman,
    LowerAlpha,
    UpperAlpha,
    NoMarker,
}

impl Default for ListStyleType {
    fn default() -> (r: Self)
        ensures
            r == ListStyleType::Disc,
    {
        ListStyleType::Disc
    }
}

/// List style position property
#[derive(Debug, Clone, Copy, PartialEq, Eq, Structural)]
pub enum ListStylePosition {
    Outside,
    Inside,
}

impl Default for ListStylePosition {
    fn default() -> (r: Self)
        ensures
            r == ListStylePosition::Outside,
    {
        ListStylePosition::Outside
    }
}

/// Visibility
#[derive(Debug, Clone, Copy, PartialEq, Eq, Structural)]
pub enum Visibility {
    Visible,
    Hidden,
    Collapse,
}

impl Default for Visibility {
    fn default() -> (r: Self)
        ensures
            r == Visibility::Visible,
    {
        Visibility::Visible
    }
}

/// Overflow
#[derive(Debug, Clone, Copy, PartialEq, Eq, Structural)]
pub enum Overflow {
    Visible,
    Hidden,
    Scroll,
    Auto,
}

impl Default for Overflow {
    fn default() -> (r: Self)
        ensures
            r == Overflow::Visible,
    {
        Overflow::Visible
    }
}

/// Z-index
#[derive(Debug, Clone, Copy, PartialEq, Eq, Structural)]
pub enum ZIndex {
    Auto,
    Number(i32),
}

impl Default for ZIndex {
    fn default() -> (r: Self)
        ensures
            r == ZIndex::Auto,
    {
        ZIndex::Auto
    }
}

/// Page break
#[derive(Debug, Clone, Copy, PartialEq, Eq, Structural)]
pub enum PageBreak {
    Auto,
    Always,
    Avoid,
    Left,
    Right,
}

impl Default for PageBreak {
    fn default() -> (r: Self)
        ensures
            r == PageBreak::Auto,
    {
        PageBreak::Auto
    }
}

/// Page break inside
#[derive(Debug, Clone, Copy, PartialEq, Eq, Structural)]
pub enum PageBreakInside {
    Auto,
    Avoid,
}

impl Default for PageBreakInside {
    fn default() -> (r: Self)
        ensures
            r == PageBreakInside::Auto,
    {
        PageBreakInside::Auto
    }
}


/// The value of a `font-variant` keyword; other values give `Normal`.
pub open spec fn font_variant_of(v: CssValue) -> FontVariant {
    match v {
        CssValue::Ident(s) => if s@ == "small-caps"@ { FontVariant::SmallCaps } else { FontVariant::Normal },
        _ => FontVariant::Normal,
    }
}

fn from_css_variant(value: &CssValue) -> (r: FontVariant)
    ensures
        r == font_variant_of(*value),
{
    match value {
        CssValue::Ident(s) => {
            let t = s.as_str();
            if str_eq(t, "small-caps") {
                FontVariant::SmallCaps
            } else {
                FontVariant::Normal
            }
        },
        _ => FontVariant::Normal,
    }
}

/// The value of a `font-variant-caps` keyword; other values give `Normal`.
pub open spec fn font_variant_caps_of(v: CssValue) -> FontVariantCaps {
    match v {
        CssValue::Ident(s) => if s@ == "small-caps"@ { FontVariantCaps::SmallCaps } else if s@ == "all-small-caps"@ { FontVariantCaps::AllSmallCaps } else if s@ == "petite-caps"@ { FontVariantCaps::PetiteCaps } else if s@ == "all-petite-caps"@ { FontVariantCaps::AllPetiteCaps } else if s@ == "unicase"@ { FontVariantCaps::Unicase } else if s@ == "titling-caps"@ { FontVariantCaps::TitlingCaps } else { FontVariantCaps::Normal },
        _ => FontVariantCaps::Normal,
    }
}

fn from_css_caps(value: &CssValue) -> (r: FontVariantCaps)
    ensures
        r == font_variant_caps_of(*value),
{
    match value {
        CssValue::Ident(s) => {
            let t = s.as_str();
            if str_eq(t, "small-caps") {
                FontVariantCaps::SmallCaps
            } else if str_eq(t, "all-small-caps") {
                FontVariantCaps::AllSmallCaps
            } else if str_eq(t, "petite-caps") {
                FontVariantCaps::PetiteCaps
            } else if str_eq(t, "all-petite-caps") {
                FontVariantCaps::AllPetiteCaps
            } else if str_eq(t, "unicase") {
                FontVariantCaps::Unicase
            } else if str_eq(t, "titling-caps") {
                FontVariantCaps::TitlingCaps
            } else {
                FontVariantCaps::Normal
            }
        },
        _ => FontVariantCaps::Normal,
    }
}

impl FontVariant {
    /// Parse from CSS value
    pub fn from_css(value: &CssValue) -> (r: Self)
        ensures
            r == font_variant_of(*value),
    {
        from_css_variant(value)
    }
}

impl FontVariantCaps {
    /// Parse from CSS value
    pub fn from_css(value: &CssValue) -> (r: Self)
        ensures
            r == font_variant_caps_of(*value),
    {
        from_css_caps(value)
    }

    /// Check if this uses small caps
    pub fn is_small_caps(&self) -> (r: bool)
        ensures
            r == (*self is SmallCaps || *self is AllSmallCaps || *self is PetiteCaps || *self is AllPetiteCaps),
    {
        match self {
            FontVariantCaps::SmallCaps | FontVariantCaps::AllSmallCaps | FontVariantCaps::PetiteCaps | FontVariantCaps::AllPetiteCaps => true,
            _ => false,
        }
    }
}

/// The stretch for a percentage truncated to an integer.
pub open spec fn stretch_of_percent(p: int) -> FontStretch {
    if 0 <= p <= 49 {
        FontStretch::UltraCondensed
    } else if 50 <= p <= 62 {
        FontStretch::ExtraCondensed
    } else if 63 <= p <= 74 {
        FontStretch::Condensed
    } else if 75 <= p <= 87 {
        FontStretch::SemiCondensed
    } else if 88 <= p <= 112 {
        FontStretch::Normal
    } else if 113 <= p <= 124 {
        FontStretch::SemiExpanded
    } else if 125 <= p <= 149 {
        FontStretch::Expanded
    } else if 150 <= p <= 199 {
        FontStretch::ExtraExpanded
    } else {
        FontStretch::UltraExpanded
    }
}

/// The percentage of a stretch: 50, 62.5, 75, 87.5, 100, 112.5, 125,
/// 150 or 200 (as single-precision patterns).
pub open spec fn stretch_percentage(f: FontStretch) -> F32Bits {
    match f {
        FontStretch::UltraCondensed => F32Bits(0x4248_0000),
        FontStretch::ExtraCondensed => F32Bits(0x427a_0000),
        FontStretch::Condensed => F32Bits(0x4296_0000),
        FontStretch::SemiCondensed => F32Bits(0x42af_0000),
        FontStretch::Normal => F32Bits(0x42c8_0000),
        FontStretch::SemiExpanded => F32Bits(0x42e1_0000),
        FontStretch::Expanded => F32Bits(0x42fa_0000),
        FontStretch::ExtraExpanded => F32Bits(0x4316_0000),
        FontStretch::UltraExpanded => F32Bits(0x4348_0000),
    }
}

/// The value of an IEEE single as `as i32` converts it.
pub open spec fn f32_as_i32(b: u32) -> int {
    if f32_is_nan(b) { 0 } else { saturate(f32_trunc(b), i32::MIN as int, i32::MAX as int) }
}

/// The value of a `font-stretch` keyword; other values give `Normal`.
pub open spec fn font_stretch_keyword(v: CssValue) -> FontStretch {
    match v {
        CssValue::Ident(s) => if s@ == "ultra-condensed"@ { FontStretch::UltraCondensed } else if s@ == "extra-condensed"@ { FontStretch::ExtraCondensed } else if s@ == "condensed"@ { FontStretch::Condensed } else if s@ == "semi-condensed"@ { FontStretch::SemiCondensed } else if s@ == "semi-expanded"@ { FontStretch::SemiExpanded } else if s@ == "expanded"@ { FontStretch::Expanded } else if s@ == "extra-expanded"@ { FontStretch::ExtraExpanded } else if s@ == "ultra-expanded"@ { FontStretch::UltraExpanded } else { FontStretch::Normal },
        _ => FontStretch::Normal,
    }
}

fn stretch_keyword(value: &CssValue) -> (r: FontStretch)
    ensures
        r == font_stretch_keyword(*value),
{
    match value {
        CssValue::Ident(s) => {
            let t = s.as_str();
            if str_eq(t, "ultra-condensed") {
                FontStretch::UltraCondensed
            } else if str_eq(t, "extra-condensed") {
                FontStretch::ExtraCondensed
            } else if str_eq(t, "condensed") {
                FontStretch::Condensed
            } else if str_eq(t, "semi-condensed") {
                FontStretch::SemiCondensed
            } else if str_eq(t, "semi-expanded") {
                FontStretch::SemiExpanded
            } else if str_eq(t, "expanded") {
                FontStretch::Expanded
            } else if str_eq(t, "extra-expanded") {
                FontStretch::ExtraExpanded
            } else if str_eq(t, "ultra-expanded") {
                FontStretch::UltraExpanded
            } else {
                FontStretch::Normal
            }
        },
        _ => FontStretch::Normal,
    }
}

/// The font-stretch of a CSS value: a keyword, or a percentage by the
/// range its integer part falls in.
pub open spec fn font_stretch_of(v: CssValue) -> FontStretch {
    match v {
        CssValue::Percentage(p) => stretch_of_percent(f32_as_i32(p.0)),
        _ => font_stretch_keyword(v),
    }
}

impl FontStretch {
    /// Parse from CSS value
    pub fn from_css(value: &CssValue) -> (r: Self)
        ensures
            r == font_stretch_of(*value),
    {
        match value {
            CssValue::Percentage(p) => FontStretch::from_percentage(*p),
            _ => stretch_keyword(value),
        }
    }

    /// The stretch for a percentage, by the range its integer part (as
    /// `as i32` truncates it) falls in.
    pub fn from_percentage(pct: F32Bits) -> (r: Self)
        ensures
            r == stretch_of_percent(f32_as_i32(pct.0)),
    {
        let p = pct.to_i32();
        if 0 <= p && p <= 49 {
            FontStretch::UltraCondensed
        } else if 50 <= p && p <= 62 {
            FontStretch::ExtraCondensed
        } else if 63 <= p && p <= 74 {
            FontStretch::Condensed
        } else if 75 <= p && p <= 87 {
            FontStretch::SemiCondensed
        } else if 88 <= p && p <= 112 {
            FontStretch::Normal
        } else if 113 <= p && p <= 124 {
            FontStretch::SemiExpanded
        } else if 125 <= p && p <= 149 {
            FontStretch::Expanded
        } else if 150 <= p && p <= 199 {
            FontStretch::ExtraExpanded
        } else {
            FontStretch::UltraExpanded
        }
    }

    /// Get percentage value
    pub fn to_percentage(&self) -> (r: F32Bits)
        ensures
            r == stretch_percentage(*self),
    {
        match self {
            FontStretch::UltraCondensed => F32Bits(0x4248_0000),
            FontStretch::ExtraCondensed => F32Bits(0x427a_0000),
            FontStretch::Condensed => F32Bits(0x4296_0000),
            FontStretch::SemiCondensed => F32Bits(0x42af_0000),
            FontStretch::Normal => F32Bits(0x42c8_0000),
            FontStretch::SemiExpanded => F32Bits(0x42e1_0000),
            FontStretch::Expanded => F32Bits(0x42fa_0000),
            FontStretch::ExtraExpanded => F32Bits(0x4316_0000),
            FontStretch::UltraExpanded => F32Bits(0x4348_0000),
        }
    }
}

/// The value of a `display` keyword; other values give `Inline`.
pub open spec fn display_of(v: CssValue) -> Display {
    match v {
        CssValue::Ident(s) => if s@ == "block"@ { Display::Block } else if s@ == "inline"@ { Display::Inline } else if s@ == "inline-block"@ { Display::InlineBlock } else if s@ == "flex"@ { Display::Flex } else if s@ == "inline-flex"@ { Display::InlineFlex } else if s@ == "grid"@ { Display::Grid } else if s@ == "inline-grid"@ { Display::InlineGrid } else if s@ == "none"@ { Display::NoDisplay } else if s@ == "list-item"@ { Display::ListItem } else if s@ == "table"@ { Display::Table } else { Display::Inline },
        _ => Display::Inline,
    }
}

pub fn parse_display(value: &CssValue) -> (r: Display)
    ensures
        r == display_of(*value),
{
    match value {
        CssValue::Ident(s) => {
            let t = s.as_str();
            if str_eq(t, "block") {
                Display::Block
            } else if str_eq(t, "inline") {
                Display::Inline
            } else if str_eq(t, "inline-block") {
                Display::InlineBlock
            } else if str_eq(t, "flex") {
                Display::Flex
            } else if str_eq(t, "inline-flex") {
                Display::InlineFlex
            } else if str_eq(t, "grid") {
                Display::Grid
            } else if str_eq(t, "inline-grid") {
                Display::InlineGrid
            } else if str_eq(t, "none") {
                Display::NoDisplay
            } else if str_eq(t, "list-item") {
                Display::ListItem
            } else if str_eq(t, "table") {
                Display::Table
            } else {
                Display::Inline
            }
        },
        _ => Display::Inline,
    }
}

/// The value of a `position` keyword; other values give `Static`.
pub open spec fn position_of(v: CssValue) -> Position {
    match v {
        CssValue::Ident(s) => if s@ == "static"@ { Position::Static } else if s@ == "relative"@ { Position::Relative } else if s@ == "absolute"@ { Position::Absolute } else if s@ == "fixed"@ { Position::Fixed } else if s@ == "sticky"@ { Position::Sticky } else { Position::Static },
        _ => Position::Static,
    }
}

pub fn parse_position(value: &CssValue) -> (r: Position)
    ensures
        r == position_of(*value),
{
    match value {
        CssValue::Ident(s) => {
            let t = s.as_str();
            if str_eq(t, "static") {
                Position::Static
            } else if str_eq(t, "relative") {
                Position::Relative
            } else if str_eq(t, "absolute") {
                Position::Absolute
            } else if str_eq(t, "fixed") {
                Position::Fixed
            } else if str_eq(t, "sticky") {
                Position::Sticky
            } else {
                Position::Static
            }
        },
        _ => Position::Static,
    }
}

/// The value of a `float` keyword; other values give `NoFloat`.
pub open spec fn float_of(v: CssValue) -> Float {
    match v {
        CssValue::Ident(s) => if s@ == "none"@ { Float::NoFloat } else if s@ == "left"@ { Float::Left } else if s@ == "right"@ { Float::Right } else { Float::NoFloat },
        _ => Float::NoFloat,
    }
}

pub fn parse_float(value: &CssValue) -> (r: Float)
    ensures
        r == float_of(*value),
{
    match value {
        CssValue::Ident(s) => {
            let t = s.as_str();
            if str_eq(t, "none") {
                Float::NoFloat
            } else if str_eq(t, "left") {
                Float::Left
            } else if str_eq(t, "right") {
                Float::Right
            } else {
                Float::NoFloat
            }
        },
        _ => Float::NoFloat,
    }
}

/// The value of a `clear` keyword; other values give `NoClear`.
pub open spec fn clear_of(v: CssValue) -> Clear {
    match v {
        CssValue::Ident(s) => if s@ == "none"@ { Clear::NoClear } else if s@ == "left"@ { Clear::Left } else if s@ == "right"@ { Clear::Right } else if s@ == "both"@ { Clear::Both } else { Clear::NoClear },
        _ => Clear::NoClear,
    }
}

pub fn parse_clear(value: &CssValue) -> (r: Clear)
    ensures
        r == clear_of(*value),
{
    match value {
        CssValue::Ident(s) => {
            let t = s.as_str();
            if str_eq(t, "none") {
                Clear::NoClear
            } else if str_eq(t, "left") {
                Clear::Left
            } else if str_eq(t, "right") {
                Clear::Right
            } else if str_eq(t, "both") {
                Clear::Both
            } else {
                Clear::NoClear
            }
        },
        _ => Clear::NoClear,
    }
}

/// The value of a `border-style` keyword; other values give `NoBorder`.
pub open spec fn border_style_of(v: CssValue) -> BorderStyle {
    match v {
        CssValue::Ident(s) => if s@ == "none"@ { BorderStyle::NoBorder } else if s@ == "hidden"@ { BorderStyle::Hidden } else if s@ == "solid"@ { BorderStyle::Solid } else if s@ == "dashed"@ { BorderStyle::Dashed } else if s@ == "dotted"@ { BorderStyle::Dotted } else if s@ == "double"@ { BorderStyle::Double } else { BorderStyle::NoBorder },
        _ => BorderStyle::NoBorder,
    }
}

pub fn parse_border_style(value: &CssValue) -> (r: BorderStyle)
    ensures
        r == border_style_of(*value),
{
    match value {
        CssValue::Ident(s) => {
            let t = s.as_str();
            if str_eq(t, "none") {
                BorderStyle::NoBorder
            } else if str_eq(t, "hidden") {
                BorderStyle::Hidden
            } else if str_eq(t, "solid") {
                BorderStyle::Solid
            } else if str_eq(t, "dashed") {
                BorderStyle::Dashed
            } else if str_eq(t, "dotted") {
                BorderStyle::Dotted
            } else if str_eq(t, "double") {
                BorderStyle::Double
            } else {
                BorderStyle::NoBorder
            }
        },
        _ => BorderStyle::NoBorder,
    }
}

/// The value of a `font-weight` keyword; other values give `Normal`.
pub open spec fn font_weight_keyword_of(v: CssValue) -> FontWeight {
    match v {
        CssValue::Ident(s) => if s@ == "normal"@ { FontWeight::Normal } else if s@ == "bold"@ { FontWeight::Bold } else if s@ == "bolder"@ { FontWeight::Bolder } else if s@ == "lighter"@ { FontWeight::Lighter } else { FontWeight::Normal },
        _ => FontWeight::Normal,
    }
}

fn font_weight_keyword(value: &CssValue) -> (r: FontWeight)
    ensures
        r == font_weight_keyword_of(*value),
{
    match value {
        CssValue::Ident(s) => {
            let t = s.as_str();
            if str_eq(t, "normal") {
                FontWeight::Normal
            } else if str_eq(t, "bold") {
                FontWeight::Bold
            } else if str_eq(t, "bolder") {
                FontWeight::Bolder
            } else if str_eq(t, "lighter") {
                FontWeight::Lighter
            } else {
                FontWeight::Normal
            }
        },
        _ => FontWeight::Normal,
    }
}

/// The font-weight of a CSS value: a keyword, or a number truncated to a
/// `u16` as `as` does.
pub open spec fn font_weight_of(v: CssValue) -> FontWeight {
    match v {
        CssValue::Number(n) => FontWeight::Number(
            (if f32_is_nan(n.0) { 0 } else { saturate(f32_trunc(n.0), 0, u16::MAX as int) }) as u16),
        _ => font_weight_keyword_of(v),
    }
}

pub fn parse_font_weight(value: &CssValue) -> (r: FontWeight)
    ensures
        r == font_weight_of(*value),
{
    match value {
        CssValue::Number(n) => FontWeight::Number(n.to_u16()),
        _ => font_weight_keyword(value),
    }
}

/// The value of a `font-style` keyword; other values give `Normal`.
pub open spec fn font_style_of(v: CssValue) -> FontStyle {
    match v {
        CssValue::Ident(s) => if s@ == "normal"@ { FontStyle::Normal } else if s@ == "italic"@ { FontStyle::Italic } else if s@ == "oblique"@ { FontStyle::Oblique } else { FontStyle::Normal },
        _ => FontStyle::Normal,
    }
}

pub fn parse_font_style(value: &CssValue) -> (r: FontStyle)
    ensures
        r == font_style_of(*value),
{
    match value {
        CssValue::Ident(s) => {
            let t = s.as_str();
            if str_eq(t, "normal") {
                FontStyle::Normal
            } else if str_eq(t, "italic") {
                FontStyle::Italic
            } else if str_eq(t, "oblique") {
                FontStyle::Oblique
            } else {
                FontStyle::Normal
            }
        },
        _ => FontStyle::Normal,
    }
}

/// The value of a `text-align` keyword; other values give `Left`.
pub open spec fn text_align_of(v: CssValue) -> TextAlign {
    match v {
        CssValue::Ident(s) => if s@ == "left"@ { TextAlign::Left } else if s@ == "center"@ { TextAlign::Center } else if s@ == "right"@ { TextAlign::Right } else if s@ == "justify"@ { TextAlign::Justify } else { TextAlign::Left },
        _ => TextAlign::Left,
    }
}

pub fn parse_text_align(value: &CssValue) -> (r: TextAlign)
    ensures
        r == text_align_of(*value),
{
    match value {
        CssValue::Ident(s) => {
            let t = s.as_str();
            if str_eq(t, "left") {
                TextAlign::Left
            } else if str_eq(t, "center") {
                TextAlign::Center
            } else if str_eq(t, "right") {
                TextAlign::Right
            } else if str_eq(t, "justify") {
                TextAlign::Justify
            } else {
                TextAlign::Left
            }
        },
        _ => TextAlign::Left,
    }
}

/// The value of a `text-decoration` keyword; other values give `NoDecoration`.
pub open spec fn text_decoration_of(v: CssValue) -> TextDecoration {
    match v {
        CssValue::Ident(s) => if s@ == "none"@ { TextDecoration::NoDecoration } else if s@ == "underline"@ { TextDecoration::Underline } else if s@ == "overline"@ { TextDecoration::Overline } else if s@ == "line-through"@ { TextDecoration::LineThrough } else { TextDecoration::NoDecoration },
        _ => TextDecoration::NoDecoration,
    }
}

pub fn parse_text_decoration(value: &CssValue) -> (r: TextDecoration)
    ensures
        r == text_decoration_of(*value),
{
    match value {
        CssValue::Ident(s) => {
            let t = s.as_str();
            if str_eq(t, "none") {
                TextDecoration::NoDecoration
            } else if str_eq(t, "underline") {
                TextDecoration::Underline
            } else if str_eq(t, "overline") {
                TextDecoration::Overline
            } else if str_eq(t, "line-through") {
                TextDecoration::LineThrough
            } else {
                TextDecoration::NoDecoration
            }
        },
        _ => TextDecoration::NoDecoration,
    }
}

/// The value of a `text-transform` keyword; other values give `NoTransform`.
pub open spec fn text_transform_of(v: CssValue) -> TextTransform {
    match v {
        CssValue::Ident(s) => if s@ == "none"@ { TextTransform::NoTransform } else if s@ == "capitalize"@ { TextTransform::Capitalize } else if s@ == "uppercase"@ { TextTransform::Uppercase } else if s@ == "lowercase"@ { TextTransform::Lowercase } else { TextTransform::NoTransform },
        _ => TextTransform::NoTransform,
    }
}

pub fn parse_text_transform(value: &CssValue) -> (r: TextTransform)
    ensures
        r == text_transform_of(*value),
{
    match value {
        CssValue::Ident(s) => {
            let t = s.as_str();
            if str_eq(t, "none") {
                TextTransform::NoTransform
            } else if str_eq(t, "capitalize") {
                TextTransform::Capitalize
            } else if str_eq(t, "uppercase") {
                TextTransform::Uppercase
            } else if str_eq(t, "lowercase") {
                TextTransform::Lowercase
            } else {
                TextTransform::NoTransform
            }
        },
        _ => TextTransform::NoTransform,
    }
}

/// The value of a `white-space` keyword; other values give `Normal`.
pub open spec fn white_space_of(v: CssValue) -> WhiteSpace {
    match v {
        CssValue::Ident(s) => if s@ == "normal"@ { WhiteSpace::Normal } else if s@ == "nowrap"@ { WhiteSpace::Nowrap } else if s@ == "pre"@ { WhiteSpace::Pre } else if s@ == "pre-wrap"@ { WhiteSpace::PreWrap } else if s@ == "pre-line"@ { WhiteSpace::PreLine } else { WhiteSpace::Normal },
        _ => WhiteSpace::Normal,
    }
}

pub fn parse_white_space(value: &CssValue) -> (r: WhiteSpace)
    ensures
        r == white_space_of(*value),
{
    match value {
        CssValue::Ident(s) => {
            let t = s.as_str();
            if str_eq(t, "normal") {
                WhiteSpace::Normal
            } else if str_eq(t, "nowrap") {
                WhiteSpace::Nowrap
            } else if str_eq(t, "pre") {
                WhiteSpace::Pre
            } else if str_eq(t, "pre-wrap") {
                WhiteSpace::PreWrap
            } else if str_eq(t, "pre-line") {
                WhiteSpace::PreLine
            } else {
                WhiteSpace::Normal
            }
        },
        _ => WhiteSpace::Normal,
    }
}

/// The value of a `word-wrap` keyword; other values give `Normal`.
pub open spec fn word_wrap_of(v: CssValue) -> WordWrap {
    match v {
        CssValue::Ident(s) => if s@ == "normal"@ { WordWrap::Normal } else if s@ == "break-word"@ { WordWrap::BreakWord } else if s@ == "anywhere"@ { WordWrap::Anywhere } else { WordWrap::Normal },
        _ => WordWrap::Normal,
    }
}

pub fn parse_word_wrap(value: &CssValue) -> (r: WordWrap)
    ensures
        r == word_wrap_of(*value),
{
    match value {
        CssValue::Ident(s) => {
            let t = s.as_str();
            if str_eq(t, "normal") {
                WordWrap::Normal
            } else if str_eq(t, "break-word") {
                WordWrap::BreakWord
            } else if str_eq(t, "anywhere") {
                WordWrap::Anywhere
            } else {
                WordWrap::Normal
            }
        },
        _ => WordWrap::Normal,
    }
}

/// The value of a `visibility` keyword; other values give `Visible`.
pub open spec fn visibility_of(v: CssValue) -> Visibility {
    match v {
        CssValue::Ident(s) => if s@ == "visible"@ { Visibility::Visible } else if s@ == "hidden"@ { Visibility::Hidden } else if s@ == "collapse"@ { Visibility::Collapse } else { Visibility::Visible },
        _ => Visibility::Visible,
    }
}

pub fn parse_visibility(value: &CssValue) -> (r: Visibility)
    ensures
        r == visibility_of(*value),
{
    match value {
        CssValue::Ident(s) => {
            let t = s.as_str();
            if str_eq(t, "visible") {
                Visibility::Visible
            } else if str_eq(t, "hidden") {
                Visibility::Hidden
            } else if str_eq(t, "collapse") {
                Visibility::Collapse
            } else {
                Visibility::Visible
            }
        },
        _ => Visibility::Visible,
    }
}

/// The value of a `overflow` keyword; other values give `Visible`.
pub open spec fn overflow_of(v: CssValue) -> Overflow {
    match v {
        CssValue::Ident(s) => if s@ == "visible"@ { Overflow::Visible } else if s@ == "hidden"@ { Overflow::Hidden } else if s@ == "scroll"@ { Overflow::Scroll } else if s@ == "auto"@ { Overflow::Auto } else { Overflow::Visible },
        _ => Overflow::Visible,
    }
}

pub fn parse_overflow(value: &CssValue) -> (r: Overflow)
    ensures
        r == overflow_of(*value),
{
    match value {
        CssValue::Ident(s) => {
            let t = s.as_str();
            if str_eq(t, "visible") {
                Overflow::Visible
            } else if str_eq(t, "hidden") {
                Overflow::Hidden
            } else if str_eq(t, "scroll") {
                Overflow::Scroll
            } else if str_eq(t, "auto") {
                Overflow::Auto
            } else {
                Overflow::Visible
            }
        },
        _ => Overflow::Visible,
    }
}

/// The value of a `object-fit` keyword; other values give `Cover`.
pub open spec fn object_fit_of(v: CssValue) -> ObjectFit {
    match v {
        CssValue::Ident(s) => if s@ == "fill"@ { ObjectFit::Fill } else if s@ == "cover"@ { ObjectFit::Cover } else if s@ == "contain"@ { ObjectFit::Contain } else if s@ == "none"@ { ObjectFit::NoFit } else if s@ == "scale-down"@ { ObjectFit::ScaleDown } else { ObjectFit::Cover },
        _ => ObjectFit::Cover,
    }
}

pub fn parse_object_fit(value: &CssValue) -> (r: ObjectFit)
    ensures
        r == object_fit_of(*value),
{
    match value {
        CssValue::Ident(s) => {
            let t = s.as_str();
            if str_eq(t, "fill") {
                ObjectFit::Fill
            } else if str_eq(t, "cover") {
                ObjectFit::Cover
            } else if str_eq(t, "contain") {
                ObjectFit::Contain
            } else if str_eq(t, "none") {
                ObjectFit::NoFit
            } else if str_eq(t, "scale-down") {
                ObjectFit::ScaleDown
            } else {
                ObjectFit::Cover
            }
        },
        _ => ObjectFit::Cover,
    }
}

/// The value of a `background-repeat` keyword; other values give `Repeat`.
pub open spec fn background_repeat_of(v: CssValue) -> BackgroundRepeat {
    match v {
        CssValue::Ident(s) => if s@ == "repeat"@ { BackgroundRepeat::Repeat } else if s@ == "repeat-x"@ { BackgroundRepeat::RepeatX } else if s@ == "repeat-y"@ { BackgroundRepeat::RepeatY } else if s@ == "no-repeat"@ { BackgroundRepeat::NoRepeat } else if s@ == "space"@ { BackgroundRepeat::Space } else if s@ == "round"@ { BackgroundRepeat::Round } else { BackgroundRepeat::Repeat },
        _ => BackgroundRepeat::Repeat,
    }
}

pub fn parse_background_repeat(value: &CssValue) -> (r: BackgroundRepeat)
    ensures
        r == background_repeat_of(*value),
{
    match value {
        CssValue::Ident(s) => {
            let t = s.as_str();
            if str_eq(t, "repeat") {
                BackgroundRepeat::Repeat
            } else if str_eq(t, "repeat-x") {
                BackgroundRepeat::RepeatX
            } else if str_eq(t, "repeat-y") {
                BackgroundRepeat::RepeatY
            } else if str_eq(t, "no-repeat") {
                BackgroundRepeat::NoRepeat
            } else if str_eq(t, "space") {
                BackgroundRepeat::Space
            } else if str_eq(t, "round") {
                BackgroundRepeat::Round
            } else {
                BackgroundRepeat::Repeat
            }
        },
        _ => BackgroundRepeat::Repeat,
    }
}

/// The value of a `list-style-type` keyword; other values give `Disc`.
pub open spec fn list_style_type_of(v: CssValue) -> ListStyleType {
    match v {
        CssValue::Ident(s) => if s@ == "disc"@ { ListStyleType::Disc } else if s@ == "circle"@ { ListStyleType::Circle } else if s@ == "square"@ { ListStyleType::Square } else if s@ == "decimal"@ { ListStyleType::Decimal } else if s@ == "decimal-leading-zero"@ { ListStyleType::DecimalLeadingZero } else if s@ == "lower-roman"@ { ListStyleType::LowerRoman } else if s@ == "upper-roman"@ { ListStyleType::UpperRoman } else if s@ == "lower-alpha"@ { ListStyleType::LowerAlpha } else if s@ == "upper-alpha"@ { ListStyleType::UpperAlpha } else if s@ == "none"@ { ListStyleType::NoMarker } else { ListStyleType::Disc },
        _ => ListStyleType::Disc,
    }
}

pub fn parse_list_style_type(value: &CssValue) -> (r: ListStyleType)
    ensures
        r == list_style_type_of(*value),
{
    match value {
        CssValue::Ident(s) => {
            let t = s.as_str();
            if str_eq(t, "disc") {
                ListStyleType::Disc
            } else if str_eq(t, "circle") {
                ListStyleType::Circle
            } else if str_eq(t, "square") {
                ListStyleType::Square
            } else if str_eq(t, "decimal") {
                ListStyleType::Decimal
            } else if str_eq(t, "decimal-leading-zero") {
                ListStyleType::DecimalLeadingZero
            } else if str_eq(t, "lower-roman") {
                ListStyleType::LowerRoman
            } else if str_eq(t, "upper-roman") {
                ListStyleType::UpperRoman
            } else if str_eq(t, "lower-alpha") {
                ListStyleType::LowerAlpha
            } else if str_eq(t, "upper-alpha") {
                ListStyleType::UpperAlpha
            } else if str_eq(t, "none") {
                ListStyleType::NoMarker
            } else {
                ListStyleType::Disc
            }
        },
        _ => ListStyleType::Disc,
    }
}

/// The value of a `list-style-position` keyword; other values give `Outside`.
pub open spec fn list_style_position_of(v: CssValue) -> ListStylePosition {
    match v {
        CssValue::Ident(s) => if s@ == "inside"@ { ListStylePosition::Inside } else if s@ == "outside"@ { ListStylePosition::Outside } else { ListStylePosition::Outside },
        _ => ListStylePosition::Outside,
    }
}

pub fn parse_list_style_position(value: &CssValue) -> (r: ListStylePosition)
    ensures
        r == list_style_position_of(*value),
{
    match value {
        CssValue::Ident(s) => {
            let t = s.as_str();
            if str_eq(t, "inside") {
                ListStylePosition::Inside
            } else if str_eq(t, "outside") {
                ListStylePosition::Outside
            } else {
                ListStylePosition::Outside
            }
        },
        _ => ListStylePosition::Outside,
    }
}

/// The value of a `page-break` keyword; other values give `Auto`.
pub open spec fn page_break_of(v: CssValue) -> PageBreak {
    match v {
        CssValue::Ident(s) => if s@ == "auto"@ { PageBreak::Auto } else if s@ == "always"@ { PageBreak::Always } else if s@ == "avoid"@ { PageBreak::Avoid } else if s@ == "left"@ { PageBreak::Left } else if s@ == "right"@ { PageBreak::Right } else { PageBreak::Auto },
        _ => PageBreak::Auto,
    }
}

pub fn parse_page_break(value: &CssValue) -> (r: PageBreak)
    ensures
        r == page_break_of(*value),
{
    match value {
        CssValue::Ident(s) => {
            let t = s.as_str();
            if str_eq(t, "auto") {
                PageBreak::Auto
            } else if str_eq(t, "always") {
                PageBreak::Always
            } else if str_eq(t, "avoid") {
                PageBreak::Avoid
            } else if str_eq(t, "left") {
                PageBreak::Left
            } else if str_eq(t, "right") {
                PageBreak::Right
            } else {
                PageBreak::Auto
            }
        },
        _ => PageBreak::Auto,
    }
}

/// The value of a `page-break-inside` keyword; other values give `Auto`.
pub open spec fn page_break_inside_of(v: CssValue) -> PageBreakInside {
    match v {
        CssValue::Ident(s) => if s@ == "auto"@ { PageBreakInside::Auto } else if s@ == "avoid"@ { PageBreakInside::Avoid } else { PageBreakInside::Auto },
        _ => PageBreakInside::Auto,
    }
}

pub fn parse_page_break_inside(value: &CssValue) -> (r: PageBreakInside)
    ensures
        r == page_break_inside_of(*value),
{
    match value {
        CssValue::Ident(s) => {
            let t = s.as_str();
            if str_eq(t, "auto") {
                PageBreakInside::Auto
            } else if str_eq(t, "avoid") {
                PageBreakInside::Avoid
            } else {
                PageBreakInside::Auto
            }
        },
        _ => PageBreakInside::Auto,
    }
}

/// The z-index of a CSS value: a number truncated to an integer, else `auto`.
pub open spec fn z_index_of(v: CssValue) -> ZIndex {
    match v {
        CssValue::Number(n) => ZIndex::Number(f32_as_i32(n.0) as i32),
        _ => ZIndex::Auto,
    }
}

pub fn parse_z_index(value: &CssValue) -> (r: ZIndex)
    ensures
        r == z_index_of(*value),
{
    match value {
        CssValue::Number(n) => ZIndex::Number(n.to_i32()),
        _ => ZIndex::Auto,
    }
}

/// The pattern encodes a number above zero (positive infinity included).
pub open spec fn f32_positive(b: u32) -> bool {
    0 < b && b <= 0x7F80_0000
}

/// The text begins with the word `span` and one space.
pub open spec fn starts_span(s: Seq<char>) -> bool {
    s.len() >= 5 && s.take(5) == "span "@
}

/// The count of a `span N` text: `N` trimmed and read as an `i32`, else 1.
pub open spec fn span_count(s: Seq<char>) -> i32 {
    match parsed_i32(trim(s.skip(5))) {
        Some(n) => n,
        None => 1,
    }
}

/// The grid line a keyword names: `auto`, `span N`, else an area of that name.
pub open spec fn keyword_line(s: Seq<char>) -> (i32, Option<Seq<char>>, Option<i32>) {
    if s == "auto"@ {
        auto_line()
    } else if starts_span(s) {
        (0, None, Some(span_count(s)))
    } else {
        (0, Some(s), None)
    }
}

/// The grid line of a CSS value: a keyword as `keyword_line` reads it, a
/// number above zero (truncated) or a positive integer as a line number,
/// anything else automatic.
pub open spec fn value_line(v: CssValue) -> (i32, Option<Seq<char>>, Option<i32>) {
    match v {
        CssValue::Ident(s) => keyword_line(s@),
        CssValue::Number(n) => if f32_positive(n.0) { (f32_as_i32(n.0) as i32, None, None) } else { auto_line() },
        CssValue::Integer(n) => if n > 0 { (n, None, None) } else { auto_line() },
        _ => auto_line(),
    }
}

/// The grid line of one trimmed part of a `start / end` text: any integer
/// as a line number, then `span N`, `auto`, else an area name.
pub open spec fn part_line(t: Seq<char>) -> (i32, Option<Seq<char>>, Option<i32>) {
    match parsed_i32(t) {
        Some(n) => (n, None, None),
        None => if starts_span(t) {
            (0, None, Some(span_count(t)))
        } else if t == "auto"@ {
            auto_line()
        } else {
            (0, Some(t), None)
        },
    }
}

/// The start and end lines of a text: two parts around one `/`, or else
/// `single` and an automatic end.
pub open spec fn text_line_pair(s: Seq<char>, single: (i32, Option<Seq<char>>, Option<i32>))
    -> ((i32, Option<Seq<char>>, Option<i32>), (i32, Option<Seq<char>>, Option<i32>)) {
    let parts = split_char(s, '/');
    if parts.len() == 2 {
        (part_line(trim(parts[0])), part_line(trim(parts[1])))
    } else {
        (single, auto_line())
    }
}

/// The start and end lines of a `grid-row` or `grid-column` value.
pub open spec fn shorthand_lines(v: CssValue)
    -> ((i32, Option<Seq<char>>, Option<i32>), (i32, Option<Seq<char>>, Option<i32>)) {
    match v {
        CssValue::Ident(s) => text_line_pair(s@, keyword_line(s@)),
        CssValue::String(s) => text_line_pair(s@, auto_line()),
        CssValue::List(vs) => if vs@.len() == 2 {
            (value_line(vs@[0]), value_line(vs@[1]))
        } else {
            (auto_line(), auto_line())
        },
        _ => (value_line(v), auto_line()),
    }
}

/// The four lines (row start, column start, row end, column end) of a
/// `grid-area` text: two or four keyword parts around `/`, else an area
/// of the whole text's name.
pub open spec fn text_area_lines(s: Seq<char>) -> (
    (i32, Option<Seq<char>>, Option<i32>),
    (i32, Option<Seq<char>>, Option<i32>),
    (i32, Option<Seq<char>>, Option<i32>),
    (i32, Option<Seq<char>>, Option<i32>),
) {
    let p = split_char(s, '/');
    if p.len() == 2 {
        (keyword_line(trim(p[0])), keyword_line(trim(p[1])), auto_line(), auto_line())
    } else if p.len() == 4 {
        (keyword_line(trim(p[0])), keyword_line(trim(p[1])), keyword_line(trim(p[2])), keyword_line(trim(p[3])))
    } else {
        ((0, Some(s), None), auto_line(), auto_line(), auto_line())
    }
}

/// The four lines of a `grid-area` value.
pub open spec fn area_lines(v: CssValue) -> (
    (i32, Option<Seq<char>>, Option<i32>),
    (i32, Option<Seq<char>>, Option<i32>),
    (i32, Option<Seq<char>>, Option<i32>),
    (i32, Option<Seq<char>>, Option<i32>),
) {
    match v {
        CssValue::Ident(s) => text_area_lines(s@),
        CssValue::String(s) => text_area_lines(s@),
        CssValue::List(vs) => if vs@.len() == 1 {
            (value_line(vs@[0]), value_line(vs@[0]), auto_line(), auto_line())
        } else if vs@.len() == 2 {
            (value_line(vs@[0]), value_line(vs@[1]), auto_line(), auto_line())
        } else if vs@.len() == 4 {
            (value_line(vs@[0]), value_line(vs@[1]), value_line(vs@[2]), value_line(vs@[3]))
        } else {
            (auto_line(), auto_line(), auto_line(), auto_line())
        },
        _ => (auto_line(), auto_line(), auto_line(), auto_line()),
    }
}

/// Whether the characters begin with `span `.
fn begins_span(cs: &Vec<char>) -> (r: bool)
    ensures
        r == starts_span(cs@),
{
    proof { reveal_strlit("span "); }
    if cs.len() >= 5 && cs[0] == 's' && cs[1] == 'p' && cs[2] == 'a' && cs[3] == 'n' && cs[4] == ' ' {
        assert(cs@.take(5) =~= "span "@);
        true
    } else {
        proof {
            if cs@.len() >= 5 && cs@.take(5) == "span "@ {
                assert(cs@.take(5)[0] == cs@[0] && cs@.take(5)[1] == cs@[1] && cs@.take(5)[2] == cs@[2]);
                assert(cs@.take(5)[3] == cs@[3] && cs@.take(5)[4] == cs@[4]);
            }
        }
        false
    }
}

/// The spanning line of a text that begins with `span `.
fn span_line(cs: &Vec<char>) -> (r: GridLine)
    requires
        starts_span(cs@),
    ensures
        line_view(r) == (0i32, None::<Seq<char>>, Some(span_count(cs@))),
{
    let rest = chars_from(cs, 5);
    let t = trim_chars(&rest);
    match parse_i32(&t) {
        Some(n) => GridLine::span(n),
        None => GridLine::span(1),
    }
}

/// The line of an area name.
fn named_line(cs: &Vec<char>) -> (r: GridLine)
    ensures
        line_view(r) == (0i32, Some(cs@), None::<i32>),
{
    GridLine { line_number: 0, area_name: Some(string_of(cs)), span: None }
}

/// The grid line a keyword names.
fn keyword_grid_line(cs: &Vec<char>) -> (r: GridLine)
    ensures
        line_view(r) == keyword_line(cs@),
{
    if chars_are(cs, "auto") {
        GridLine::auto()
    } else if begins_span(cs) {
        span_line(cs)
    } else {
        named_line(cs)
    }
}

/// Parse a grid line (`grid-row-start` and the like) from a CSS value.
pub fn parse_grid_line(value: &CssValue) -> (r: GridLine)
    ensures
        line_view(r) == value_line(*value),
{
    match value {
        CssValue::Ident(s) => {
            let cs = chars_of(s.as_str());
            keyword_grid_line(&cs)
        },
        CssValue::Number(n) => {
            if 0 < n.0 && n.0 <= 0x7F80_0000 {
                GridLine::numbered(n.to_i32())
            } else {
                GridLine::auto()
            }
        },
        CssValue::Integer(n) => {
            if *n > 0 {
                GridLine::numbered(*n)
            } else {
                GridLine::auto()
            }
        },
        _ => GridLine::auto(),
    }
}

/// The grid line of one trimmed part of a `start / end` text.
fn part_grid_line(t: &Vec<char>) -> (r: GridLine)
    ensures
        line_view(r) == part_line(t@),
{
    match parse_i32(t) {
        Some(n) => GridLine::numbered(n),
        None => {
            if begins_span(t) {
                span_line(t)
            } else if chars_are(t, "auto") {
                GridLine::auto()
            } else {
                named_line(t)
            }
        },
    }
}

/// The start and end lines of a text.
fn text_grid_lines(cs: &Vec<char>, single: GridLine) -> (r: (GridLine, GridLine))
    ensures
        (line_view(r.0), line_view(r.1)) == text_line_pair(cs@, line_view(single)),
{
    let parts = split_trimmed(cs, '/');
    if parts.len() == 2 {
        (part_grid_line(&parts[0]), part_grid_line(&parts[1]))
    } else {
        (single, GridLine::auto())
    }
}

/// Parse the `grid-row` / `grid-column` shorthand: `start / end`.
pub fn parse_grid_line_shorthand(value: &CssValue) -> (r: (GridLine, GridLine))
    ensures
        (line_view(r.0), line_view(r.1)) == shorthand_lines(*value),
{
    match value {
        CssValue::Ident(s) => {
            let cs = chars_of(s.as_str());
            let single = keyword_grid_line(&cs);
            text_grid_lines(&cs, single)
        },
        CssValue::String(s) => {
            let cs = chars_of(s.as_str());
            text_grid_lines(&cs, GridLine::auto())
        },
        CssValue::List(values) => {
            if values.len() == 2 {
                (parse_grid_line(&values[0]), parse_grid_line(&values[1]))
            } else {
                (GridLine::auto(), GridLine::auto())
            }
        },
        _ => (parse_grid_line(value), GridLine::auto()),
    }
}

/// The four lines of a `grid-area` text.
fn text_grid_area(cs: &Vec<char>) -> (r: (GridLine, GridLine, GridLine, GridLine))
    ensures
        (line_view(r.0), line_view(r.1), line_view(r.2), line_view(r.3)) == text_area_lines(cs@),
{
    let p = split_trimmed(cs, '/');
    if p.len() == 2 {
        (keyword_grid_line(&p[0]), keyword_grid_line(&p[1]), GridLine::auto(), GridLine::auto())
    } else if p.len() == 4 {
        (keyword_grid_line(&p[0]), keyword_grid_line(&p[1]), keyword_grid_line(&p[2]), keyword_grid_line(&p[3]))
    } else {
        (named_line(cs), GridLine::auto(), GridLine::auto(), GridLine::auto())
    }
}

/// Parse `grid-area`: row start, column start, row end, column end.
pub fn parse_grid_area(value: &CssValue) -> (r: (GridLine, GridLine, GridLine, GridLine))
    ensures
        (line_view(r.0), line_view(r.1), line_view(r.2), line_view(r.3)) == area_lines(*value),
{
    match value {
        CssValue::Ident(s) => {
            let cs = chars_of(s.as_str());
            text_grid_area(&cs)
        },
        CssValue::String(s) => {
            let cs = chars_of(s.as_str());
            text_grid_area(&cs)
        },
        CssValue::List(values) => {
            if values.len() == 1 {
                (parse_grid_line(&values[0]), parse_grid_line(&values[0]), GridLine::auto(), GridLine::auto())
            } else if values.len() == 2 {
                (parse_grid_line(&values[0]), parse_grid_line(&values[1]), GridLine::auto(), GridLine::auto())
            } else if values.len() == 4 {
                (parse_grid_line(&values[0]), parse_grid_line(&values[1]), parse_grid_line(&values[2]),
                    parse_grid_line(&values[3]))
            } else {
                (GridLine::auto(), GridLine::auto(), GridLine::auto(), GridLine::auto())
            }
        },
        _ => (GridLine::auto(), GridLine::auto(), GridLine::auto(), GridLine::auto()),
    }
}

/// The auto-flow of a `grid-auto-flow` value: a keyword as
/// `parse_grid_auto_flow` reads it, else row order.
pub open spec fn auto_flow_value_of(v: CssValue) -> GridAutoFlow {
    match v {
        CssValue::Ident(s) => auto_flow_of(s@),
        _ => GridAutoFlow::Row,
    }
}

/// Parse a `grid-auto-flow` value.
pub fn parse_grid_auto_flow_value(value: &CssValue) -> (r: GridAutoFlow)
    ensures
        r == auto_flow_value_of(*value),
{
    match value {
        CssValue::Ident(s) => parse_grid_auto_flow(s.as_str()),
        _ => GridAutoFlow::Row,
    }
}

/// CSS specificity: (a, b, c) where a = ID count, b = class/attribute/pseudo count, c = type count
#[derive(Debug, Clone, Copy, PartialEq, Eq, PartialOrd, Ord, Structural)]
pub struct Specificity(pub u32, pub u32, pub u32);

/// What one selector part adds to each of the three counts.
pub open spec fn part_weight(p: SelectorPart) -> (int, int, int) {
    match p {
        SelectorPart::Id(_) => (1, 0, 0),
        SelectorPart::Class(_) | SelectorPart::Attribute { .. } | SelectorPart::PseudoClass(_) => (0, 1, 0),
        SelectorPart::Type(_) | SelectorPart::PseudoElement(_) => (0, 0, 1),
        _ => (0, 0, 0),
    }
}

/// The three counts of a sequence of selector parts.
pub open spec fn specificity_of(ps: Seq<SelectorPart>) -> (int, int, int)
    decreases ps.len(),
{
    if ps.len() == 0 {
        (0, 0, 0)
    } else {
        let a = specificity_of(ps.drop_last());
        let w = part_weight(ps.last());
        (a.0 + w.0, a.1 + w.1, a.2 + w.2)
    }
}

impl Specificity {
    pub fn new() -> (r: Self)
        ensures
            r == Specificity(0, 0, 0),
    {
        Specificity(0, 0, 0)
    }

    /// Counts the ids; the classes, attributes and pseudo-classes; and the
    /// types and pseudo-elements of a selector.
    pub fn from_selector(selector: &Selector) -> (r: Self)
        requires
            selector.parts@.len() <= u32::MAX,
        ensures
            (r.0 as int, r.1 as int, r.2 as int) == specificity_of(selector.parts@),
    {
        let mut spec = Specificity::new();
        let mut i: usize = 0;
        while i < selector.parts.len()
            invariant
                i <= selector.parts@.len() <= u32::MAX,
                (spec.0 as int, spec.1 as int, spec.2 as int) == specificity_of(selector.parts@.take(i as int)),
                spec.0 <= i && spec.1 <= i && spec.2 <= i,
            decreases selector.parts@.len() - i,
        {
            proof {
                let t = selector.parts@.take(i + 1);
                assert(t.drop_last() =~= selector.parts@.take(i as int));
                assert(t.last() == selector.parts@[i as int]);
            }
            match &selector.parts[i] {
                SelectorPart::Id(_) => spec.0 = spec.0 + 1,
                SelectorPart::Class(_) | SelectorPart::Attribute { .. } | SelectorPart::PseudoClass(_) => spec.1 = spec.1 + 1,
                SelectorPart::Type(_) | SelectorPart::PseudoElement(_) => spec.2 = spec.2 + 1,
                _ => {},
            }
            i = i + 1;
        }
        assert(selector.parts@.take(selector.parts@.len() as int) =~= selector.parts@);
        spec
    }
}

/// The names of the strings and keywords among list items, in order.
pub open spec fn family_names(vs: Seq<CssValue>) -> Seq<Seq<char>>
    decreases vs.len(),
{
    if vs.len() == 0 {
        Seq::empty()
    } else {
        let init = family_names(vs.drop_last());
        match vs.last() {
            CssValue::String(s) => init.push(s@),
            CssValue::Ident(s) => init.push(s@),
            _ => init,
        }
    }
}

/// The font families of a value: the strings and keywords of a list, a
/// single string or keyword, else `serif`; `serif` when none remains.
pub open spec fn font_families_of(v: CssValue) -> Seq<Seq<char>> {
    let fs = match v {
        CssValue::List(vs) => family_names(vs@),
        CssValue::String(s) => seq![s@],
        CssValue::Ident(s) => seq![s@],
        _ => seq!["serif"@],
    };
    if fs.len() == 0 { seq!["serif"@] } else { fs }
}

/// Parse `font-family`, with `serif` as the fallback.
pub fn parse_font_family(value: &CssValue) -> (r: Vec<String>)
    ensures
        r@.len() == font_families_of(*value).len(),
        forall|i: int| 0 <= i < r@.len() ==> (#[trigger] r@[i])@ == font_families_of(*value)[i],
{
    let mut families: Vec<String> = Vec::new();
    let ghost mut fs: Seq<Seq<char>> = Seq::empty();
    match value {
        CssValue::List(values) => {
            let mut i: usize = 0;
            while i < values.len()
                invariant
                    i <= values@.len(),
                    fs == family_names(values@.take(i as int)),
                    families@.len() == fs.len(),
                    forall|k: int| 0 <= k < families@.len() ==> (#[trigger] families@[k])@ == fs[k],
                decreases values@.len() - i,
            {
                proof {
                    let t = values@.take(i + 1);
                    assert(t.drop_last() =~= values@.take(i as int));
                    assert(t.last() == values@[i as int]);
                }
                match &values[i] {
                    CssValue::String(n) => {
                        families.push(n.clone());
                        proof { fs = fs.push(n@); }
                    },
                    CssValue::Ident(n) => {
                        families.push(n.clone());
                        proof { fs = fs.push(n@); }
                    },
                    _ => {},
                }
                i = i + 1;
            }
            assert(values@.take(values@.len() as int) =~= values@);
        },
        CssValue::String(n) => {
            families.push(n.clone());
            proof { fs = seq![n@]; }
        },
        CssValue::Ident(n) => {
            families.push(n.clone());
            proof { fs = seq![n@]; }
        },
        _ => {
            families.push(String::from_str("serif"));
            proof { fs = seq!["serif"@]; }
        },
    }
    if families.len() == 0 {
        let mut fallback: Vec<String> = Vec::new();
        fallback.push(String::from_str("serif"));
        fallback
    } else {
        families
    }
}

/// The page name of a `page` value: a keyword other than `auto`, or a string.
pub open spec fn page_name_of(v: CssValue) -> Option<Seq<char>> {
    match v {
        CssValue::Ident(n) => if n@ != "auto"@ { Some(n@) } else { None },
        CssValue::String(n) => Some(n@),
        _ => None,
    }
}

/// Parse named page value
pub fn parse_page_name(value: &CssValue) -> (r: Option<String>)
    ensures
        match r {
            Some(n) => page_name_of(*value) == Some(n@),
            None => page_name_of(*value) is None,
        },
{
    match value {
        CssValue::Ident(name) => {
            if str_eq(name.as_str(), "auto") { None } else { Some(name.clone()) }
        },
        CssValue::String(name) => Some(name.clone()),
        _ => None,
    }
}

/// The integer of a number value (truncated, as `as i32`), else `default`.
pub open spec fn integer_of(v: CssValue, default: i32) -> i32 {
    match v {
        CssValue::Number(n) => f32_as_i32(n.0) as i32,
        _ => default,
    }
}

pub fn parse_integer(value: &CssValue, default: i32) -> (r: i32)
    ensures
        r == integer_of(*value, default),
{
    match value {
        CssValue::Number(n) => n.to_i32(),
        _ => default,
    }
}

/// The number of a number value, else `default`.
pub open spec fn number_of(v: CssValue, default: F32Bits) -> F32Bits {
    match v {
        CssValue::Number(n) => n,
        _ => default,
    }
}

pub fn parse_number(value: &CssValue, default: F32Bits) -> (r: F32Bits)
    ensures
        r == number_of(*value, default),
{
    match value {
        CssValue::Number(n) => *n,
        _ => default,
    }
}

/// A string-set value as plain values: `(true, name)` for an attribute,
/// `(false, text)` for text; content parts have none.
pub open spec fn set_value_view(s: StringSetValue) -> Option<(bool, Seq<char>)> {
    match s {
        StringSetValue::Text(t) => Some((false, t@)),
        StringSetValue::Attr(a) => Some((true, a@)),
        _ => None,
    }
}

/// What a string-set value reads: a string's text; `attr(name)`; for
/// `counter(name)` the text `[name]`; anything else the empty text.
pub open spec fn string_set_value_of(v: CssValue) -> (bool, Seq<char>) {
    match v {
        CssValue::String(s) => (false, s@),
        CssValue::Function(f) => {
            let first_ident = f.arguments@.len() > 0 && f.arguments@[0] is Ident;
            if f.name@ == "attr"@ && first_ident {
                (true, f.arguments@[0]->Ident_0@)
            } else if f.name@ == "counter"@ && first_ident {
                (false, seq!['['] + f.arguments@[0]->Ident_0@ + seq![']'])
            } else {
                (false, Seq::empty())
            }
        },
        _ => (false, Seq::empty()),
    }
}

/// Parse individual string-set value
pub fn parse_string_set_value(value: &CssValue) -> (r: StringSetValue)
    ensures
        set_value_view(r) == Some(string_set_value_of(*value)),
{
    match value {
        CssValue::String(s) => StringSetValue::Text(s.clone()),
        CssValue::Function(f) => {
            if str_eq(f.name.as_str(), "attr") {
                if f.arguments.len() > 0 {
                    if let CssValue::Ident(attr_name) = &f.arguments[0] {
                        return StringSetValue::Attr(attr_name.clone());
                    }
                }
                StringSetValue::Text(String::new())
            } else if str_eq(f.name.as_str(), "counter") {
                if f.arguments.len() > 0 {
                    if let CssValue::Ident(counter_name) = &f.arguments[0] {
                        let mut t = String::new();
                        crate::strings::push_char(&mut t, '[');
                        t.append(counter_name.as_str());
                        crate::strings::push_char(&mut t, ']');
                        return StringSetValue::Text(t);
                    }
                }
                StringSetValue::Text(String::new())
            } else {
                StringSetValue::Text(String::new())
            }
        },
        _ => StringSetValue::Text(String::new()),
    }
}

/// The (name, value) pairs of a list: each keyword followed by a value
/// names that value; other items are skipped, as is a keyword at the end.
pub open spec fn set_pairs(vs: Seq<CssValue>) -> Seq<(Seq<char>, (bool, Seq<char>))>
    decreases vs.len(),
{
    if vs.len() == 0 {
        Seq::empty()
    } else {
        match vs[0] {
            CssValue::Ident(n) => if vs.len() >= 2 {
                seq![(n@, string_set_value_of(vs[1]))] + set_pairs(vs.skip(2))
            } else {
                Seq::empty()
            },
            _ => set_pairs(vs.skip(1)),
        }
    }
}

/// The pairs of a `string-set` value; only a list holds any.
pub open spec fn string_set_of(v: CssValue) -> Seq<(Seq<char>, (bool, Seq<char>))> {
    match v {
        CssValue::List(vs) => set_pairs(vs@),
        _ => Seq::empty(),
    }
}

/// Parse string-set declaration
/// Format: string-set: header "Chapter 1", footer "Page " counter(page);
pub fn parse_string_set(value: &CssValue) -> (r: Vec<(String, StringSetValue)>)
    ensures
        r@.len() == string_set_of(*value).len(),
        forall|k: int| 0 <= k < r@.len() ==> (#[trigger] r@[k]).0@ == string_set_of(*value)[k].0
            && set_value_view(r@[k].1) == Some(string_set_of(*value)[k].1),
{
    let mut result: Vec<(String, StringSetValue)> = Vec::new();
    match value {
        CssValue::List(values) => {
            let ghost all = set_pairs(values@);
            let mut i: usize = 0;
            assert(values@.skip(0) =~= values@);
            while i < values.len()
                invariant
                    i <= values@.len(),
                    all == set_pairs(values@),
                    result@.len() + set_pairs(values@.skip(i as int)).len() == all.len(),
                    forall|k: int| 0 <= k < result@.len() ==> (#[trigger] result@[k]).0@ == all[k].0
                        && set_value_view(result@[k].1) == Some(all[k].1),
                    forall|k: int| 0 <= k < set_pairs(values@.skip(i as int)).len()
                        ==> #[trigger] set_pairs(values@.skip(i as int))[k] == all[result@.len() + k],
                decreases values@.len() - i,
            {
                let ghost t = values@.skip(i as int);
                assert(t[0] == values@[i as int]);
                if let CssValue::Ident(name) = &values[i] {
                    if i + 1 < values.len() {
                        let v = parse_string_set_value(&values[i + 1]);
                        proof {
                            assert(t[1] == values@[i + 1]);
                            assert(t.skip(2) =~= values@.skip(i + 2));
                            let rest = set_pairs(values@.skip(i + 2));
                            assert(set_pairs(t) == seq![(name@, string_set_value_of(values@[i + 1]))] + rest);
                            assert(set_pairs(t)[0] == all[result@.len() as int]);
                            assert forall|k: int| 0 <= k < rest.len() implies #[trigger] rest[k] == all[result@.len() + 1 + k] by {
                                assert(rest[k] == set_pairs(t)[k + 1]);
                            }
                        }
                        result.push((name.clone(), v));
                        i = i + 2;
                    } else {
                        proof {
                            assert(set_pairs(t).len() == 0);
                            assert(values@.skip(i + 1).len() == 0);
                            assert(set_pairs(values@.skip(i + 1)) =~= Seq::<(Seq<char>, (bool, Seq<char>))>::empty());
                        }
                        i = i + 1;
                    }
                } else {
                    proof {
                        assert(t.skip(1) =~= values@.skip(i + 1));
                        assert(set_pairs(t) == set_pairs(values@.skip(i + 1)));
                    }
                    i = i + 1;
                }
            }
            proof {
                assert(values@.skip(i as int).len() == 0);
            }
        },
        _ => {},
    }
    result
}

/// The length of a number in a unit; units without a length give `auto`.
pub open spec fn length_in(value: F32Bits, unit: Unit) -> Length {
    match unit {
        Unit::Px => Length::Px(value),
        Unit::Pt => Length::Pt(value),
        Unit::Mm => Length::Mm(value),
        Unit::Cm => Length::Cm(value),
        Unit::In => Length::In(value),
        Unit::Em => Length::Em(value),
        Unit::Rem => Length::Rem(value),
        Unit::Percent => Length::Percent(value),
        _ => Length::Auto,
    }
}

impl Length {
    /// The length of a number in a unit.
    pub fn from_css_value(value: F32Bits, unit: Unit) -> (r: Self)
        ensures
            r == length_in(value, unit),
    {
        match unit {
            Unit::Px => Length::Px(value),
            Unit::Pt => Length::Pt(value),
            Unit::Mm => Length::Mm(value),
            Unit::Cm => Length::Cm(value),
            Unit::In => Length::In(value),
            Unit::Em => Length::Em(value),
            Unit::Rem => Length::Rem(value),
            Unit::Percent => Length::Percent(value),
            _ => Length::Auto,
        }
    }
}

/// The length of a CSS value: a length in its unit, a bare number in
/// pixels, a percentage, else `auto`.
pub open spec fn length_of(v: CssValue) -> Length {
    match v {
        CssValue::Length(n, unit) => length_in(n, unit),
        CssValue::Number(n) => Length::Px(n),
        CssValue::Percentage(p) => Length::Percent(p),
        _ => Length::Auto,
    }
}

pub fn parse_length(value: &CssValue) -> (r: Length)
    ensures
        r == length_of(*value),
{
    match value {
        CssValue::Length(n, unit) => Length::from_css_value(*n, *unit),
        CssValue::Number(n) => Length::Px(*n),
        CssValue::Percentage(p) => Length::Percent(*p),
        _ => Length::Auto,
    }
}

/// The lengths of a list's items.
pub open spec fn lengths_of(vs: Seq<CssValue>) -> Seq<Length> {
    Seq::new(vs.len(), |i: int| length_of(vs[i]))
}

/// The lengths of list items, in order.
fn list_lengths(values: &Vec<CssValue>) -> (r: Vec<Length>)
    ensures
        r@ == lengths_of(values@),
{
    let mut r: Vec<Length> = Vec::new();
    let mut i: usize = 0;
    while i < values.len()
        invariant
            i <= values@.len(),
            r@ == lengths_of(values@).take(i as int),
        decreases values@.len() - i,
    {
        r.push(parse_length(&values[i]));
        assert(lengths_of(values@).take(i + 1) =~= lengths_of(values@).take(i as int).push(length_of(values@[i as int])));
        i = i + 1;
    }
    assert(lengths_of(values@).take(values@.len() as int) =~= lengths_of(values@));
    r
}

/// Top, right, bottom and left of a `margin` or `padding` value: one to
/// four lengths in the CSS order (a missing side repeats its opposite);
/// any other number of list items gives zero pixels on every side.
pub open spec fn box_sides_of(v: CssValue) -> (Length, Length, Length, Length) {
    match v {
        CssValue::List(vs) => {
            let l = lengths_of(vs@);
            if l.len() == 1 {
                (l[0], l[0], l[0], l[0])
            } else if l.len() == 2 {
                (l[0], l[1], l[0], l[1])
            } else if l.len() == 3 {
                (l[0], l[1], l[2], l[1])
            } else if l.len() == 4 {
                (l[0], l[1], l[2], l[3])
            } else {
                (Length::Px(F32Bits(0)), Length::Px(F32Bits(0)), Length::Px(F32Bits(0)), Length::Px(F32Bits(0)))
            }
        },
        _ => (length_of(v), length_of(v), length_of(v), length_of(v)),
    }
}

/// The CSS order of the box shorthands: one to four values give top,
/// right, bottom and left in that order, and a side left out repeats its
/// opposite side (left repeats right, bottom repeats top, right repeats
/// top); a single value that is not a list sets all four sides.
pub proof fn lemma_box_sides_css_order(vs: Vec<CssValue>)
    requires
        1 <= vs@.len() <= 4,
    ensures
        ({
            let r = box_sides_of(CssValue::List(vs));
            let n = vs@.len();
            &&& r.0 == length_of(vs@[0])
            &&& n >= 2 ==> r.1 == length_of(vs@[1])
            &&& n >= 3 ==> r.2 == length_of(vs@[2])
            &&& n >= 4 ==> r.3 == length_of(vs@[3])
            &&& n < 4 ==> r.3 == r.1
            &&& n < 3 ==> r.2 == r.0
            &&& n < 2 ==> r.1 == r.0
        }),
{
}

/// A single value that is not a list sets all four sides of a box
/// shorthand.
pub proof fn lemma_box_sides_single_value(v: CssValue)
    requires
        !(v is List),
    ensures
        box_sides_of(v) == (length_of(v), length_of(v), length_of(v), length_of(v)),
{
}

pub fn parse_margin_or_padding(value: &CssValue) -> (r: (Length, Length, Length, Length))
    ensures
        r == box_sides_of(*value),
{
    match value {
        CssValue::List(values) => {
            let l = list_lengths(values);
            if l.len() == 1 {
                (l[0], l[0], l[0], l[0])
            } else if l.len() == 2 {
                (l[0], l[1], l[0], l[1])
            } else if l.len() == 3 {
                (l[0], l[1], l[2], l[1])
            } else if l.len() == 4 {
                (l[0], l[1], l[2], l[3])
            } else {
                (Length::Px(F32Bits(0)), Length::Px(F32Bits(0)), Length::Px(F32Bits(0)), Length::Px(F32Bits(0)))
            }
        },
        _ => {
            let len = parse_length(value);
            (len, len, len, len)
        },
    }
}

/// Row and column gaps of a `gap` value: one length for both, two for
/// each, any other number of list items zero pixels.
pub open spec fn gaps_of(v: CssValue) -> (Length, Length) {
    match v {
        CssValue::List(vs) => {
            let l = lengths_of(vs@);
            if l.len() == 1 {
                (l[0], l[0])
            } else if l.len() == 2 {
                (l[0], l[1])
            } else {
                (Length::Px(F32Bits(0)), Length::Px(F32Bits(0)))
            }
        },
        _ => (length_of(v), length_of(v)),
    }
}

pub fn parse_gap(value: &CssValue) -> (r: (Length, Length))
    ensures
        r == gaps_of(*value),
{
    match value {
        CssValue::List(values) => {
            let l = list_lengths(values);
            if l.len() == 1 {
                (l[0], l[0])
            } else if l.len() == 2 {
                (l[0], l[1])
            } else {
                (Length::Px(F32Bits(0)), Length::Px(F32Bits(0)))
            }
        },
        _ => {
            let len = parse_length(value);
            (len, len)
        },
    }
}

/// Background size property
#[derive(Debug, Clone, Copy, PartialEq, Eq, Structural)]
pub enum BackgroundSize {
    Auto,
    Cover,
    Contain,
    Dimensions(Length, Length),
}

impl Default for BackgroundSize {
    fn default() -> (r: Self)
        ensures
            r == BackgroundSize::Auto,
    {
        BackgroundSize::Auto
    }
}

/// The background size of a value: `cover`, `contain`, two lengths, else `auto`.
pub open spec fn background_size_of(v: CssValue) -> BackgroundSize {
    match v {
        CssValue::Ident(s) => if s@ == "cover"@ {
            BackgroundSize::Cover
        } else if s@ == "contain"@ {
            BackgroundSize::Contain
        } else {
            BackgroundSize::Auto
        },
        CssValue::List(vs) => if vs@.len() == 2 {
            BackgroundSize::Dimensions(length_of(vs@[0]), length_of(vs@[1]))
        } else {
            BackgroundSize::Auto
        },
        _ => BackgroundSize::Auto,
    }
}

pub fn parse_background_size(value: &CssValue) -> (r: BackgroundSize)
    ensures
        r == background_size_of(*value),
{
    match value {
        CssValue::Ident(s) => {
            let t = s.as_str();
            if str_eq(t, "cover") {
                BackgroundSize::Cover
            } else if str_eq(t, "contain") {
                BackgroundSize::Contain
            } else {
                BackgroundSize::Auto
            }
        },
        CssValue::List(values) => {
            if values.len() == 2 {
                BackgroundSize::Dimensions(parse_length(&values[0]), parse_length(&values[1]))
            } else {
                BackgroundSize::Auto
            }
        },
        _ => BackgroundSize::Auto,
    }
}

/// Line height
#[derive(Debug, Clone, Copy, PartialEq, Eq, Structural)]
pub enum LineHeight {
    Normal,
    Number(F32Bits),
    Length(Length),
}

impl Default for LineHeight {
    fn default() -> (r: Self)
        ensures
            r == LineHeight::Normal,
    {
        LineHeight::Normal
    }
}

/// The line height of a value: a bare number as a factor, `normal`, else a length.
pub open spec fn line_height_of(v: CssValue) -> LineHeight {
    match v {
        CssValue::Number(n) => LineHeight::Number(n),
        CssValue::Ident(s) => if s@ == "normal"@ { LineHeight::Normal } else { LineHeight::Length(length_of(v)) },
        _ => LineHeight::Length(length_of(v)),
    }
}

pub fn parse_line_height(value: &CssValue) -> (r: LineHeight)
    ensures
        r == line_height_of(*value),
{
    match value {
        CssValue::Number(n) => LineHeight::Number(*n),
        CssValue::Ident(s) => {
            if str_eq(s.as_str(), "normal") {
                LineHeight::Normal
            } else {
                LineHeight::Length(parse_length(value))
            }
        },
        _ => LineHeight::Length(parse_length(value)),
    }
}

/// Position value for background-position
#[derive(Debug, Clone, Copy, PartialEq, Eq, Structural)]
pub enum PositionValue {
    Left,
    Center,
    Right,
    Top,
    Bottom,
    Percentage(F32Bits),
    Length(Length),
}

impl Default for PositionValue {
    fn default() -> (r: Self)
        ensures
            r == PositionValue::Percentage(F32Bits(0)),
    {
        PositionValue::Percentage(F32Bits(0))
    }
}

/// Background position property
#[derive(Debug, Clone, Copy, PartialEq, Eq, Structural)]
pub struct BackgroundPosition {
    pub horizontal: PositionValue,
    pub vertical: PositionValue,
}

impl BackgroundPosition {
    /// Centered on both axes.
    pub fn center() -> (r: Self)
        ensures
            r == (BackgroundPosition { horizontal: PositionValue::Center, vertical: PositionValue::Center }),
    {
        BackgroundPosition { horizontal: PositionValue::Center, vertical: PositionValue::Center }
    }
}

/// The background position of a single keyword; anything else centers.
pub open spec fn background_position_of(v: CssValue) -> BackgroundPosition {
    match v {
        CssValue::Ident(s) => if s@ == "center"@ {
            BackgroundPosition { horizontal: PositionValue::Center, vertical: PositionValue::Center }
        } else if s@ == "top"@ {
            BackgroundPosition { horizontal: PositionValue::Center, vertical: PositionValue::Top }
        } else if s@ == "bottom"@ {
            BackgroundPosition { horizontal: PositionValue::Center, vertical: PositionValue::Bottom }
        } else if s@ == "left"@ {
            BackgroundPosition { horizontal: PositionValue::Left, vertical: PositionValue::Center }
        } else if s@ == "right"@ {
            BackgroundPosition { horizontal: PositionValue::Right, vertical: PositionValue::Center }
        } else {
            BackgroundPosition { horizontal: PositionValue::Center, vertical: PositionValue::Center }
        },
        _ => BackgroundPosition { horizontal: PositionValue::Center, vertical: PositionValue::Center },
    }
}

pub fn parse_background_position(value: &CssValue) -> (r: BackgroundPosition)
    ensures
        r == background_position_of(*value),
{
    match value {
        CssValue::Ident(s) => {
            let t = s.as_str();
            if str_eq(t, "center") {
                BackgroundPosition::center()
            } else if str_eq(t, "top") {
                BackgroundPosition { horizontal: PositionValue::Center, vertical: PositionValue::Top }
            } else if str_eq(t, "bottom") {
                BackgroundPosition { horizontal: PositionValue::Center, vertical: PositionValue::Bottom }
            } else if str_eq(t, "left") {
                BackgroundPosition { horizontal: PositionValue::Left, vertical: PositionValue::Center }
            } else if str_eq(t, "right") {
                BackgroundPosition { horizontal: PositionValue::Right, vertical: PositionValue::Center }
            } else {
                BackgroundPosition::center()
            }
        },
        _ => BackgroundPosition::center(),
    }
}

} // verus!
