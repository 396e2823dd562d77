//! Table properties: the keyword parsers of the table properties, the
//! display of table elements, and the grid of cells that row and column
//! spans cover.

use vstd::prelude::*;
use crate::css::CssValue;
use crate::layout::style::Display;
use crate::strings::{str_eq, lower_chars, chars_are, ascii_lower_seq};
use crate::types::F32Bits;

verus! {

/// Table layout mode: `Fixed` uses the specified column widths, `Auto` sizes columns by their content
#[derive(Debug, Clone, Copy, PartialEq, Eq, Structural)]
pub enum TableLayout {
    Fixed,
    Auto,
}

impl Default for TableLayout {
    fn default() -> (r: Self)
        ensures
            r == TableLayout::Fixed,
    {
        TableLayout::Fixed
    }
}

/// Border collapse mode
#[derive(Debug, Clone, Copy, PartialEq, Eq, Structural)]
pub enum BorderCollapse {
    Separate,
    Collapse,
}

impl Default for BorderCollapse {
    fn default() -> (r: Self)
        ensures
            r == BorderCollapse::Separate,
    {
        BorderCollapse::Separate
    }
}

/// Caption side position
#[derive(Debug, Clone, Copy, PartialEq, Eq, Structural)]
pub enum CaptionSide {
    Top,
    Bottom,
    Left,
    Right,
}

impl Default for CaptionSide {
    fn default() -> (r: Self)
        ensures
            r == CaptionSide::Top,
    {
        CaptionSide::Top
    }
}

/// Empty cells handling
#[derive(Debug, Clone, Copy, PartialEq, Eq, Structural)]
pub enum EmptyCells {
    Show,
    Hide,
}

impl Default for EmptyCells {
    fn default() -> (r: Self)
        ensures
            r == EmptyCells::Show,
    {
        EmptyCells::Show
    }
}

/// Cell horizontal alignment
#[derive(Debug, Clone, Copy, PartialEq, Eq, Structural)]
pub enum CellAlign {
    Left,
    Center,
    Right,
    Justify,
    Char,
}

impl Default for CellAlign {
    fn default() -> (r: Self)
        ensures
            r == CellAlign::Left,
    {
        CellAlign::Left
    }
}

/// Cell vertical alignment
#[derive(Debug, Clone, Copy, PartialEq, Eq, Structural)]
pub enum CellVerticalAlign {
    Top,
    Middle,
    Bottom,
    Baseline,
}

impl Default for CellVerticalAlign {
    fn default() -> (r: Self)
        ensures
            r == CellVerticalAlign::Middle,
    {
        CellVerticalAlign::Middle
    }
}


/// The value of a `table-layout` keyword; other values give `Auto`.
pub open spec fn table_layout_of(v: CssValue) -> TableLayout {
    match v {
        CssValue::Ident(s) => if s@ == "fixed"@ { TableLayout::Fixed } else if s@ == "auto"@ { TableLayout::Auto } else { TableLayout::Auto },
        _ => TableLayout::Auto,
    }
}

pub fn parse_table_layout(value: &CssValue) -> (r: TableLayout)
    ensures
        r == table_layout_of(*value),
{
    match value {
        CssValue::Ident(s) => {
            let t = s.as_str();
            if str_eq(t, "fixed") {
                TableLayout::Fixed
            } else if str_eq(t, "auto") {
                TableLayout::Auto
            } else {
                TableLayout::Auto
            }
        },
        _ => TableLayout::Auto,
    }
}

/// The value of a `border-collapse` keyword; other values give `Separate`.
pub open spec fn border_collapse_of(v: CssValue) -> BorderCollapse {
    match v {
        CssValue::Ident(s) => if s@ == "collapse"@ { BorderCollapse::Collapse } else if s@ == "separate"@ { BorderCollapse::Separate } else { BorderCollapse::Separate },
        _ => BorderCollapse::Separate,
    }
}

pub fn parse_border_collapse(value: &CssValue) -> (r: BorderCollapse)
    ensures
        r == border_collapse_of(*value),
{
    match value {
        CssValue::Ident(s) => {
            let t = s.as_str();
            if str_eq(t, "collapse") {
                BorderCollapse::Collapse
            } else if str_eq(t, "separate") {
                BorderCollapse::Separate
            } else {
                BorderCollapse::Separate
            }
        },
        _ => BorderCollapse::Separate,
    }
}

/// The value of a `caption-side` keyword; other values give `Top`.
pub open spec fn caption_side_of(v: CssValue) -> CaptionSide {
    match v {
        CssValue::Ident(s) => if s@ == "top"@ { CaptionSide::Top } else if s@ == "bottom"@ { CaptionSide::Bottom } else if s@ == "left"@ { CaptionSide::Left } else if s@ == "right"@ { CaptionSide::Right } else { CaptionSide::Top },
        _ => CaptionSide::Top,
    }
}

pub fn parse_caption_side(value: &CssValue) -> (r: CaptionSide)
    ensures
        r == caption_side_of(*value),
{
    match value {
        CssValue::Ident(s) => {
            let t = s.as_str();
            if str_eq(t, "top") {
                CaptionSide::Top
            } else if str_eq(t, "bottom") {
                CaptionSide::Bottom
            } else if str_eq(t, "left") {
                CaptionSide::Left
            } else if str_eq(t, "right") {
                CaptionSide::Right
            } else {
                CaptionSide::Top
            }
        },
        _ => CaptionSide::Top,
    }
}

/// The value of a `empty-cells` keyword; other values give `Show`.
pub open spec fn empty_cells_of(v: CssValue) -> EmptyCells {
    match v {
        CssValue::Ident(s) => if s@ == "show"@ { EmptyCells::Show } else if s@ == "hide"@ { EmptyCells::Hide } else { EmptyCells::Show },
        _ => EmptyCells::Show,
    }
}

/// The spacing of one value: a length's number or a bare number, else 2.
pub open spec fn spacing_of(v: CssValue) -> F32Bits {
    match v {
        CssValue::Length(n, _) => n,
        CssValue::Number(n) => n,
        _ => F32Bits(0x4000_0000),
    }
}

fn parse_spacing_value(value: &CssValue) -> (r: F32Bits)
    ensures
        r == spacing_of(*value),
{
    match value {
        CssValue::Length(n, _) => *n,
        CssValue::Number(n) => *n,
        _ => F32Bits(0x4000_0000),
    }
}

/// Horizontal and vertical spacing of a `border-spacing` value: the first
/// two items of a list of two or more, else one value for both.
pub open spec fn border_spacing_of(v: CssValue) -> (F32Bits, F32Bits) {
    match v {
        CssValue::List(vs) => if vs@.len() >= 2 {
            (spacing_of(vs@[0]), spacing_of(vs@[1]))
        } else {
            (spacing_of(v), spacing_of(v))
        },
        _ => (spacing_of(v), spacing_of(v)),
    }
}

/// Parse border-spacing CSS property
pub fn parse_border_spacing(value: &CssValue) -> (r: (F32Bits, F32Bits))
    ensures
        r == border_spacing_of(*value),
{
    match value {
        CssValue::List(values) => {
            if values.len() >= 2 {
                (parse_spacing_value(&values[0]), parse_spacing_value(&values[1]))
            } else {
                let v = parse_spacing_value(value);
                (v, v)
            }
        },
        _ => {
            let v = parse_spacing_value(value);
            (v, v)
        },
    }
}

pub fn parse_empty_cells(value: &CssValue) -> (r: EmptyCells)
    ensures
        r == empty_cells_of(*value),
{
    match value {
        CssValue::Ident(s) => {
            let t = s.as_str();
            if str_eq(t, "show") {
                EmptyCells::Show
            } else if str_eq(t, "hide") {
                EmptyCells::Hide
            } else {
                EmptyCells::Show
            }
        },
        _ => EmptyCells::Show,
    }
}

/// The tag names of table elements, in lowercase.
pub open spec fn is_table_tag(t: Seq<char>) -> bool {
    t == "table"@ || t == "thead"@ || t == "tbody"@ || t == "tfoot"@ || t == "tr"@ || t == "td"@
        || t == "th"@ || t == "caption"@ || t == "colgroup"@ || t == "col"@
}

/// Check if element is a table element (tag names compared without ASCII case)
pub fn is_table_element(tag_name: &str) -> (r: bool)
    ensures
        r == is_table_tag(ascii_lower_seq(tag_name@)),
{
    let t = lower_chars(tag_name);
    chars_are(&t, "table") || chars_are(&t, "thead") || chars_are(&t, "tbody") || chars_are(&t, "tfoot")
        || chars_are(&t, "tr") || chars_are(&t, "td") || chars_are(&t, "th") || chars_are(&t, "caption")
        || chars_are(&t, "colgroup") || chars_are(&t, "col")
}

/// The display of a table element by its lowercase tag name.
pub open spec fn table_display_of(t: Seq<char>) -> Option<Display> {
    if t == "table"@ {
        Some(Display::Table)
    } else if t == "thead"@ || t == "tbody"@ || t == "tfoot"@ {
        Some(Display::TableRowGroup)
    } else if t == "tr"@ {
        Some(Display::TableRow)
    } else if t == "td"@ || t == "th"@ {
        Some(Display::TableCell)
    } else if t == "caption"@ {
        Some(Display::Block)
    } else if t == "colgroup"@ {
        Some(Display::TableColumnGroup)
    } else if t == "col"@ {
        Some(Display::TableColumn)
    } else {
        None
    }
}

/// Get the display type for a table element
pub fn table_element_display(tag_name: &str) -> (r: Option<Display>)
    ensures
        r == table_display_of(ascii_lower_seq(tag_name@)),
{
    let t = lower_chars(tag_name);
    if chars_are(&t, "table") {
        Some(Display::Table)
    } else if chars_are(&t, "thead") || chars_are(&t, "tbody") || chars_are(&t, "tfoot") {
        Some(Display::TableRowGroup)
    } else if chars_are(&t, "tr") {
        Some(Display::TableRow)
    } else if chars_are(&t, "td") || chars_are(&t, "th") {
        Some(Display::TableCell)
    } else if chars_are(&t, "caption") {
        Some(Display::Block)
    } else if chars_are(&t, "colgroup") {
        Some(Display::TableColumnGroup)
    } else if chars_are(&t, "col") {
        Some(Display::TableColumn)
    } else {
        None
    }
}

/// Whether cell (`row`, `col`) of an occupancy grid is taken.
pub open spec fn grid_taken(g: Seq<Seq<bool>>, row: int, col: int) -> bool {
    0 <= row < g.len() && 0 <= col < g[row].len() && g[row][col]
}

/// Table layout context: the sizes the layout works with and the cells
/// that spanning cells cover.
pub struct TableLayoutContext {
    /// Available width for the table
    pub available_width: F32Bits,
    /// Base font size for calculations
    pub base_font_size: F32Bits,
    /// Current column being processed
    pub current_col: usize,
    /// Current row being processed
    pub current_row: usize,
    /// Grid of cells covered by spanning cells, row by row
    pub occupied_grid: Vec<Vec<bool>>,
}

/// The cells of the grid as plain values.
pub open spec fn grid_view(g: Seq<Vec<bool>>) -> Seq<Seq<bool>> {
    Seq::new(g.len(), |i: int| g[i]@)
}

impl TableLayoutContext {
    pub fn new(available_width: F32Bits, base_font_size: F32Bits) -> (r: Self)
        ensures
            r.available_width == available_width,
            r.base_font_size == base_font_size,
            r.current_col == 0,
            r.current_row == 0,
            r.occupied_grid@.len() == 0,
    {
        TableLayoutContext {
            available_width,
            base_font_size,
            current_col: 0,
            current_row: 0,
            occupied_grid: Vec::new(),
        }
    }

    /// Marks the cells that a cell at (`row`, `col`) spanning `rowspan`
    /// rows and `colspan` columns covers, itself included; other cells keep
    /// their state.
    pub fn mark_occupied(&mut self, row: usize, col: usize, rowspan: usize, colspan: usize)
        requires
            row + rowspan <= usize::MAX,
            col + colspan <= usize::MAX,
        ensures
            final(self).available_width == old(self).available_width,
            final(self).base_font_size == old(self).base_font_size,
            final(self).current_col == old(self).current_col,
            final(self).current_row == old(self).current_row,
            forall|r: int, c: int| #[trigger] grid_taken(grid_view(final(self).occupied_grid@), r, c) ==
                (grid_taken(grid_view(old(self).occupied_grid@), r, c)
                    || (row <= r < row + rowspan && col <= c < col + colspan)),
    {
        let ghost g0 = grid_view(self.occupied_grid@);
        let needed_rows = row + rowspan;
        let mut grid: Vec<Vec<bool>> = Vec::new();
        std::mem::swap(&mut grid, &mut self.occupied_grid);
        while grid.len() < needed_rows
            invariant
                forall|r: int, c: int| #[trigger] grid_taken(grid_view(grid@), r, c) == grid_taken(g0, r, c),
            decreases needed_rows - grid@.len(),
        {
            let ghost before = grid_view(grid@);
            grid.push(Vec::new());
            assert forall|r: int, c: int| #[trigger] grid_taken(grid_view(grid@), r, c) == grid_taken(before, r, c) by {
                if 0 <= r < before.len() {
                    assert(grid_view(grid@)[r] == before[r]);
                }
            }
        }
        let mut r = row;
        while r < needed_rows
            invariant
                row <= r <= needed_rows,
                needed_rows == row + rowspan,
                col + colspan <= usize::MAX,
                grid@.len() >= needed_rows,
                forall|rr: int, c: int| #[trigger] grid_taken(grid_view(grid@), rr, c) ==
                    (grid_taken(g0, rr, c) || (row <= rr < r && col <= c < col + colspan)),
            decreases needed_rows - r,
        {
            let needed_cols = col + colspan;
            let mut line: Vec<bool> = grid[r].clone();
            let ghost line0 = line@;
            assert(line0 =~= grid_view(grid@)[r as int]);
            while line.len() < needed_cols
                invariant
                    line@.len() >= line0.len(),
                    forall|c: int| 0 <= c < line@.len() ==> #[trigger] line@[c] == (c < line0.len() && line0[c]),
                decreases needed_cols - line@.len(),
            {
                line.push(false);
            }
            let mut c = col;
            while c < needed_cols
                invariant
                    col <= c <= needed_cols,
                    line@.len() >= needed_cols,
                    line@.len() >= line0.len(),
                    forall|cc: int| 0 <= cc < line@.len() ==> #[trigger] line@[cc] ==
                        ((cc < line0.len() && line0[cc]) || (col <= cc < c)),
                decreases needed_cols - c,
            {
                line.set(c, true);
                c = c + 1;
            }
            let ghost gb = grid_view(grid@);
            let ghost lv = line@;
            grid.set(r, line);
            assert(grid_view(grid@)[r as int] =~= lv);
            proof {
                assert forall|rr: int, cc: int| #[trigger] grid_taken(grid_view(grid@), rr, cc) ==
                    (grid_taken(g0, rr, cc) || (row <= rr < r + 1 && col <= cc < col + colspan)) by {
                    if rr != r {
                        if 0 <= rr < grid@.len() {
                            assert(grid_view(grid@)[rr] == gb[rr]);
                        }
                        assert(grid_taken(grid_view(grid@), rr, cc) == grid_taken(gb, rr, cc));
                    } else {
                        assert(gb[rr] == line0);
                        assert(grid_taken(gb, rr, cc) == grid_taken(g0, rr, cc));
                        if 0 <= cc < lv.len() {
                            assert(lv[cc] == ((cc < line0.len() && line0[cc]) || (col <= cc < col + colspan)));
                            assert(grid_taken(grid_view(grid@), rr, cc) == lv[cc]);
                        } else {
                            assert(!grid_taken(grid_view(grid@), rr, cc));
                            assert(!grid_taken(gb, rr, cc));
                        }
                    }
                }
            }
            r = r + 1;
        }
        self.occupied_grid = grid;
    }

    /// Check if a cell position is occupied
    pub fn is_occupied(&self, row: usize, col: usize) -> (r: bool)
        ensures
            r == grid_taken(grid_view(self.occupied_grid@), row as int, col as int),
    {
        if row < self.occupied_grid.len() {
            let line = &self.occupied_grid[row];
            if col < line.len() {
                return line[col];
            }
        }
        false
    }

    /// Find the next available column for a row: the first at or after
    /// `start_col` that is not taken.
    pub fn next_available_col(&self, row: usize, start_col: usize) -> (r: usize)
        requires
            exists|c: int| start_col <= c <= usize::MAX && !grid_taken(grid_view(self.occupied_grid@), row as int, c),
        ensures
            start_col <= r,
            !grid_taken(grid_view(self.occupied_grid@), row as int, r as int),
            forall|c: int| start_col <= c < r ==> grid_taken(grid_view(self.occupied_grid@), row as int, c),
    {
        let mut col = start_col;
        while self.is_occupied(row, col)
            invariant
                start_col <= col,
                exists|c: int| col <= c <= usize::MAX && !grid_taken(grid_view(self.occupied_grid@), row as int, c),
                forall|c: int| start_col <= c < col ==> grid_taken(grid_view(self.occupied_grid@), row as int, c),
            decreases usize::MAX - col,
        {
            col = col + 1;
        }
        col
    }
}

} // verus!
