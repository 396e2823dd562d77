//! The kinds of layout boxes, and the edges and dimensions of a box.

use vstd::prelude::*;
use crate::types::{F32Bits, Rect};
use crate::binary32::{f32_sum, f32_neg};

verus! {

/// Type of layout box
#[derive(Debug, Clone, Copy, PartialEq, Eq, Structural)]
pub enum BoxType {
    Block,
    Inline,
    InlineBlock,
    Anonymous,
    TextRun,
    Flex,
    Grid,
    Table,
    TableRow,
    TableCell,
}

impl Default for BoxType {
    fn default() -> (r: Self)
        ensures
            r == BoxType::Block,
    {
        BoxType::Block
    }
}

impl BoxType {
    /// Check if this is a block-level box type
    pub fn is_block_level(&self) -> (r: bool)
        ensures
            r == (*self is Block || *self is Flex || *self is Grid),
    {
        match self {
            BoxType::Block | BoxType::Flex | BoxType::Grid => true,
            _ => false,
        }
    }

    /// Check if this is an inline-level box type
    pub fn is_inline_level(&self) -> (r: bool)
        ensures
            r == (*self is Inline || *self is InlineBlock || *self is TextRun),
    {
        match self {
            BoxType::Inline | BoxType::InlineBlock | BoxType::TextRun => true,
            _ => false,
        }
    }

    /// Check if this establishes a block formatting context
    pub fn establishes_bfc(&self) -> (r: bool)
        ensures
            r == (*self is Block || *self is Flex || *self is Grid || *self is Anonymous),
    {
        match self {
            BoxType::Block | BoxType::Flex | BoxType::Grid | BoxType::Anonymous => true,
            _ => false,
        }
    }
}

/// Edge sizes (margin, border, padding)
#[derive(Debug, Clone, Copy, PartialEq, Eq, Structural)]
pub struct EdgeSizes {
    pub top: F32Bits,
    pub right: F32Bits,
    pub bottom: F32Bits,
    pub left: F32Bits,
}

impl Default for EdgeSizes {
    /// Zero on every side.
    fn default() -> (r: Self)
        ensures
            r == EdgeSizes::zero_spec(),
    {
        EdgeSizes { top: F32Bits(0), right: F32Bits(0), bottom: F32Bits(0), left: F32Bits(0) }
    }
}

impl EdgeSizes {
    /// Zero on every side.
    pub open spec fn zero_spec() -> EdgeSizes {
        EdgeSizes { top: F32Bits(0), right: F32Bits(0), bottom: F32Bits(0), left: F32Bits(0) }
    }

    pub fn new(top: F32Bits, right: F32Bits, bottom: F32Bits, left: F32Bits) -> (r: Self)
        ensures
            r == (EdgeSizes { top, right, bottom, left }),
    {
        EdgeSizes { top, right, bottom, left }
    }

    pub fn all(value: F32Bits) -> (r: Self)
        ensures
            r == (EdgeSizes { top: value, right: value, bottom: value, left: value }),
    {
        EdgeSizes { top: value, right: value, bottom: value, left: value }
    }

    pub fn symmetric(vertical: F32Bits, horizontal: F32Bits) -> (r: Self)
        ensures
            r == (EdgeSizes { top: vertical, right: horizontal, bottom: vertical, left: horizontal }),
    {
        EdgeSizes { top: vertical, right: horizontal, bottom: vertical, left: horizontal }
    }

    /// Left plus right.
    pub open spec fn horizontal_spec(self) -> u32 {
        f32_sum(self.left.0, self.right.0)
    }

    /// Top plus bottom.
    pub open spec fn vertical_spec(self) -> u32 {
        f32_sum(self.top.0, self.bottom.0)
    }

    /// Get total horizontal edges
    pub fn horizontal(&self) -> (r: F32Bits)
        ensures
            r.0 == self.horizontal_spec(),
    {
        self.left.sum(&self.right)
    }

    /// Get total vertical edges
    pub fn vertical(&self) -> (r: F32Bits)
        ensures
            r.0 == self.vertical_spec(),
    {
        self.top.sum(&self.bottom)
    }
}

/// `r` grown outward by `e`: moved left and up by the left and top edges,
/// widened and heightened by both edges of each axis.
pub open spec fn grown(r: Rect, e: EdgeSizes) -> Rect {
    Rect {
        x: F32Bits(f32_sum(r.x.0, f32_neg(e.left.0))),
        y: F32Bits(f32_sum(r.y.0, f32_neg(e.top.0))),
        width: F32Bits(f32_sum(r.width.0, e.horizontal_spec())),
        height: F32Bits(f32_sum(r.height.0, e.vertical_spec())),
    }
}

fn grow(r: &Rect, e: &EdgeSizes) -> (g: Rect)
    ensures
        g == grown(*r, *e),
{
    Rect::new(
        r.x.difference(&e.left),
        r.y.difference(&e.top),
        r.width.sum(&e.horizontal()),
        r.height.sum(&e.vertical()),
    )
}

/// Dimensions of a box (content + padding + border + margin)
#[derive(Debug, Clone, Copy, PartialEq, Eq, Structural)]
pub struct Dimensions {
    /// Content box position and size
    pub content: Rect,
    /// Padding area
    pub padding: EdgeSizes,
    /// Border area
    pub border: EdgeSizes,
    /// Margin area
    pub margin: EdgeSizes,
}

impl Default for Dimensions {
    /// An empty content box at the origin, without edges.
    fn default() -> (r: Self)
        ensures
            r == (Dimensions {
                content: Rect { x: F32Bits(0), y: F32Bits(0), width: F32Bits(0), height: F32Bits(0) },
                padding: EdgeSizes::zero_spec(),
                border: EdgeSizes::zero_spec(),
                margin: EdgeSizes::zero_spec(),
            }),
    {
        Dimensions {
            content: Rect::new(F32Bits(0), F32Bits(0), F32Bits(0), F32Bits(0)),
            padding: EdgeSizes::default(),
            border: EdgeSizes::default(),
            margin: EdgeSizes::default(),
        }
    }
}

impl Dimensions {
    /// A content box without padding, border or margin.
    pub fn new(content: Rect) -> (r: Self)
        ensures
            r == (Dimensions {
                content,
                padding: EdgeSizes::zero_spec(),
                border: EdgeSizes::zero_spec(),
                margin: EdgeSizes::zero_spec(),
            }),
    {
        Dimensions { content, padding: EdgeSizes::default(), border: EdgeSizes::default(), margin: EdgeSizes::default() }
    }

    /// Get the padding box rectangle
    pub fn padding_box(&self) -> (r: Rect)
        ensures
            r == grown(self.content, self.padding),
    {
        grow(&self.content, &self.padding)
    }

    /// Get the border box rectangle
    pub fn border_box(&self) -> (r: Rect)
        ensures
            r == grown(grown(self.content, self.padding), self.border),
    {
        let padding = self.padding_box();
        grow(&padding, &self.border)
    }

    /// Get the margin box rectangle
    pub fn margin_box(&self) -> (r: Rect)
        ensures
            r == grown(grown(grown(self.content, self.padding), self.border), self.margin),
    {
        let border = self.border_box();
        grow(&border, &self.margin)
    }

    /// The content width plus horizontal padding plus horizontal border.
    pub open spec fn border_box_width_spec(self) -> u32 {
        f32_sum(f32_sum(self.content.width.0, self.padding.horizontal_spec()), self.border.horizontal_spec())
    }

    /// The content height plus vertical padding plus vertical border.
    pub open spec fn border_box_height_spec(self) -> u32 {
        f32_sum(f32_sum(self.content.height.0, self.padding.vertical_spec()), self.border.vertical_spec())
    }

    /// Get the total width including padding and border
    pub fn border_box_width(&self) -> (r: F32Bits)
        ensures
            r.0 == self.border_box_width_spec(),
    {
        self.content.width.sum(&self.padding.horizontal()).sum(&self.border.horizontal())
    }

    /// Get the total height including padding and border
    pub fn border_box_height(&self) -> (r: F32Bits)
        ensures
            r.0 == self.border_box_height_spec(),
    {
        self.content.height.sum(&self.padding.vertical()).sum(&self.border.vertical())
    }

    /// Get the total width including margins
    pub fn margin_box_width(&self) -> (r: F32Bits)
        ensures
            r.0 == f32_sum(self.border_box_width_spec(), self.margin.horizontal_spec()),
    {
        self.border_box_width().sum(&self.margin.horizontal())
    }

    /// Get the total height including margins
    pub fn margin_box_height(&self) -> (r: F32Bits)
        ensures
            r.0 == f32_sum(self.border_box_height_spec(), self.margin.vertical_spec()),
    {
        self.border_box_height().sum(&self.margin.vertical())
    }
}

} // verus!
