//! Flexbox properties (CSS Flexible Box Layout Level 1).

use vstd::prelude::*;
use crate::types::{F32Bits, Rect, Size};

verus! {

/// Flex direction
#[derive(Debug, Clone, Copy, PartialEq, Eq, Structural)]
pub enum FlexDirection {
    Row,
    RowReverse,
    Column,
    ColumnReverse,
}

impl Default for FlexDirection {
    fn default() -> (r: Self)
        ensures
            r == FlexDirection::Row,
    {
        FlexDirection::Row
    }
}

/// Flex wrap mode
#[derive(Debug, Clone, Copy, PartialEq, Eq, Structural)]
pub enum FlexWrap {
    Nowrap,
    Wrap,
    WrapReverse,
}

impl Default for FlexWrap {
    fn default() -> (r: Self)
        ensures
            r == FlexWrap::Nowrap,
    {
        FlexWrap::Nowrap
    }
}

/// Justify content (main axis alignment)
#[derive(Debug, Clone, Copy, PartialEq, Eq, Structural)]
pub enum JustifyContent {
    FlexStart,
    FlexEnd,
    Center,
    SpaceBetween,
    SpaceAround,
    SpaceEvenly,
}

impl Default for JustifyContent {
    fn default() -> (r: Self)
        ensures
            r == JustifyContent::FlexStart,
    {
        JustifyContent::FlexStart
    }
}

/// Align items (cross axis alignment for flex items)
#[derive(Debug, Clone, Copy, PartialEq, Eq, Structural)]
pub enum AlignItems {
    Stretch,
    FlexStart,
    FlexEnd,
    Center,
    Baseline,
}

impl Default for AlignItems {
    fn default() -> (r: Self)
        ensures
            r == AlignItems::Stretch,
    {
        AlignItems::Stretch
    }
}

/// Align content (multi-line alignment)
#[derive(Debug, Clone, Copy, PartialEq, Eq, Structural)]
pub enum AlignContent {
    Stretch,
    FlexStart,
    FlexEnd,
    Center,
    SpaceBetween,
    SpaceAround,
    SpaceEvenly,
}

impl Default for AlignContent {
    fn default() -> (r: Self)
        ensures
            r == AlignContent::Stretch,
    {
        AlignContent::Stretch
    }
}

/// Flex container properties
#[derive(Debug, Clone, Copy, PartialEq, Eq, Structural)]
pub struct FlexContainer {
    /// Flex direction
    pub direction: FlexDirection,
    /// Flex wrap mode
    pub wrap: FlexWrap,
    /// Justify content (main axis)
    pub justify_content: JustifyContent,
    /// Align items (cross axis for items)
    pub align_items: AlignItems,
    /// Align content (cross axis for multi-line)
    pub align_content: AlignContent,
}

impl Default for FlexContainer {
    /// A row container without wrapping, items stretched.
    fn default() -> (r: Self)
        ensures
            r == (FlexContainer {
                direction: FlexDirection::Row,
                wrap: FlexWrap::Nowrap,
                justify_content: JustifyContent::FlexStart,
                align_items: AlignItems::Stretch,
                align_content: AlignContent::Stretch,
            }),
    {
        FlexContainer {
            direction: FlexDirection::Row,
            wrap: FlexWrap::Nowrap,
            justify_content: JustifyContent::FlexStart,
            align_items: AlignItems::Stretch,
            align_content: AlignContent::Stretch,
        }
    }
}

impl FlexContainer {
    /// Whether the main axis runs horizontally: a row, forwards or reversed.
    pub open spec fn horizontal(&self) -> bool {
        self.direction is Row || self.direction is RowReverse
    }

    /// Whether items run against the reading direction of the main axis.
    pub open spec fn reversed(&self) -> bool {
        self.direction is RowReverse || self.direction is ColumnReverse
    }

    /// Main axis is horizontal (row)
    pub fn is_horizontal(&self) -> (r: bool)
        ensures
            r == self.horizontal(),
    {
        match self.direction {
            FlexDirection::Row | FlexDirection::RowReverse => true,
            _ => false,
        }
    }

    /// Is reversed direction
    pub fn is_reversed(&self) -> (r: bool)
        ensures
            r == self.reversed(),
    {
        match self.direction {
            FlexDirection::RowReverse | FlexDirection::ColumnReverse => true,
            _ => false,
        }
    }

    /// Get the main size (width for row, height for column)
    pub fn main_size(&self, size: Size) -> (r: F32Bits)
        ensures
            r == (if self.horizontal() { size.width } else { size.height }),
    {
        if self.is_horizontal() { size.width } else { size.height }
    }

    /// Get the cross size (height for row, width for column)
    pub fn cross_size(&self, size: Size) -> (r: F32Bits)
        ensures
            r == (if self.horizontal() { size.height } else { size.width }),
    {
        if self.is_horizontal() { size.height } else { size.width }
    }

    /// Get the main position (x for row, y for column)
    pub fn main_pos(&self, rect: Rect) -> (r: F32Bits)
        ensures
            r == (if self.horizontal() { rect.x } else { rect.y }),
    {
        if self.is_horizontal() { rect.x } else { rect.y }
    }

    /// Get the cross position (y for row, x for column)
    pub fn cross_pos(&self, rect: Rect) -> (r: F32Bits)
        ensures
            r == (if self.horizontal() { rect.y } else { rect.x }),
    {
        if self.is_horizontal() { rect.y } else { rect.x }
    }
}

} // verus!
