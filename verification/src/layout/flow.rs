//! Block and inline flow: the formatting contexts that stack boxes
//! vertically and fragments horizontally, floats and clearance. All
//! lengths are single-precision patterns, computed as IEEE arithmetic does.

use vstd::prelude::*;
use crate::types::{F32Bits, Rect};
use crate::binary32::{f32_sum, f32_neg, f32_max_of, f32_le, f32_product};
use crate::layout::style::Clear;

verus! {

/// A floated box
#[derive(Debug, Clone)]
pub struct FloatBox {
    pub rect: Rect,
    pub is_left: bool,
    pub box_index: usize,
}

/// The bottom edge of a float: its top plus its height.
pub open spec fn float_bottom(f: FloatBox) -> u32 {
    f32_sum(f.rect.y.0, f.rect.height.0)
}

/// Whether a `clear` value clears a float on the given side.
pub open spec fn clears(clear: Clear, is_left: bool) -> bool {
    match clear {
        Clear::Both => true,
        Clear::Left => is_left,
        Clear::Right => !is_left,
        Clear::NoClear => false,
    }
}

/// The largest bottom edge among the floats that `clear` clears, folded
/// with `f32::max` from zero in order.
pub open spec fn cleared_bottom(fs: Seq<FloatBox>, clear: Clear) -> u32
    decreases fs.len(),
{
    if fs.len() == 0 {
        0
    } else {
        let acc = cleared_bottom(fs.drop_last(), clear);
        if clears(clear, fs.last().is_left) { f32_max_of(acc, float_bottom(fs.last())) } else { acc }
    }
}

/// The distance that clearing needs: the largest of zero and each cleared
/// float's bottom edge less `current_y`, folded with `f32::max` in order.
pub open spec fn clearance_over(fs: Seq<FloatBox>, clear: Clear, current_y: u32) -> u32
    decreases fs.len(),
{
    if fs.len() == 0 {
        0
    } else {
        let acc = clearance_over(fs.drop_last(), clear, current_y);
        if clears(clear, fs.last().is_left) {
            f32_max_of(acc, f32_sum(float_bottom(fs.last()), f32_neg(current_y)))
        } else {
            acc
        }
    }
}

fn clears_side(clear: Clear, is_left: bool) -> (r: bool)
    ensures
        r == clears(clear, is_left),
{
    match clear {
        Clear::Both => true,
        Clear::Left => is_left,
        Clear::Right => !is_left,
        Clear::NoClear => false,
    }
}

/// Block formatting context
///
/// A BFC is a region in which block boxes are laid out according to
/// the block formatting rules.
#[derive(Debug, Clone)]
pub struct BlockFormattingContext {
    /// Containing block for this context
    pub containing_block: Rect,
    /// Current vertical position
    pub current_y: F32Bits,
    /// Floats affecting this context
    pub floats: Vec<FloatBox>,
    /// Whether this context has been cleared
    pub is_cleared: bool,
}

impl BlockFormattingContext {
    /// The height left below `current_y`, at least zero.
    pub open spec fn remaining_spec(self) -> u32 {
        f32_max_of(f32_sum(f32_sum(self.containing_block.y.0, self.containing_block.height.0), f32_neg(self.current_y.0)), 0)
    }

    /// A context at the top of its containing block, without floats.
    pub fn new(containing_block: Rect) -> (r: Self)
        ensures
            r.containing_block == containing_block,
            r.current_y == containing_block.y,
            r.floats@.len() == 0,
            !r.is_cleared,
    {
        BlockFormattingContext { containing_block, current_y: containing_block.y, floats: Vec::new(), is_cleared: false }
    }

    /// Get the available width at the current position
    pub fn available_width(&self) -> (r: F32Bits)
        ensures
            r == self.containing_block.width,
    {
        self.containing_block.width
    }

    /// Get the remaining height in the containing block
    pub fn remaining_height(&self) -> (r: F32Bits)
        ensures
            r.0 == self.remaining_spec(),
    {
        let bottom = self.containing_block.y.sum(&self.containing_block.height);
        bottom.difference(&self.current_y).max(&F32Bits(0))
    }

    /// Advance the current Y position
    pub fn advance(&mut self, amount: F32Bits)
        ensures
            final(self).current_y.0 == f32_sum(old(self).current_y.0, amount.0),
            final(self).containing_block == old(self).containing_block,
            final(self).floats@ == old(self).floats@,
            final(self).is_cleared == old(self).is_cleared,
    {
        self.current_y = self.current_y.sum(&amount);
    }

    /// Check if there's room for a box of given height
    pub fn has_room_for(&self, height: F32Bits) -> (r: bool)
        ensures
            r == f32_le(height.0, self.remaining_spec()),
    {
        let remaining = self.remaining_height();
        height.le(&remaining)
    }

    /// Clear floats: for `left`, `right` or `both`, move below the lowest
    /// bottom edge of the floats on the cleared sides when it is lower
    /// than the current position, and forget every float.
    pub fn clear_floats(&mut self, clear: Clear)
        ensures
            final(self).containing_block == old(self).containing_block,
            final(self).is_cleared == old(self).is_cleared,
            clear is NoClear ==> final(self).current_y == old(self).current_y && final(self).floats@ == old(self).floats@,
            !(clear is NoClear) ==> final(self).floats@.len() == 0
                && final(self).current_y.0 == (if crate::types::f32_gt(cleared_bottom(old(self).floats@, clear),
                    old(self).current_y.0) { cleared_bottom(old(self).floats@, clear) } else { old(self).current_y.0 }),
    {
        match clear {
            Clear::NoClear => {},
            _ => {
                let mut clear_y = F32Bits(0);
                let mut i: usize = 0;
                while i < self.floats.len()
                    invariant
                        i <= self.floats@.len(),
                        self.floats@ == old(self).floats@,
                        clear_y.0 == cleared_bottom(self.floats@.take(i as int), clear),
                    decreases self.floats@.len() - i,
                {
                    proof {
                        let t = self.floats@.take(i + 1);
                        assert(t.drop_last() =~= self.floats@.take(i as int));
                        assert(t.last() == self.floats@[i as int]);
                    }
                    let f = &self.floats[i];
                    if clears_side(clear, f.is_left) {
                        let bottom = f.rect.y.sum(&f.rect.height);
                        clear_y = clear_y.max(&bottom);
                    }
                    i = i + 1;
                }
                assert(self.floats@.take(self.floats@.len() as int) =~= self.floats@);
                if clear_y.gt(&self.current_y) {
                    self.current_y = clear_y;
                }
                self.floats = Vec::new();
            },
        }
    }
}

/// Calculate clearance for floated elements
pub fn calculate_clearance(float_boxes: &Vec<FloatBox>, clear: Clear, current_y: F32Bits) -> (r: F32Bits)
    ensures
        r.0 == (if clear is NoClear { 0 } else { clearance_over(float_boxes@, clear, current_y.0) }),
{
    match clear {
        Clear::NoClear => F32Bits(0),
        _ => {
            let mut acc = F32Bits(0);
            let mut i: usize = 0;
            while i < float_boxes.len()
                invariant
                    i <= float_boxes@.len(),
                    acc.0 == clearance_over(float_boxes@.take(i as int), clear, current_y.0),
                decreases float_boxes@.len() - i,
            {
                proof {
                    let t = float_boxes@.take(i + 1);
                    assert(t.drop_last() =~= float_boxes@.take(i as int));
                    assert(t.last() == float_boxes@[i as int]);
                }
                let f = &float_boxes[i];
                if clears_side(clear, f.is_left) {
                    let gap = f.rect.y.sum(&f.rect.height).difference(&current_y);
                    acc = acc.max(&gap);
                }
                i = i + 1;
            }
            assert(float_boxes@.take(float_boxes@.len() as int) =~= float_boxes@);
            acc
        },
    }
}

/// A fragment of an inline box
#[derive(Debug, Clone)]
pub struct InlineFragment {
    /// Reference to the source box
    pub box_index: usize,
    /// Width of this fragment
    pub width: F32Bits,
    /// Height of this fragment
    pub height: F32Bits,
    /// Position within line
    pub x: F32Bits,
    /// Whether this is a text fragment
    pub is_text: bool,
    /// Text content (if text)
    pub text: Option<String>,
}

/// A line box in an inline formatting context
#[derive(Debug, Clone)]
pub struct LineBox {
    /// Inline boxes in this line
    pub fragments: Vec<InlineFragment>,
    /// Line width
    pub width: F32Bits,
    /// Line height
    pub height: F32Bits,
    /// Baseline position
    pub baseline: F32Bits,
    /// Line top position
    pub top: F32Bits,
}

impl Default for LineBox {
    /// An empty line at zero.
    fn default() -> (r: Self)
        ensures
            r.fragments@.len() == 0,
            r.width == F32Bits(0) && r.height == F32Bits(0) && r.baseline == F32Bits(0) && r.top == F32Bits(0),
    {
        LineBox { fragments: Vec::new(), width: F32Bits(0), height: F32Bits(0), baseline: F32Bits(0), top: F32Bits(0) }
    }
}

/// Inline formatting context
///
/// An IFC is a region in which inline boxes are laid out horizontally
/// according to the inline formatting rules.
#[derive(Debug, Clone)]
pub struct InlineFormattingContext {
    /// Containing block width
    pub available_width: F32Bits,
    /// Current line boxes
    pub line_boxes: Vec<LineBox>,
    /// Current line being built
    pub current_line: LineBox,
    /// Current x position in the line
    pub current_x: F32Bits,
    /// Line height
    pub line_height: F32Bits,
    /// Vertical offset from containing block top
    pub vertical_offset: F32Bits,
}

impl InlineFormattingContext {
    pub fn new(available_width: F32Bits, line_height: F32Bits) -> (r: Self)
        ensures
            r.available_width == available_width,
            r.line_height == line_height,
            r.line_boxes@.len() == 0,
            r.current_line.fragments@.len() == 0,
            r.current_line.width == F32Bits(0) && r.current_line.height == F32Bits(0),
            r.current_x == F32Bits(0),
            r.vertical_offset == F32Bits(0),
    {
        InlineFormattingContext {
            available_width,
            line_boxes: Vec::new(),
            current_line: LineBox::default(),
            current_x: F32Bits(0),
            line_height,
            vertical_offset: F32Bits(0),
        }
    }

    /// Add an inline fragment: it joins the current line, whose width and
    /// the current x both grow by its width.
    pub fn add_fragment(&mut self, fragment: InlineFragment)
        ensures
            final(self).current_line.fragments@ == old(self).current_line.fragments@.push(fragment),
            final(self).current_line.width.0 == f32_sum(old(self).current_line.width.0, fragment.width.0),
            final(self).current_x.0 == f32_sum(old(self).current_x.0, fragment.width.0),
            final(self).current_line.height == old(self).current_line.height,
            final(self).line_boxes@ == old(self).line_boxes@,
            final(self).available_width == old(self).available_width,
            final(self).line_height == old(self).line_height,
            final(self).vertical_offset == old(self).vertical_offset,
    {
        let fragment_width = fragment.width;
        self.current_line.fragments.push(fragment);
        self.current_line.width = self.current_line.width.sum(&fragment_width);
        self.current_x = self.current_x.sum(&fragment_width);
    }

    /// Check if there's room for a fragment of given width
    pub fn has_room_for(&self, width: F32Bits) -> (r: bool)
        ensures
            r == f32_le(f32_sum(self.current_x.0, width.0), self.available_width.0),
    {
        self.current_x.sum(&width).le(&self.available_width)
    }

    /// Get total height of laid out lines
    pub fn total_height(&self) -> (r: F32Bits)
        ensures
            r.0 == f32_sum(self.vertical_offset.0,
                if self.current_line.fragments@.len() == 0 { 0 } else { self.current_line.height.0 }),
    {
        let h = if self.current_line.fragments.len() == 0 { F32Bits(0) } else { self.current_line.height };
        self.vertical_offset.sum(&h)
    }
}

/// The tallest of the fragments, folded with `f32::max` from zero in order.
pub open spec fn max_fragment_height(fs: Seq<InlineFragment>) -> u32
    decreases fs.len(),
{
    if fs.len() == 0 { 0 } else { f32_max_of(max_fragment_height(fs.drop_last()), fs.last().height.0) }
}

impl InlineFormattingContext {
    /// The height a finished line takes: its tallest fragment, at least
    /// the line height.
    pub open spec fn line_extent(self) -> u32 {
        f32_max_of(max_fragment_height(self.current_line.fragments@), self.line_height.0)
    }

    /// Finish the current line and start a new one: a line with fragments
    /// is kept with its height, a baseline at 0.8 of it and its top at the
    /// vertical offset, which then grows by the height.
    pub fn finish_line(&mut self)
        ensures
            final(self).available_width == old(self).available_width,
            final(self).line_height == old(self).line_height,
            final(self).current_line.fragments@.len() == 0,
            final(self).current_line.width == F32Bits(0) && final(self).current_line.height == F32Bits(0),
            final(self).current_x == F32Bits(0),
            old(self).current_line.fragments@.len() == 0 ==> final(self).line_boxes@ == old(self).line_boxes@
                && final(self).vertical_offset == old(self).vertical_offset,
            old(self).current_line.fragments@.len() > 0 ==> {
                let h = old(self).line_extent();
                &&& final(self).line_boxes@.len() == old(self).line_boxes@.len() + 1
                &&& final(self).line_boxes@.drop_last() == old(self).line_boxes@
                &&& final(self).line_boxes@.last().fragments@ == old(self).current_line.fragments@
                &&& final(self).line_boxes@.last().width == old(self).current_line.width
                &&& final(self).line_boxes@.last().height.0 == h
                &&& final(self).line_boxes@.last().baseline.0 == f32_product(h, 0x3F4C_CCCD)
                &&& final(self).line_boxes@.last().top == old(self).vertical_offset
                &&& final(self).vertical_offset.0 == f32_sum(old(self).vertical_offset.0, h)
            },
    {
        if self.current_line.fragments.len() > 0 {
            let mut max_height = F32Bits(0);
            let mut i: usize = 0;
            while i < self.current_line.fragments.len()
                invariant
                    i <= self.current_line.fragments@.len(),
                    self.current_line.fragments@ == old(self).current_line.fragments@,
                    max_height.0 == max_fragment_height(self.current_line.fragments@.take(i as int)),
                    *self == *old(self),
                decreases self.current_line.fragments@.len() - i,
            {
                proof {
                    let t = self.current_line.fragments@.take(i + 1);
                    assert(t.drop_last() =~= self.current_line.fragments@.take(i as int));
                    assert(t.last() == self.current_line.fragments@[i as int]);
                }
                max_height = max_height.max(&self.current_line.fragments[i].height);
                i = i + 1;
            }
            assert(self.current_line.fragments@.take(self.current_line.fragments@.len() as int)
                =~= self.current_line.fragments@);
            let max_height = max_height.max(&self.line_height);
            let mut fragments: Vec<InlineFragment> = Vec::new();
            std::mem::swap(&mut fragments, &mut self.current_line.fragments);
            let done = LineBox {
                fragments,
                width: self.current_line.width,
                height: max_height,
                baseline: max_height.product(&F32Bits(0x3F4C_CCCD)),
                top: self.vertical_offset,
            };
            self.line_boxes.push(done);
            assert(self.line_boxes@.drop_last() =~= old(self).line_boxes@);
            self.vertical_offset = self.vertical_offset.sum(&max_height);
        }
        self.current_line = LineBox::default();
        self.current_x = F32Bits(0);
    }

    /// Complete layout: finish the current line and hand out the lines.
    pub fn finish(self) -> (r: Vec<LineBox>)
        ensures
            self.current_line.fragments@.len() == 0 ==> r@ == self.line_boxes@,
            self.current_line.fragments@.len() > 0 ==> r@.len() == self.line_boxes@.len() + 1
                && r@.drop_last() == self.line_boxes@ && r@.last().fragments@ == self.current_line.fragments@
                && r@.last().height.0 == self.line_extent()
                && r@.last().top == self.vertical_offset,
    {
        let mut ctx = self;
        ctx.finish_line();
        ctx.line_boxes
    }
}

} // verus!
