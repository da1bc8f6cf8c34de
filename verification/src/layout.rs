//! The strip layout engine.
//!
//! [`StripLayout`] carves rectangular cells out of a region, one after the
//! other along a single primary axis, and tracks the running cursor and the
//! bounding rectangle of everything allocated so far. It is pure
//! bookkeeping over integer pixel coordinates; drawing into the cells and
//! claiming the final rectangle from the UI surface happen elsewhere.
//!
//! The engine is open for cells while it is owned; handing it over for the
//! final allocation consumes it ([`StripLayout::used_rect`] borrows, the
//! owning builder then drops it), so the open-then-finalized protocol is
//! enforced by ownership rather than by a runtime flag.

use vstd::prelude::*;

verus! {

/// The axis along which a strip's cells are sequenced.
#[derive(Clone, Copy, Debug, PartialEq, Eq, Structural)]
pub enum CellDirection {
    /// Cells run left to right; the primary axis is width.
    Horizontal,
    /// Cells run top to bottom; the primary axis is height.
    Vertical,
}

/// One cell's extent on one axis: a fixed pixel length, or everything that
/// is left of the region on that axis.
#[derive(Clone, Copy, Debug, PartialEq, Eq, Structural)]
pub enum CellSize {
    Absolute(u32),
    Remainder,
}

/// An axis-aligned rectangle in integer pixel coordinates.
#[derive(Clone, Copy, Debug, PartialEq, Eq, Structural)]
pub struct IRect {
    pub left: i64,
    pub top: i64,
    pub right: i64,
    pub bottom: i64,
}

/// `a + b`, clamped at the top of the `i64` range.
pub open spec fn sat_add(a: int, b: int) -> int {
    if a + b > i64::MAX {
        i64::MAX as int
    } else {
        a + b
    }
}

/// The larger of two coordinates.
pub open spec fn max_i64(a: i64, b: i64) -> i64 {
    if a > b {
        a
    } else {
        b
    }
}

/// Exec counterpart of [`sat_add`] for a non-negative addend.
fn sat_add_i64(a: i64, b: u32) -> (r: i64)
    ensures
        r as int == sat_add(a as int, b as int),
    no_unwind
{
    if a > i64::MAX - (b as i64) {
        i64::MAX
    } else {
        a + (b as i64)
    }
}

/// The rectangle the next cell would cover: it starts at the cursor and
/// extends by the given size on each axis — to a fixed length, or to the
/// region's far edge for a remainder size.
pub open spec fn cell_rect_spec(l: StripLayout, width: CellSize, height: CellSize) -> IRect {
    IRect {
        left: l.cursor_x,
        top: l.cursor_y,
        right: match width {
            CellSize::Absolute(w) => sat_add(l.cursor_x as int, w as int) as i64,
            CellSize::Remainder => l.rect.right,
        },
        bottom: match height {
            CellSize::Absolute(h) => sat_add(l.cursor_y as int, h as int) as i64,
            CellSize::Remainder => l.rect.bottom,
        },
    }
}

/// The engine after booking rectangle `r`: the bounding box grows to cover
/// `r`, and the cursor moves past `r` (plus one inter-cell spacing) along
/// the primary axis only.
pub open spec fn advance_spec(l: StripLayout, r: IRect) -> StripLayout {
    let grown = StripLayout { max_x: max_i64(l.max_x, r.right), max_y: max_i64(l.max_y, r.bottom), ..l };
    match l.direction {
        CellDirection::Horizontal => StripLayout {
            cursor_x: sat_add(r.right as int, l.spacing_x as int) as i64,
            ..grown
        },
        CellDirection::Vertical => StripLayout {
            cursor_y: sat_add(r.bottom as int, l.spacing_y as int) as i64,
            ..grown
        },
    }
}

/// The engine after consuming one cell of the given sizes.
pub open spec fn after_cell(l: StripLayout, width: CellSize, height: CellSize) -> StripLayout {
    advance_spec(l, cell_rect_spec(l, width, height))
}

/// The accumulated bounding rectangle of a layout engine: from the region's
/// top left corner to the furthest edges booked so far.
pub open spec fn used_rect_spec(l: StripLayout) -> IRect {
    IRect { left: l.rect.left, top: l.rect.top, right: l.max_x, bottom: l.max_y }
}

/// The strip layout engine state: direction, clip flag, the region cells
/// are carved from, the running cursor, the bounding box of the cells
/// booked so far, and the inter-cell spacing on each axis.
#[derive(Clone, Copy, Debug)]
pub struct StripLayout {
    pub direction: CellDirection,
    pub clip: bool,
    pub rect: IRect,
    pub cursor_x: i64,
    pub cursor_y: i64,
    pub max_x: i64,
    pub max_y: i64,
    pub spacing_x: u32,
    pub spacing_y: u32,
}

impl StripLayout {
    /// A fresh engine over `region`: the cursor starts at the region's top
    /// left corner and nothing is booked yet.
    pub fn new(
        region: IRect,
        direction: CellDirection,
        clip: bool,
        spacing_x: u32,
        spacing_y: u32,
    ) -> (l: Self)
        ensures
            l == (StripLayout {
                direction,
                clip,
                rect: region,
                cursor_x: region.left,
                cursor_y: region.top,
                max_x: region.left,
                max_y: region.top,
                spacing_x,
                spacing_y,
            }),
    {
        StripLayout {
            direction,
            clip,
            rect: region,
            cursor_x: region.left,
            cursor_y: region.top,
            max_x: region.left,
            max_y: region.top,
            spacing_x,
            spacing_y,
        }
    }

    /// The rectangle the next cell would cover, without booking it.
    pub fn cell_rect(&self, width: CellSize, height: CellSize) -> (r: IRect)
        ensures
            r == cell_rect_spec(*self, width, height),
        no_unwind
    {
        IRect {
            left: self.cursor_x,
            top: self.cursor_y,
            right: match width {
                CellSize::Absolute(w) => sat_add_i64(self.cursor_x, w),
                CellSize::Remainder => self.rect.right,
            },
            bottom: match height {
                CellSize::Absolute(h) => sat_add_i64(self.cursor_y, h),
                CellSize::Remainder => self.rect.bottom,
            },
        }
    }

    /// Book one cell of the given sizes: grow the bounding box over its
    /// rectangle and advance the cursor past it along the primary axis.
    /// Returns the rectangle the cell covers, so the caller may draw into
    /// it; booking itself draws nothing.
    pub fn empty(&mut self, width: CellSize, height: CellSize) -> (r: IRect)
        ensures
            r == cell_rect_spec(*old(self), width, height),
            *final(self) == after_cell(*old(self), width, height),
        no_unwind
    {
        let r = self.cell_rect(width, height);
        if r.right > self.max_x {
            self.max_x = r.right;
        }
        if r.bottom > self.max_y {
            self.max_y = r.bottom;
        }
        match self.direction {
            CellDirection::Horizontal => {
                self.cursor_x = sat_add_i64(r.right, self.spacing_x);
            },
            CellDirection::Vertical => {
                self.cursor_y = sat_add_i64(r.bottom, self.spacing_y);
            },
        }
        r
    }

    /// The accumulated bounding rectangle of every cell booked so far: it
    /// starts at the region's top left corner and reaches to the furthest
    /// edges booked. This is the rectangle the owning builder claims from
    /// the UI surface when it finalizes the strip.
    pub fn used_rect(&self) -> (r: IRect)
        ensures
            r == used_rect_spec(*self),
    {
        IRect { left: self.rect.left, top: self.rect.top, right: self.max_x, bottom: self.max_y }
    }
}

} // verus!
