//! Rectangle value type used as the unit of placement everywhere.

use vstd::prelude::*;

verus! {

/// A rectangle: position of the top-left corner plus a non-negative extent.
#[derive(Clone, Copy, Debug, PartialEq, Eq, Structural)]
pub struct Dimensions {
    pub x: i32,
    pub y: i32,
    pub w: u32,
    pub h: u32,
}

/// Clamps a mathematical integer into the `i32` range.
pub open spec fn clamp_i32(v: int) -> int {
    if v > i32::MAX as int {
        i32::MAX as int
    } else if v < i32::MIN as int {
        i32::MIN as int
    } else {
        v
    }
}

/// Clamps a mathematical integer into the `u32` range.
pub open spec fn clamp_u32(v: int) -> u32 {
    if v < 0 {
        0u32
    } else if v > u32::MAX as int {
        u32::MAX
    } else {
        v as u32
    }
}

/// Clamps a list position to the valid index range `0 .. len`.
pub open spec fn clamp_index(v: int, len: int) -> int {
    if v < 0 {
        0
    } else if v > len - 1 {
        len - 1
    } else {
        v
    }
}

impl Dimensions {
    pub fn new(x: i32, y: i32, w: u32, h: u32) -> (d: Dimensions)
        ensures
            d == (Dimensions { x, y, w, h }),
    {
        Dimensions { x, y, w, h }
    }

    pub fn x(&self) -> (r: i32)
        ensures
            r == self.x,
    {
        self.x
    }

    pub fn y(&self) -> (r: i32)
        ensures
            r == self.y,
    {
        self.y
    }

    pub fn w(&self) -> (r: u32)
        ensures
            r == self.w,
    {
        self.w
    }

    pub fn h(&self) -> (r: u32)
        ensures
            r == self.h,
    {
        self.h
    }

    pub fn pos(&self) -> (r: (i32, i32))
        ensures
            r.0 == self.x,
            r.1 == self.y,
    {
        (self.x, self.y)
    }

    pub fn size(&self) -> (r: (u32, u32))
        ensures
            r.0 == self.w,
            r.1 == self.h,
    {
        (self.w, self.h)
    }

    /// The centre point; saturates at the `i32` range instead of wrapping.
    pub fn center(&self) -> (r: (i32, i32))
        ensures
            r.0 == clamp_i32(self.x + self.w / 2),
            r.1 == clamp_i32(self.y + self.h / 2),
    {
        let cx: i64 = self.x as i64 + (self.w / 2) as i64;
        let cy: i64 = self.y as i64 + (self.h / 2) as i64;
        let rx: i32 = if cx > i32::MAX as i64 {
            i32::MAX
        } else {
            cx as i32
        };
        let ry: i32 = if cy > i32::MAX as i64 {
            i32::MAX
        } else {
            cy as i32
        };
        (rx, ry)
    }

    /// The x coordinate one past the right edge, as a mathematical value.
    pub open spec fn right(&self) -> int {
        self.x + self.w
    }

    /// The y coordinate one past the bottom edge, as a mathematical value.
    pub open spec fn bottom(&self) -> int {
        self.y + self.h
    }

    /// True when `self` lies entirely within `outer`.
    pub open spec fn within(&self, outer: Dimensions) -> bool {
        &&& outer.x <= self.x
        &&& outer.y <= self.y
        &&& self.right() <= outer.right()
        &&& self.bottom() <= outer.bottom()
    }
}

/// Physical display area and the part of it usable for client placement.
#[derive(Clone, Copy, Debug, PartialEq, Eq, Structural)]
pub struct MonitorConfig {
    pub num: u32,
    pub dims: Dimensions,
    pub win_area: Dimensions,
}

impl MonitorConfig {
    pub fn new(num: u32, dims: Dimensions, win_area: Dimensions) -> (c: MonitorConfig)
        ensures
            c == (MonitorConfig { num, dims, win_area }),
    {
        MonitorConfig { num, dims, win_area }
    }
}

} // verus!
