use vstd::prelude::*;

verus! {

/// A rectangle on the interface grid: a signed position and an unsigned
/// size, both in interface units.
#[derive(Clone, Copy, Debug)]
pub struct GUIRect {
    pub pos: [i16; 2],
    pub size: [u16; 2],
}

/// A value clamped into the signed sixteen-bit range.
pub open spec fn spec_sat_i16(v: int) -> int {
    if v < -0x8000 {
        -0x8000
    } else if v > 0x7fff {
        0x7fff
    } else {
        v
    }
}

/// A span clamped into what a size can hold after saturating signed
/// subtraction: negative spans collapse to nothing, and a span can be no
/// wider than the largest signed sixteen-bit value.
pub open spec fn spec_span(start: int, end: int) -> int {
    if end - start < 0 {
        0
    } else if end - start > 0x7fff {
        0x7fff
    } else {
        end - start
    }
}

/// Signed sixteen-bit addition that saturates at the ends of the range.
fn sat_add_i16(a: i16, b: i16) -> (r: i16)
    ensures
        r == spec_sat_i16(a + b),
{
    let v = a as i32 + b as i32;
    if v < -0x8000 {
        -0x8000
    } else if v > 0x7fff {
        0x7fff
    } else {
        v as i16
    }
}

impl GUIRect {
    pub fn new(x: i16, y: i16, width: u16, height: u16) -> (r: GUIRect)
        ensures
            r.pos[0] == x && r.pos[1] == y,
            r.size[0] == width && r.size[1] == height,
    {
        GUIRect { pos: [x, y], size: [width, height] }
    }

    /// The rectangle between two corners: a negative span collapses to an
    /// empty size.
    pub fn new_from_start_end(start: [i16; 2], end: [i16; 2]) -> (r: GUIRect)
        ensures
            r.pos == start,
            r.size[0] == spec_span(start[0] as int, end[0] as int),
            r.size[1] == spec_span(start[1] as int, end[1] as int),
    {
        let dx = end[0] as i32 - start[0] as i32;
        let dy = end[1] as i32 - start[1] as i32;
        let w = if dx <= 0 {
            0u16
        } else if dx > 0x7fff {
            0x7fffu16
        } else {
            dx as u16
        };
        let h = if dy <= 0 {
            0u16
        } else if dy > 0x7fff {
            0x7fffu16
        } else {
            dy as u16
        };
        GUIRect { pos: start, size: [w, h] }
    }

    /// The corner past the rectangle, saturating at the edge of the grid.
    pub fn get_end(self) -> (r: [i16; 2])
        ensures
            r[0] == spec_sat_i16(self.pos[0] + self.size[0]),
            r[1] == spec_sat_i16(self.pos[1] + self.size[1]),
    {
        let ex = if self.pos[0] as i32 + self.size[0] as i32 > 0x7fff {
            0x7fffi16
        } else {
            (self.pos[0] as i32 + self.size[0] as i32) as i16
        };
        let ey = if self.pos[1] as i32 + self.size[1] as i32 > 0x7fff {
            0x7fffi16
        } else {
            (self.pos[1] as i32 + self.size[1] as i32) as i16
        };
        [ex, ey]
    }

    /// The rectangle shifted by a scroll offset, saturating at the grid's
    /// edges.
    pub fn scrolled(self, scroll: [i16; 2]) -> (r: GUIRect)
        ensures
            r.pos[0] == spec_sat_i16(self.pos[0] + scroll[0]),
            r.pos[1] == spec_sat_i16(self.pos[1] + scroll[1]),
            r.size == self.size,
    {
        GUIRect {
            pos: [sat_add_i16(self.pos[0], scroll[0]), sat_add_i16(self.pos[1], scroll[1])],
            size: self.size,
        }
    }

    /// The overlap of two rectangles: the rectangle between the larger
    /// start corner and the smaller end corner.
    pub fn overlap(self, other: GUIRect) -> (r: GUIRect)
        ensures
            r.pos[0] == if self.pos[0] >= other.pos[0] {
                self.pos[0]
            } else {
                other.pos[0]
            },
            r.pos[1] == if self.pos[1] >= other.pos[1] {
                self.pos[1]
            } else {
                other.pos[1]
            },
            r.size[0] == spec_span(
                r.pos[0] as int,
                vstd::math::min(
                    spec_sat_i16(self.pos[0] + self.size[0]),
                    spec_sat_i16(other.pos[0] + other.size[0]),
                ),
            ),
            r.size[1] == spec_span(
                r.pos[1] as int,
                vstd::math::min(
                    spec_sat_i16(self.pos[1] + self.size[1]),
                    spec_sat_i16(other.pos[1] + other.size[1]),
                ),
            ),
    {
        let end = self.get_end();
        let other_end = other.get_end();
        let sx = if self.pos[0] >= other.pos[0] {
            self.pos[0]
        } else {
            other.pos[0]
        };
        let sy = if self.pos[1] >= other.pos[1] {
            self.pos[1]
        } else {
            other.pos[1]
        };
        let ex = if end[0] <= other_end[0] {
            end[0]
        } else {
            other_end[0]
        };
        let ey = if end[1] <= other_end[1] {
            end[1]
        } else {
            other_end[1]
        };
        GUIRect::new_from_start_end([sx, sy], [ex, ey])
    }

    /// The rectangle without its one-unit outline.
    pub fn without_outline(self) -> (r: GUIRect)
        ensures
            r.pos[0] == spec_sat_i16(self.pos[0] + 1),
            r.pos[1] == spec_sat_i16(self.pos[1] + 1),
            r.size[0] == if self.size[0] >= 2 {
                self.size[0] - 2
            } else {
                0int
            },
            r.size[1] == if self.size[1] >= 2 {
                self.size[1] - 2
            } else {
                0int
            },
    {
        let w = if self.size[0] >= 2 {
            self.size[0] - 2
        } else {
            0
        };
        let h = if self.size[1] >= 2 {
            self.size[1] - 2
        } else {
            0
        };
        GUIRect {
            pos: [sat_add_i16(self.pos[0], 1), sat_add_i16(self.pos[1], 1)],
            size: [w, h],
        }
    }
}

} // verus!
