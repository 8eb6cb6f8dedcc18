//! Screen geometry: points, timed trail points and the on-screen box.
use vstd::prelude::*;

verus! {

/// A position on the (virtual) screen, in pixels.
#[derive(Debug, Clone, Copy, PartialEq, Eq, Structural)]
pub struct Point {
    pub x: i32,
    pub y: i32,
}

/// One step of a recorded trail: a position and the milliseconds that
/// passed since the previous step.
#[derive(Debug, Clone, Copy, PartialEq, Eq, Structural)]
pub struct PointAndDt {
    pub x: i32,
    pub y: i32,
    pub dt: i32,
}

/// A rectangle given by its top-left corner, its width and its height.
#[derive(Debug, Clone, Copy, PartialEq, Eq, Structural)]
pub struct RectWH {
    pub x: i32,
    pub y: i32,
    pub w: i32,
    pub h: i32,
}

/// The size of the virtual screen.
#[derive(Debug, Clone, Copy, PartialEq, Eq, Structural)]
pub struct ScreenSize {
    pub cx: i32,
    pub cy: i32,
}

/// Whether `v` fits in an `i32`.
pub open spec fn in_i32(v: int) -> bool {
    i32::MIN <= v <= i32::MAX
}

/// Integer division by two that rounds toward zero, as `i32` division does.
pub open spec fn half_toward_zero(v: int) -> int {
    if v >= 0 {
        v / 2
    } else {
        -((-v) / 2)
    }
}

impl RectWH {
    /// `contains` can test `point` in `i32` arithmetic: the right edge fits,
    /// and the bottom edge fits where the point lies between the left and
    /// right edges (otherwise the test stops before the bottom edge).
    pub open spec fn contains_defined(self, point: Point) -> bool {
        &&& in_i32(self.x + self.w)
        &&& (self.x <= point.x < self.x + self.w ==> in_i32(self.y + self.h))
    }

    /// The point lies in the half-open ranges `[x, x + w)` and `[y, y + h)`.
    pub open spec fn spec_contains(self, point: Point) -> bool {
        &&& self.x <= point.x < self.x + self.w
        &&& self.y <= point.y < self.y + self.h
    }

    /// Whether `point` lies inside the rectangle; the right and bottom
    /// edges are outside.
    pub fn contains(&self, point: Point) -> (b: bool)
        requires
            self.contains_defined(point),
        ensures
            b == self.spec_contains(point),
    {
        (self.x <= point.x && point.x < self.x + self.w) && (self.y <= point.y && point.y
            < self.y + self.h)
    }

    /// Whether `contains` can be asked about `point`.
    pub fn contains_checkable(&self, point: Point) -> (ok: bool)
        ensures
            ok == self.contains_defined(point),
    {
        let right = self.x as i64 + self.w as i64;
        if right < i32::MIN as i64 || right > i32::MAX as i64 {
            return false;
        }
        if self.x <= point.x && (point.x as i64) < right {
            let bottom = self.y as i64 + self.h as i64;
            i32::MIN as i64 <= bottom && bottom <= i32::MAX as i64
        } else {
            true
        }
    }

    /// The rectangle that `track_pos` makes: same size, centred on `point`.
    pub open spec fn spec_centered_on(self, point: Point) -> RectWH {
        RectWH {
            x: (point.x - half_toward_zero(self.w as int)) as i32,
            y: (point.y - half_toward_zero(self.h as int)) as i32,
            w: self.w,
            h: self.h,
        }
    }

    /// Moving the box to be centred on `point` stays within `i32`.
    pub open spec fn can_center_on(self, point: Point) -> bool {
        in_i32(point.x - half_toward_zero(self.w as int)) && in_i32(
            point.y - half_toward_zero(self.h as int),
        )
    }

    /// Moves the rectangle so that `point` is its centre (up to rounding),
    /// keeping its size.
    pub fn track_pos(&mut self, point: Point)
        requires
            old(self).can_center_on(point),
        ensures
            *final(self) == old(self).spec_centered_on(point),
    {
        self.x = point.x - self.w / 2;
        self.y = point.y - self.h / 2;
    }
}

} // verus!
