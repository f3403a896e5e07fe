//! Points, sizes, rectangles, and the eight ways an output can be turned.
use vstd::prelude::*;

verus! {

/// A position, in whole pixels.
#[derive(Debug, Clone, Copy, PartialEq, Eq, Structural)]
pub struct Point {
    pub x: i32,
    pub y: i32,
}

/// An extent, in whole pixels.
#[derive(Debug, Clone, Copy, PartialEq, Eq, Structural)]
pub struct Size {
    pub w: i32,
    pub h: i32,
}

impl Size {
    /// An extent is never negative.
    pub open spec fn is_valid(self) -> bool {
        self.w >= 0 && self.h >= 0
    }
}

/// An axis-aligned rectangle, in whole pixels.
#[derive(Debug, Clone, Copy, PartialEq, Eq, Structural)]
pub struct Rectangle {
    pub loc: Point,
    pub size: Size,
}

/// The nearest value an `i32` can hold.
pub open spec fn saturated(n: int) -> int {
    if n < i32::MIN {
        i32::MIN as int
    } else if n > i32::MAX {
        i32::MAX as int
    } else {
        n
    }
}

/// The nearest value an `i32` can hold.
pub fn saturate(n: i64) -> (nearest: i32)
    ensures
        nearest == saturated(n as int),
{
    if n < i32::MIN as i64 {
        i32::MIN
    } else if n > i32::MAX as i64 {
        i32::MAX
    } else {
        n as i32
    }
}

impl Rectangle {
    /// The first column to the right of the rectangle.
    pub open spec fn right(self) -> int {
        saturated(self.loc.x + self.size.w)
    }

    /// The first row below the rectangle.
    pub open spec fn bottom(self) -> int {
        saturated(self.loc.y + self.size.h)
    }

    /// Whether the pixel at `x`, `y` belongs to the rectangle.
    pub open spec fn covers(self, x: int, y: int) -> bool {
        self.loc.x <= x < self.right() && self.loc.y <= y < self.bottom()
    }

    /// Whether two rectangles share an area, rather than an edge or nothing.
    pub open spec fn meets(self, other: Rectangle) -> bool {
        &&& self.loc.x < other.right()
        &&& other.loc.x < self.right()
        &&& self.loc.y < other.bottom()
        &&& other.loc.y < self.bottom()
    }

    /// The extremes of two rectangles that share an area.
    pub open spec fn shared(self, other: Rectangle) -> Rectangle {
        let left = if self.loc.x >= other.loc.x { self.loc.x } else { other.loc.x };
        let top = if self.loc.y >= other.loc.y { self.loc.y } else { other.loc.y };
        let right = if self.right() <= other.right() { self.right() } else { other.right() };
        let bottom = if self.bottom() <= other.bottom() { self.bottom() } else { other.bottom() };
        Rectangle {
            loc: Point { x: left, y: top },
            size: Size { w: saturated(right - left) as i32, h: saturated(bottom - top) as i32 },
        }
    }

    /// This rectangle moved by `offset`, stopping at the edge of the
    /// coordinate range.
    pub open spec fn moved(self, offset: Point) -> Rectangle {
        Rectangle {
            loc: Point {
                x: saturated(self.loc.x + offset.x) as i32,
                y: saturated(self.loc.y + offset.y) as i32,
            },
            size: self.size,
        }
    }

    /// The rectangle of this size at the origin.
    pub fn from_size(size: Size) -> (rect: Rectangle)
        ensures
            rect == (Rectangle { loc: Point { x: 0, y: 0 }, size }),
    {
        Rectangle { loc: Point { x: 0, y: 0 }, size }
    }

    /// This rectangle moved by `offset`.
    pub fn translate(self, offset: Point) -> (rect: Rectangle)
        ensures
            rect == self.moved(offset),
    {
        Rectangle {
            loc: Point {
                x: saturate(self.loc.x as i64 + offset.x as i64),
                y: saturate(self.loc.y as i64 + offset.y as i64),
            },
            size: self.size,
        }
    }

    /// The area two rectangles share, or `None` where they share none.
    pub fn intersection(self, other: Rectangle) -> (area: Option<Rectangle>)
        ensures
            area == (if self.meets(other) { Some(self.shared(other)) } else { None }),
    {
        let self_right: i32 = saturate(self.loc.x as i64 + self.size.w as i64);
        let self_bottom: i32 = saturate(self.loc.y as i64 + self.size.h as i64);
        let other_right: i32 = saturate(other.loc.x as i64 + other.size.w as i64);
        let other_bottom: i32 = saturate(other.loc.y as i64 + other.size.h as i64);
        if !(self.loc.x < other_right && other.loc.x < self_right && self.loc.y < other_bottom
            && other.loc.y < self_bottom) {
            return None;
        }
        let left: i32 = if self.loc.x >= other.loc.x { self.loc.x } else { other.loc.x };
        let top: i32 = if self.loc.y >= other.loc.y { self.loc.y } else { other.loc.y };
        let right: i32 = if self_right <= other_right { self_right } else { other_right };
        let bottom: i32 = if self_bottom <= other_bottom { self_bottom } else { other_bottom };
        Some(
            Rectangle {
                loc: Point { x: left, y: top },
                size: Size {
                    w: saturate(right as i64 - left as i64),
                    h: saturate(bottom as i64 - top as i64),
                },
            },
        )
    }
}

/// The intersection holds exactly the pixels that belong to both rectangles,
/// and two rectangles with an area have one exactly where they share a pixel.
pub proof fn the_intersection_is_what_both_cover(a: Rectangle, b: Rectangle)
    requires
        a.size.is_valid(),
        b.size.is_valid(),
    ensures
        forall|x: int, y: int| #[trigger] a.covers(x, y) && b.covers(x, y) ==> a.meets(b),
        forall|x: int, y: int|
            a.meets(b) ==> (#[trigger] a.shared(b).covers(x, y) <==> a.covers(x, y) && b.covers(
                x,
                y,
            )),
        a.meets(b) && a.size.w > 0 && a.size.h > 0 && b.size.w > 0 && b.size.h > 0 ==> a.shared(
            b,
        ).covers(a.shared(b).loc.x as int, a.shared(b).loc.y as int),
{
    assert forall|x: int, y: int| a.meets(b) implies (#[trigger] a.shared(b).covers(x, y)
        <==> a.covers(x, y) && b.covers(x, y)) by {
        let s = a.shared(b);
        let right = if a.right() <= b.right() { a.right() } else { b.right() };
        let bottom = if a.bottom() <= b.bottom() { a.bottom() } else { b.bottom() };
        assert(0 <= right - s.loc.x <= i32::MAX);
        assert(0 <= bottom - s.loc.y <= i32::MAX);
    }
}

/// How a display is turned, clockwise, or mirrored and then turned.
#[derive(Debug, Clone, Copy, PartialEq, Eq, Structural)]
pub enum Transform {
    Normal,
    _90,
    _180,
    _270,
    Flipped,
    Flipped90,
    Flipped180,
    Flipped270,
}

impl Transform {
    /// Whether width and height change places.
    pub open spec fn swaps(self) -> bool {
        self is _90 || self is _270 || self is Flipped90 || self is Flipped270
    }

    /// An extent as it is seen through the transform.
    pub open spec fn sized(self, size: Size) -> Size {
        if self.swaps() {
            Size { w: size.h, h: size.w }
        } else {
            size
        }
    }

    /// The transform with its quarter turns going the other way. Mirroring and
    /// half turns are kept.
    pub open spec fn inverse(self) -> Transform {
        match self {
            Transform::_90 => Transform::_270,
            Transform::_270 => Transform::_90,
            Transform::Flipped90 => Transform::Flipped270,
            Transform::Flipped270 => Transform::Flipped90,
            _ => self,
        }
    }

    /// Where a point of an area goes, on each axis.
    pub open spec fn placed(self, x: int, y: int, w: int, h: int) -> (int, int) {
        match self {
            Transform::Normal => (x, y),
            Transform::_90 => (h - y, x),
            Transform::_180 => (w - x, h - y),
            Transform::_270 => (y, w - x),
            Transform::Flipped => (w - x, y),
            Transform::Flipped90 => (y, x),
            Transform::Flipped180 => (x, h - y),
            Transform::Flipped270 => (h - y, w - x),
        }
    }

    /// An extent as it is seen through the transform.
    pub fn transform_size(self, size: Size) -> (seen: Size)
        ensures
            seen == self.sized(size),
    {
        match self {
            Transform::_90
            | Transform::_270
            | Transform::Flipped90
            | Transform::Flipped270 => Size { w: size.h, h: size.w },
            _ => size,
        }
    }

    /// The transform with its quarter turns going the other way.
    pub fn invert(self) -> (inverse: Transform)
        ensures
            inverse == self.inverse(),
    {
        match self {
            Transform::_90 => Transform::_270,
            Transform::_270 => Transform::_90,
            Transform::Flipped90 => Transform::Flipped270,
            Transform::Flipped270 => Transform::Flipped90,
            _ => self,
        }
    }

    /// Where a point of an area goes.
    pub fn transform_point_in(self, point: Point, area: Size) -> (placed: Point)
        requires
            i32::MIN <= area.w - point.x <= i32::MAX,
            i32::MIN <= area.h - point.y <= i32::MAX,
        ensures
            (placed.x as int, placed.y as int) == self.placed(
                point.x as int,
                point.y as int,
                area.w as int,
                area.h as int,
            ),
    {
        match self {
            Transform::Normal => point,
            Transform::_90 => Point { x: area.h - point.y, y: point.x },
            Transform::_180 => Point { x: area.w - point.x, y: area.h - point.y },
            Transform::_270 => Point { x: point.y, y: area.w - point.x },
            Transform::Flipped => Point { x: area.w - point.x, y: point.y },
            Transform::Flipped90 => Point { x: point.y, y: point.x },
            Transform::Flipped180 => Point { x: point.x, y: area.h - point.y },
            Transform::Flipped270 => Point { x: area.h - point.y, y: area.w - point.x },
        }
    }
}

/// Inverting twice gives the transform back, and the inverse puts every extent
/// back. It puts every point back where it was too, but for the two mirrored
/// quarter turns, which it leaves half a turn away.
pub proof fn the_inverse_undoes_all_but_mirrored_quarter_turns(
    t: Transform,
    x: int,
    y: int,
    size: Size,
)
    ensures
        t.inverse().inverse() == t,
        t.inverse().sized(t.sized(size)) == size,
        ({
            let seen = t.sized(size);
            let p = t.placed(x, y, size.w as int, size.h as int);
            t.inverse().placed(p.0, p.1, seen.w as int, seen.h as int) == (if t is Flipped90 || t
                is Flipped270 {
                (size.w - x, size.h - y)
            } else {
                (x, y)
            })
        }),
{
}

/// Turning goes clockwise and adds up: a half turn is two quarter turns, three
/// quarters are three of them, and four put every point back. One step to the
/// right becomes one step down. A mirrored turn is mirrored left to right first:
/// the one called a quarter is turned by three of them, and the other way about.
pub proof fn turns_add_up(x: int, y: int, w: int, h: int)
    ensures
        Transform::Normal.placed(x, y, w, h) == (x, y),
        ({
            let once = Transform::_90.placed(x, y, w, h);
            let twice = Transform::_90.placed(once.0, once.1, h, w);
            let thrice = Transform::_90.placed(twice.0, twice.1, w, h);
            let mirrored = Transform::Flipped.placed(x, y, w, h);
            &&& Transform::_90.placed(x + 1, y, w, h) == (once.0, once.1 + 1)
            &&& Transform::_90.placed(x, y + 1, w, h) == (once.0 - 1, once.1)
            &&& Transform::_180.placed(x, y, w, h) == twice
            &&& Transform::_270.placed(x, y, w, h) == thrice
            &&& Transform::_90.placed(thrice.0, thrice.1, h, w) == (x, y)
            &&& mirrored == (w - x, y)
            &&& Transform::Flipped90.placed(x, y, w, h) == Transform::_270.placed(
                mirrored.0,
                mirrored.1,
                w,
                h,
            )
            &&& Transform::Flipped180.placed(x, y, w, h) == Transform::_180.placed(
                mirrored.0,
                mirrored.1,
                w,
                h,
            )
            &&& Transform::Flipped270.placed(x, y, w, h) == Transform::_90.placed(
                mirrored.0,
                mirrored.1,
                w,
                h,
            )
        }),
{
}

/// A point of an area stays within the area as it is seen through the transform,
/// and the far corner of one is a corner of the other.
pub proof fn a_placed_point_stays_in_the_area(t: Transform, x: int, y: int, size: Size)
    requires
        0 <= x <= size.w,
        0 <= y <= size.h,
    ensures
        0 <= t.placed(x, y, size.w as int, size.h as int).0 <= t.sized(size).w,
        0 <= t.placed(x, y, size.w as int, size.h as int).1 <= t.sized(size).h,
        t.sized(size).w * t.sized(size).h == size.w * size.h,
{
    assert(size.w * size.h == size.h * size.w) by (nonlinear_arith);
}

/// Moving a rectangle moves the pixels it covers, and nothing else, wherever
/// both places can be named.
pub proof fn a_moved_rectangle_covers_the_moved_pixels(
    rect: Rectangle,
    offset: Point,
    x: int,
    y: int,
)
    requires
        rect.size.is_valid(),
        i32::MIN <= rect.loc.x + offset.x,
        i32::MIN <= rect.loc.y + offset.y,
        i32::MIN <= x < i32::MAX,
        i32::MIN <= y < i32::MAX,
        i32::MIN <= x + offset.x < i32::MAX,
        i32::MIN <= y + offset.y < i32::MAX,
    ensures
        rect.moved(offset).covers(x + offset.x, y + offset.y) <==> (rect.loc.x <= x < rect.loc.x
            + rect.size.w && rect.loc.y <= y < rect.loc.y + rect.size.h),
        rect.covers(x, y) <==> (rect.loc.x <= x < rect.loc.x + rect.size.w && rect.loc.y <= y
            < rect.loc.y + rect.size.h),
        rect.moved(offset).size == rect.size,
{
}

/// Saturating gives the nearest number there is: no other of the range is closer
/// to what was asked for, and a number of the range is itself.
pub proof fn a_saturated_number_is_the_nearest(n: int, other: i32)
    ensures
        i32::MIN <= saturated(n) <= i32::MAX,
        n <= saturated(n) ==> saturated(n) - n <= if other >= n { other - n } else { n - other },
        saturated(n) <= n ==> n - saturated(n) <= if other >= n { other - n } else { n - other },
        n == other ==> saturated(n) == other,
{
}

} // verus!
