//! Integer geometry for the component tree.
//!
//! All coordinates are whole display units. Arithmetic that could exceed
//! `i64` is performed on `i128` intermediates, so none of these operations
//! can overflow.

use vstd::prelude::*;

verus! {

/// A position in the window's coordinate space.
#[derive(Clone, Copy, Debug, PartialEq, Eq, Structural)]
pub struct Point {
    pub x: i64,
    pub y: i64,
}

impl Point {
    pub fn new(x: i64, y: i64) -> (r: Point)
        ensures
            r == (Point { x, y }),
    {
        Point { x, y }
    }
}

/// A width and height.
#[derive(Clone, Copy, Debug, PartialEq, Eq, Structural)]
pub struct Size {
    pub width: i64,
    pub height: i64,
}

impl Size {
    pub fn new(width: i64, height: i64) -> (r: Size)
        ensures
            r == (Size { width, height }),
    {
        Size { width, height }
    }
}

/// An axis-aligned rectangle: an origin plus a size.
#[derive(Clone, Copy, Debug, PartialEq, Eq, Structural)]
pub struct Rect {
    pub origin: Point,
    pub size: Size,
}

impl Rect {
    pub fn new(origin: Point, size: Size) -> (r: Rect)
        ensures
            r == (Rect { origin, size }),
    {
        Rect { origin, size }
    }

    /// Whether `p` lies inside the rectangle, right and bottom edges excluded.
    ///
    /// A rectangle with a non-positive width or height contains no point.
    pub open spec fn spec_contains(self, p: Point) -> bool {
        &&& self.origin.x <= p.x < self.origin.x + self.size.width
        &&& self.origin.y <= p.y < self.origin.y + self.size.height
    }

    pub fn contains(&self, p: Point) -> (r: bool)
        ensures
            r == self.spec_contains(p),
    {
        let x0: i128 = self.origin.x as i128;
        let y0: i128 = self.origin.y as i128;
        let px: i128 = p.x as i128;
        let py: i128 = p.y as i128;
        x0 <= px && px < x0 + self.size.width as i128 && y0 <= py && py < y0
            + self.size.height as i128
    }
}

/// Distances from the four edges of a rectangle.
#[derive(Clone, Copy, Debug, PartialEq, Eq, Structural)]
pub struct Surround {
    pub left: i64,
    pub top: i64,
    pub right: i64,
    pub bottom: i64,
}

impl Surround {
    pub fn zero() -> (r: Surround)
        ensures
            r == Surround::spec_zero(),
    {
        Surround { left: 0, top: 0, right: 0, bottom: 0 }
    }

    pub open spec fn spec_zero() -> Surround {
        Surround { left: 0, top: 0, right: 0, bottom: 0 }
    }

    pub fn uniform(value: i64) -> (r: Surround)
        ensures
            r == (Surround { left: value, top: value, right: value, bottom: value }),
    {
        Surround { left: value, top: value, right: value, bottom: value }
    }
}

/// Clamps an `i128` into the `i64` range.
pub fn clamp_to_i64(value: i128) -> (r: i64)
    ensures
        r as int == clamp_i64(value as int),
{
    if value > i64::MAX as i128 {
        i64::MAX
    } else if value < i64::MIN as i128 {
        i64::MIN
    } else {
        value as i64
    }
}

pub open spec fn clamp_i64(value: int) -> int {
    if value > i64::MAX {
        i64::MAX as int
    } else if value < i64::MIN {
        i64::MIN as int
    } else {
        value
    }
}

impl Rect {
    /// The rectangle that remains after trimming `surround` from each edge.
    ///
    /// Each resulting coordinate is clamped into the `i64` range; the size
    /// never goes below zero.
    pub open spec fn spec_inset(self, surround: Surround) -> Rect {
        Rect {
            origin: Point {
                x: clamp_i64(self.origin.x + surround.left) as i64,
                y: clamp_i64(self.origin.y + surround.top) as i64,
            },
            size: Size {
                width: clamp_i64(max_int(0, self.size.width - surround.left - surround.right))
                    as i64,
                height: clamp_i64(max_int(0, self.size.height - surround.top - surround.bottom))
                    as i64,
            },
        }
    }

    pub fn inset(&self, surround: Surround) -> (r: Rect)
        ensures
            r == self.spec_inset(surround),
    {
        let width: i128 = self.size.width as i128 - surround.left as i128 - surround.right as i128;
        let height: i128 = self.size.height as i128 - surround.top as i128
            - surround.bottom as i128;
        Rect {
            origin: Point {
                x: clamp_to_i64(self.origin.x as i128 + surround.left as i128),
                y: clamp_to_i64(self.origin.y as i128 + surround.top as i128),
            },
            size: Size {
                width: clamp_to_i64(if width > 0 { width } else { 0 }),
                height: clamp_to_i64(if height > 0 { height } else { 0 }),
            },
        }
    }
}

pub open spec fn max_int(a: int, b: int) -> int {
    if a > b { a } else { b }
}

/// One edge or extent of a bounds request: either left unspecified, to be
/// resolved by the layout engine, or a fixed whole-unit length.
#[derive(Clone, Copy, Debug, PartialEq, Eq, Structural)]
pub enum Dimension {
    Auto,
    Length(i64),
}

impl Dimension {
    pub fn from_length(value: i64) -> (r: Dimension)
        ensures
            r == Dimension::Length(value),
    {
        Dimension::Length(value)
    }

    pub fn is_auto(&self) -> (r: bool)
        ensures
            r == (*self is Auto),
    {
        match self {
            Dimension::Auto => true,
            Dimension::Length(_) => false,
        }
    }

    pub fn is_length(&self) -> (r: bool)
        ensures
            r == (*self is Length),
    {
        !self.is_auto()
    }

    pub fn length(&self) -> (r: Option<i64>)
        ensures
            r == (match *self {
                Dimension::Length(points) => Some(points),
                Dimension::Auto => None::<i64>,
            }),
    {
        if let Dimension::Length(points) = self {
            Some(*points)
        } else {
            None
        }
    }
}

impl Default for Dimension {
    /// An unspecified dimension defaults to `Auto`.
    fn default() -> (r: Dimension)
        ensures
            r == Dimension::Auto,
    {
        Dimension::Auto
    }
}

} // verus!
