//! Points, sizes, rectangles and boxes in logical pixels, with integer coordinates.
//!
//! The geometry is computed by `euclid`, on coordinates of 128 bits: there
//! no sum, difference or product of coordinates overflows. The functions of
//! this module hand it plain coordinates and state what comes back.

use vstd::prelude::*;

verus! {

/// The type of a coordinate, in logical pixels.
pub type Coord = i32;

/// A position.
#[derive(Clone, Copy, Debug, PartialEq, Eq, Structural)]
pub struct LogicalPoint {
    pub x: Coord,
    pub y: Coord,
}

/// A displacement.
#[derive(Clone, Copy, Debug, PartialEq, Eq, Structural)]
pub struct LogicalVector {
    pub x: Coord,
    pub y: Coord,
}

/// A width and a height.
#[derive(Clone, Copy, Debug, PartialEq, Eq, Structural)]
pub struct LogicalSize {
    pub width: Coord,
    pub height: Coord,
}

/// An axis-aligned rectangle given by its top left corner and its size.
#[derive(Clone, Copy, Debug, PartialEq, Eq, Structural)]
pub struct LogicalRect {
    pub origin: LogicalPoint,
    pub size: LogicalSize,
}

/// An axis-aligned box given by its two corners. The top and left edges
/// belong to it, the bottom and right edges do not.
#[derive(Clone, Copy, Debug, PartialEq, Eq, Structural)]
pub struct LogicalBox {
    pub min: LogicalPoint,
    pub max: LogicalPoint,
}

impl LogicalPoint {
    pub fn new(x: Coord, y: Coord) -> (p: LogicalPoint)
        ensures
            p == (LogicalPoint { x, y }),
    {
        LogicalPoint { x, y }
    }

    /// The displacement that leads from the origin to this point.
    pub fn to_vector(&self) -> (v: LogicalVector)
        ensures
            v == (LogicalVector { x: self.x, y: self.y }),
    {
        LogicalVector { x: self.x, y: self.y }
    }
}

impl LogicalVector {
    pub fn new(x: Coord, y: Coord) -> (v: LogicalVector)
        ensures
            v == (LogicalVector { x, y }),
    {
        LogicalVector { x, y }
    }
}

impl LogicalSize {
    pub fn new(width: Coord, height: Coord) -> (s: LogicalSize)
        ensures
            s == (LogicalSize { width, height }),
    {
        LogicalSize { width, height }
    }

    /// A size without area: one side is zero or negative.
    pub open spec fn spec_is_empty(self) -> bool {
        !(self.width > 0 && self.height > 0)
    }

    /// The size that is as wide as the wider and as high as the higher of two.
    pub open spec fn spec_max(self, other: LogicalSize) -> LogicalSize {
        LogicalSize {
            width: if self.width >= other.width { self.width } else { other.width },
            height: if self.height >= other.height { self.height } else { other.height },
        }
    }

    pub fn is_empty(&self) -> (r: bool)
        ensures
            r == self.spec_is_empty(),
    {
        euclid_size_is_empty(self)
    }

    pub fn max(&self, other: &LogicalSize) -> (r: LogicalSize)
        ensures
            r == self.spec_max(*other),
    {
        euclid_size_max(self, other)
    }
}

impl LogicalRect {
    pub fn new(origin: LogicalPoint, size: LogicalSize) -> (r: LogicalRect)
        ensures
            r == (LogicalRect { origin, size }),
    {
        LogicalRect { origin, size }
    }

    /// The rectangle of the given size whose top left corner is the origin.
    pub fn from_size(size: LogicalSize) -> (r: LogicalRect)
        ensures
            r == (LogicalRect { origin: LogicalPoint { x: 0, y: 0 }, size }),
    {
        LogicalRect { origin: LogicalPoint { x: 0, y: 0 }, size }
    }

    /// The rectangle at the origin that has no extent.
    pub open spec fn spec_zero() -> LogicalRect {
        LogicalRect {
            origin: LogicalPoint { x: 0, y: 0 },
            size: LogicalSize { width: 0, height: 0 },
        }
    }

    pub fn zero() -> (r: LogicalRect)
        ensures
            r == Self::spec_zero(),
    {
        LogicalRect {
            origin: LogicalPoint { x: 0, y: 0 },
            size: LogicalSize { width: 0, height: 0 },
        }
    }

    /// The first column right of the rectangle.
    pub open spec fn max_x(self) -> int {
        self.origin.x + self.size.width
    }

    /// The first row below the rectangle.
    pub open spec fn max_y(self) -> int {
        self.origin.y + self.size.height
    }

    /// The bottom right corner is a point that `Coord` can hold.
    pub open spec fn in_range(self) -> bool {
        &&& i32::MIN <= self.max_x() <= i32::MAX
        &&& i32::MIN <= self.max_y() <= i32::MAX
    }

    pub open spec fn spec_is_empty(self) -> bool {
        self.size.spec_is_empty()
    }

    /// The same area, given by its corners.
    pub open spec fn spec_to_box2d(self) -> LogicalBox {
        LogicalBox {
            min: self.origin,
            max: LogicalPoint { x: self.max_x() as i32, y: self.max_y() as i32 },
        }
    }

    pub fn is_empty(&self) -> (r: bool)
        ensures
            r == self.spec_is_empty(),
    {
        euclid_rect_is_empty(self)
    }

    /// Whether the bottom right corner is a point that `Coord` can hold.
    pub fn is_in_range(&self) -> (r: bool)
        ensures
            r == self.in_range(),
    {
        self.origin.x.checked_add(self.size.width).is_some()
            && self.origin.y.checked_add(self.size.height).is_some()
    }

    pub fn to_box2d(&self) -> (b: LogicalBox)
        requires
            self.in_range(),
        ensures
            b == self.spec_to_box2d(),
    {
        let w = WideBox::from_rect(self);
        LogicalBox {
            min: LogicalPoint { x: w.min_x as i32, y: w.min_y as i32 },
            max: LogicalPoint { x: w.max_x as i32, y: w.max_y as i32 },
        }
    }
}

impl LogicalBox {
    pub fn new(min: LogicalPoint, max: LogicalPoint) -> (b: LogicalBox)
        ensures
            b == (LogicalBox { min, max }),
    {
        LogicalBox { min, max }
    }

    /// The box at the origin that has no extent.
    pub open spec fn spec_zero() -> LogicalBox {
        LogicalBox { min: LogicalPoint { x: 0, y: 0 }, max: LogicalPoint { x: 0, y: 0 } }
    }

    pub fn zero() -> (b: LogicalBox)
        ensures
            b == Self::spec_zero(),
    {
        LogicalBox { min: LogicalPoint { x: 0, y: 0 }, max: LogicalPoint { x: 0, y: 0 } }
    }

    /// A box without area: it is flat or its corners are swapped.
    pub open spec fn spec_is_empty(self) -> bool {
        !(self.max.x > self.min.x && self.max.y > self.min.y)
    }

    /// The two boxes share some area.
    pub open spec fn spec_intersects(self, other: LogicalBox) -> bool {
        &&& self.min.x < other.max.x
        &&& self.max.x > other.min.x
        &&& self.min.y < other.max.y
        &&& self.max.y > other.min.y
    }

    /// The other box has no area outside this one. An empty box is contained
    /// in every box.
    pub open spec fn spec_contains_box(self, other: LogicalBox) -> bool {
        other.spec_is_empty() || {
            &&& self.min.x <= other.min.x
            &&& other.max.x <= self.max.x
            &&& self.min.y <= other.min.y
            &&& other.max.y <= self.max.y
        }
    }

    /// The box from the larger minima to the smaller maxima. It is empty
    /// where the two boxes share no area.
    pub open spec fn spec_intersection_unchecked(self, other: LogicalBox) -> LogicalBox {
        LogicalBox {
            min: LogicalPoint {
                x: if self.min.x >= other.min.x { self.min.x } else { other.min.x },
                y: if self.min.y >= other.min.y { self.min.y } else { other.min.y },
            },
            max: LogicalPoint {
                x: if self.max.x <= other.max.x { self.max.x } else { other.max.x },
                y: if self.max.y <= other.max.y { self.max.y } else { other.max.y },
            },
        }
    }

    /// The area that the two boxes share, if there is any.
    pub open spec fn spec_intersection(self, other: LogicalBox) -> Option<LogicalBox> {
        let b = self.spec_intersection_unchecked(other);
        if b.spec_is_empty() { None } else { Some(b) }
    }

    /// The smallest box that holds both, where an empty box counts for nothing.
    pub open spec fn spec_union(self, other: LogicalBox) -> LogicalBox {
        if other.spec_is_empty() {
            self
        } else if self.spec_is_empty() {
            other
        } else {
            LogicalBox {
                min: LogicalPoint {
                    x: if self.min.x <= other.min.x { self.min.x } else { other.min.x },
                    y: if self.min.y <= other.min.y { self.min.y } else { other.min.y },
                },
                max: LogicalPoint {
                    x: if self.max.x >= other.max.x { self.max.x } else { other.max.x },
                    y: if self.max.y >= other.max.y { self.max.y } else { other.max.y },
                },
            }
        }
    }

    /// Width times height.
    pub open spec fn spec_area(self) -> int {
        (self.max.x - self.min.x) * (self.max.y - self.min.y)
    }

    /// Width and height are numbers that `Coord` can hold.
    pub open spec fn fits_rect(self) -> bool {
        &&& i32::MIN <= self.max.x - self.min.x <= i32::MAX
        &&& i32::MIN <= self.max.y - self.min.y <= i32::MAX
    }

    /// The same area, given by its top left corner and its size.
    pub open spec fn spec_to_rect(self) -> LogicalRect {
        LogicalRect {
            origin: self.min,
            size: LogicalSize {
                width: (self.max.x - self.min.x) as i32,
                height: (self.max.y - self.min.y) as i32,
            },
        }
    }

    pub fn is_empty(&self) -> (r: bool)
        ensures
            r == self.spec_is_empty(),
    {
        euclid_box_is_empty(&WideBox::from_box(self))
    }

    pub fn intersects(&self, other: &LogicalBox) -> (r: bool)
        ensures
            r == self.spec_intersects(*other),
    {
        WideBox::from_box(self).intersects(&WideBox::from_box(other))
    }

    pub fn contains_box(&self, other: &LogicalBox) -> (r: bool)
        ensures
            r == self.spec_contains_box(*other),
    {
        euclid_box_contains_box(&WideBox::from_box(self), &WideBox::from_box(other))
    }

    pub fn intersection(&self, other: &LogicalBox) -> (r: Option<LogicalBox>)
        ensures
            r == self.spec_intersection(*other),
    {
        WideBox::from_box(self).clip_to(other)
    }

    pub fn union(&self, other: &LogicalBox) -> (r: LogicalBox)
        ensures
            r == self.spec_union(*other),
    {
        let u = WideBox::from_box(self).union(&WideBox::from_box(other));
        LogicalBox {
            min: LogicalPoint { x: u.min_x as i32, y: u.min_y as i32 },
            max: LogicalPoint { x: u.max_x as i32, y: u.max_y as i32 },
        }
    }

    /// The area, which for corners that are far apart needs more than 64 bits.
    pub fn area(&self) -> (r: i128)
        ensures
            r == self.spec_area(),
    {
        proof {
            lemma_area_bounds(*self);
        }
        euclid_box_area(&WideBox::from_box(self))
    }

    /// Whether width and height are numbers that `Coord` can hold.
    pub fn is_fitting_rect(&self) -> (r: bool)
        ensures
            r == self.fits_rect(),
    {
        self.max.x.checked_sub(self.min.x).is_some() && self.max.y.checked_sub(
            self.min.y,
        ).is_some()
    }

    pub fn to_rect(&self) -> (r: LogicalRect)
        requires
            self.fits_rect(),
        ensures
            r == self.spec_to_rect(),
    {
        let r = euclid_box_to_rect(&WideBox::from_box(self));
        LogicalRect {
            origin: LogicalPoint { x: r.x as i32, y: r.y as i32 },
            size: LogicalSize { width: r.width as i32, height: r.height as i32 },
        }
    }
}

/// A box whose corners may lie outside the range of [`Coord`].
#[derive(Clone, Copy, Debug, PartialEq, Eq, Structural)]
pub struct WideBox {
    pub min_x: i128,
    pub min_y: i128,
    pub max_x: i128,
    pub max_y: i128,
}

/// A rectangle whose corner and size may lie outside the range of [`Coord`].
#[derive(Clone, Copy, Debug, PartialEq, Eq, Structural)]
pub struct WideRect {
    pub x: i128,
    pub y: i128,
    pub width: i128,
    pub height: i128,
}

/// The number is one that [`Coord`] can hold.
pub open spec fn fits_coord(v: int) -> bool {
    i32::MIN <= v <= i32::MAX
}

impl WideBox {
    /// A box without area: it is flat or its corners are swapped.
    pub open spec fn spec_is_empty(self) -> bool {
        !(self.max_x > self.min_x && self.max_y > self.min_y)
    }

    /// The box from the larger minima to the smaller maxima.
    pub open spec fn spec_intersection_unchecked(self, other: WideBox) -> WideBox {
        WideBox {
            min_x: if self.min_x >= other.min_x { self.min_x } else { other.min_x },
            min_y: if self.min_y >= other.min_y { self.min_y } else { other.min_y },
            max_x: if self.max_x <= other.max_x { self.max_x } else { other.max_x },
            max_y: if self.max_y <= other.max_y { self.max_y } else { other.max_y },
        }
    }

    /// The area that the two boxes share, if there is any.
    pub open spec fn spec_intersection(self, other: WideBox) -> Option<WideBox> {
        let b = self.spec_intersection_unchecked(other);
        if b.spec_is_empty() { None } else { Some(b) }
    }

    /// The smallest box that holds both, where an empty box counts for nothing.
    pub open spec fn spec_union(self, other: WideBox) -> WideBox {
        if other.spec_is_empty() {
            self
        } else if self.spec_is_empty() {
            other
        } else {
            WideBox {
                min_x: if self.min_x <= other.min_x { self.min_x } else { other.min_x },
                min_y: if self.min_y <= other.min_y { self.min_y } else { other.min_y },
                max_x: if self.max_x >= other.max_x { self.max_x } else { other.max_x },
                max_y: if self.max_y >= other.max_y { self.max_y } else { other.max_y },
            }
        }
    }

    /// The two boxes share some area.
    pub open spec fn spec_intersects(self, other: WideBox) -> bool {
        &&& self.min_x < other.max_x
        &&& self.max_x > other.min_x
        &&& self.min_y < other.max_y
        &&& self.max_y > other.min_y
    }

    /// The other box has no area outside this one. An empty box is contained
    /// in every box.
    pub open spec fn spec_contains_box(self, other: WideBox) -> bool {
        other.spec_is_empty() || {
            &&& self.min_x <= other.min_x
            &&& other.max_x <= self.max_x
            &&& self.min_y <= other.min_y
            &&& other.max_y <= self.max_y
        }
    }

    /// The box moved by `(dx, dy)`.
    pub open spec fn spec_translate(self, dx: int, dy: int) -> WideBox {
        WideBox {
            min_x: (self.min_x + dx) as i128,
            min_y: (self.min_y + dy) as i128,
            max_x: (self.max_x + dx) as i128,
            max_y: (self.max_y + dy) as i128,
        }
    }

    /// Every corner lies within `bound` of the origin.
    pub open spec fn within(self, bound: int) -> bool {
        &&& -bound <= self.min_x <= bound
        &&& -bound <= self.min_y <= bound
        &&& -bound <= self.max_x <= bound
        &&& -bound <= self.max_y <= bound
    }

    /// The area of the rectangle, given by its corners.
    pub open spec fn spec_from_rect(r: LogicalRect) -> WideBox {
        WideBox {
            min_x: r.origin.x as i128,
            min_y: r.origin.y as i128,
            max_x: r.max_x() as i128,
            max_y: r.max_y() as i128,
        }
    }

    /// The box as a rectangle, where its corner and its size are numbers
    /// that [`Coord`] can hold.
    pub open spec fn spec_to_rect(self) -> Option<LogicalRect> {
        if fits_coord(self.min_x as int) && fits_coord(self.min_y as int) && fits_coord(
            self.max_x - self.min_x,
        ) && fits_coord(self.max_y - self.min_y) {
            Some(
                LogicalRect {
                    origin: LogicalPoint { x: self.min_x as i32, y: self.min_y as i32 },
                    size: LogicalSize {
                        width: (self.max_x - self.min_x) as i32,
                        height: (self.max_y - self.min_y) as i32,
                    },
                },
            )
        } else {
            None
        }
    }

    /// The same box with wide corners.
    pub open spec fn spec_from_box(b: LogicalBox) -> WideBox {
        WideBox {
            min_x: b.min.x as i128,
            min_y: b.min.y as i128,
            max_x: b.max.x as i128,
            max_y: b.max.y as i128,
        }
    }

    /// The part of the box that lies within `clip`, if there is any.
    pub open spec fn spec_clip_to(self, clip: LogicalBox) -> Option<LogicalBox> {
        match self.spec_intersection(Self::spec_from_box(clip)) {
            Some(w) => Some(
                LogicalBox {
                    min: LogicalPoint { x: w.min_x as i32, y: w.min_y as i32 },
                    max: LogicalPoint { x: w.max_x as i32, y: w.max_y as i32 },
                },
            ),
            None => None,
        }
    }

    pub fn from_box(b: &LogicalBox) -> (w: WideBox)
        ensures
            w == Self::spec_from_box(*b),
    {
        WideBox {
            min_x: b.min.x as i128,
            min_y: b.min.y as i128,
            max_x: b.max.x as i128,
            max_y: b.max.y as i128,
        }
    }

    pub fn zero() -> (w: WideBox)
        ensures
            w == (WideBox { min_x: 0, min_y: 0, max_x: 0, max_y: 0 }),
    {
        WideBox { min_x: 0, min_y: 0, max_x: 0, max_y: 0 }
    }

    /// The area of the rectangle, given by its corners.
    pub fn from_rect(r: &LogicalRect) -> (w: WideBox)
        ensures
            w == Self::spec_from_rect(*r),
            w.within(0x1_0000_0000),
    {
        euclid_rect_to_box2d(r)
    }

    pub fn union(&self, other: &WideBox) -> (r: WideBox)
        ensures
            r == self.spec_union(*other),
    {
        euclid_box_union(self, other)
    }

    pub fn intersection(&self, other: &WideBox) -> (r: Option<WideBox>)
        ensures
            r == self.spec_intersection(*other),
    {
        euclid_box_intersection(self, other)
    }

    pub fn intersects(&self, other: &WideBox) -> (r: bool)
        ensures
            r == self.spec_intersects(*other),
    {
        euclid_box_intersects(self, other)
    }

    /// The box moved by `(dx, dy)`.
    pub fn translate(&self, dx: i128, dy: i128) -> (r: WideBox)
        requires
            i128::MIN <= self.min_x + dx <= i128::MAX,
            i128::MIN <= self.max_x + dx <= i128::MAX,
            i128::MIN <= self.min_y + dy <= i128::MAX,
            i128::MIN <= self.max_y + dy <= i128::MAX,
        ensures
            r == self.spec_translate(dx as int, dy as int),
    {
        euclid_box_translate(self, dx, dy)
    }

    /// The box as a rectangle, where its corner and its size are numbers
    /// that [`Coord`] can hold.
    pub fn to_rect(&self) -> (r: Option<LogicalRect>)
        ensures
            r == self.spec_to_rect(),
    {
        let fits = self.max_x.checked_sub(self.min_x).is_some() && self.max_y.checked_sub(
            self.min_y,
        ).is_some();
        match (narrow(self.min_x), narrow(self.min_y), fits) {
            (Some(x), Some(y), true) => {
                let r = euclid_box_to_rect(self);
                match (narrow(r.width), narrow(r.height)) {
                    (Some(width), Some(height)) => Some(
                        LogicalRect {
                            origin: LogicalPoint { x, y },
                            size: LogicalSize { width, height },
                        },
                    ),
                    _ => None,
                }
            },
            _ => None,
        }
    }

    /// The part of the box that lies within `clip`, if there is any. What
    /// lies within `clip` has corners that [`Coord`] can hold.
    pub fn clip_to(&self, clip: &LogicalBox) -> (r: Option<LogicalBox>)
        ensures
            r == self.spec_clip_to(*clip),
            r matches Some(b) ==> !b.spec_is_empty() && clip.spec_contains_box(b),
    {
        match euclid_box_intersection(self, &WideBox::from_box(clip)) {
            Some(w) => Some(
                LogicalBox {
                    min: LogicalPoint { x: w.min_x as i32, y: w.min_y as i32 },
                    max: LogicalPoint { x: w.max_x as i32, y: w.max_y as i32 },
                },
            ),
            None => None,
        }
    }
}

/// The number as a [`Coord`], if it is one.
pub fn narrow(v: i128) -> (r: Option<i32>)
    ensures
        fits_coord(v as int) ==> r == Some(v as i32),
        !fits_coord(v as int) ==> r is None,
{
    if -0x8000_0000 <= v && v <= 0x7fff_ffff {
        Some(v as i32)
    } else {
        None
    }
}

/// The area of a box lies within the square of the width of the coordinate
/// range.
pub proof fn lemma_area_bounds(b: LogicalBox)
    ensures
        -0x1_0000_0000_0000_0000 <= b.spec_area() <= 0x1_0000_0000_0000_0000,
{
    let w = b.max.x - b.min.x;
    let h = b.max.y - b.min.y;
    assert(-0x1_0000_0000_0000_0000 <= w * h <= 0x1_0000_0000_0000_0000) by (nonlinear_arith)
        requires
            -0x1_0000_0000 <= w <= 0x1_0000_0000,
            -0x1_0000_0000 <= h <= 0x1_0000_0000,
    ;
}

/// `euclid::Size2D::is_empty`: true unless both sides are greater than zero.
#[verifier::external_body]
fn euclid_size_is_empty(s: &LogicalSize) -> (r: bool)
    ensures
        r == s.spec_is_empty(),
{
    euclid::default::Size2D::new(s.width, s.height).is_empty()
}

/// `euclid::Size2D::max`: the larger width with the larger height.
#[verifier::external_body]
fn euclid_size_max(a: &LogicalSize, b: &LogicalSize) -> (r: LogicalSize)
    ensures
        r == a.spec_max(*b),
{
    let m = euclid::default::Size2D::new(a.width, a.height).max(
        euclid::default::Size2D::new(b.width, b.height),
    );
    LogicalSize { width: m.width, height: m.height }
}

/// `euclid::Rect::is_empty`: true unless both sides of the size are greater
/// than zero.
#[verifier::external_body]
fn euclid_rect_is_empty(r: &LogicalRect) -> (e: bool)
    ensures
        e == r.spec_is_empty(),
{
    euclid::default::Rect::new(
        euclid::point2(r.origin.x, r.origin.y),
        euclid::size2(r.size.width, r.size.height),
    ).is_empty()
}

/// `euclid::Rect::to_box2d`: the origin, and the origin plus the size.
#[verifier::external_body]
fn euclid_rect_to_box2d(r: &LogicalRect) -> (w: WideBox)
    ensures
        w == WideBox::spec_from_rect(*r),
{
    let b = euclid::default::Rect::<i128>::new(
        euclid::point2(i128::from(r.origin.x), i128::from(r.origin.y)),
        euclid::size2(i128::from(r.size.width), i128::from(r.size.height)),
    ).to_box2d();
    WideBox { min_x: b.min.x, min_y: b.min.y, max_x: b.max.x, max_y: b.max.y }
}

/// `euclid::Box2D::to_rect`: the minimum, and the maximum less the minimum.
/// The differences have to fit into 128 bits.
#[verifier::external_body]
fn euclid_box_to_rect(b: &WideBox) -> (r: WideRect)
    requires
        i128::MIN <= b.max_x - b.min_x <= i128::MAX,
        i128::MIN <= b.max_y - b.min_y <= i128::MAX,
    ensures
        r.x == b.min_x,
        r.y == b.min_y,
        r.width == b.max_x - b.min_x,
        r.height == b.max_y - b.min_y,
{
    let r = euclid::default::Box2D::new(
        euclid::point2(b.min_x, b.min_y),
        euclid::point2(b.max_x, b.max_y),
    ).to_rect();
    WideRect { x: r.origin.x, y: r.origin.y, width: r.size.width, height: r.size.height }
}

/// `euclid::Box2D::is_empty`: true unless the maximum is greater than the
/// minimum in both directions.
#[verifier::external_body]
fn euclid_box_is_empty(b: &WideBox) -> (r: bool)
    ensures
        r == b.spec_is_empty(),
{
    euclid::default::Box2D::new(
        euclid::point2(b.min_x, b.min_y),
        euclid::point2(b.max_x, b.max_y),
    ).is_empty()
}

/// `euclid::Box2D::intersects`: each box begins before the other ends, in both
/// directions.
#[verifier::external_body]
fn euclid_box_intersects(a: &WideBox, b: &WideBox) -> (r: bool)
    ensures
        r == a.spec_intersects(*b),
{
    euclid::default::Box2D::new(
        euclid::point2(a.min_x, a.min_y),
        euclid::point2(a.max_x, a.max_y),
    ).intersects(
        &euclid::default::Box2D::new(
            euclid::point2(b.min_x, b.min_y),
            euclid::point2(b.max_x, b.max_y),
        ),
    )
}

/// `euclid::Box2D::contains_box`: the second box is empty, or its corners lie
/// within the first.
#[verifier::external_body]
fn euclid_box_contains_box(a: &WideBox, b: &WideBox) -> (r: bool)
    ensures
        r == a.spec_contains_box(*b),
{
    euclid::default::Box2D::new(
        euclid::point2(a.min_x, a.min_y),
        euclid::point2(a.max_x, a.max_y),
    ).contains_box(
        &euclid::default::Box2D::new(
            euclid::point2(b.min_x, b.min_y),
            euclid::point2(b.max_x, b.max_y),
        ),
    )
}

/// `euclid::Box2D::intersection`: the box from the larger minima to the smaller
/// maxima, or nothing where that box is empty.
#[verifier::external_body]
fn euclid_box_intersection(a: &WideBox, b: &WideBox) -> (r: Option<WideBox>)
    ensures
        r == a.spec_intersection(*b),
{
    let a = euclid::default::Box2D::new(
        euclid::point2(a.min_x, a.min_y),
        euclid::point2(a.max_x, a.max_y),
    );
    let b = euclid::default::Box2D::new(
        euclid::point2(b.min_x, b.min_y),
        euclid::point2(b.max_x, b.max_y),
    );
    match a.intersection(&b) {
        Some(i) => Some(WideBox { min_x: i.min.x, min_y: i.min.y, max_x: i.max.x, max_y: i.max.y }),
        None => None,
    }
}

/// `euclid::Box2D::union`: the other box when one is empty, else the box from
/// the smaller minima to the larger maxima.
#[verifier::external_body]
fn euclid_box_union(a: &WideBox, b: &WideBox) -> (r: WideBox)
    ensures
        r == a.spec_union(*b),
{
    let u = euclid::default::Box2D::new(
        euclid::point2(a.min_x, a.min_y),
        euclid::point2(a.max_x, a.max_y),
    ).union(
        &euclid::default::Box2D::new(
            euclid::point2(b.min_x, b.min_y),
            euclid::point2(b.max_x, b.max_y),
        ),
    );
    WideBox { min_x: u.min.x, min_y: u.min.y, max_x: u.max.x, max_y: u.max.y }
}

/// `euclid::Box2D::translate`: the vector is added to both corners. The sums
/// have to fit into 128 bits.
#[verifier::external_body]
fn euclid_box_translate(b: &WideBox, dx: i128, dy: i128) -> (r: WideBox)
    requires
        i128::MIN <= b.min_x + dx <= i128::MAX,
        i128::MIN <= b.max_x + dx <= i128::MAX,
        i128::MIN <= b.min_y + dy <= i128::MAX,
        i128::MIN <= b.max_y + dy <= i128::MAX,
    ensures
        r == b.spec_translate(dx as int, dy as int),
{
    let t = euclid::default::Box2D::new(
        euclid::point2(b.min_x, b.min_y),
        euclid::point2(b.max_x, b.max_y),
    ).translate(euclid::vec2(dx, dy));
    WideBox { min_x: t.min.x, min_y: t.min.y, max_x: t.max.x, max_y: t.max.y }
}

/// `euclid::Box2D::area`: width times height. The product has to fit into
/// 128 bits.
#[verifier::external_body]
fn euclid_box_area(b: &WideBox) -> (r: i128)
    requires
        i128::MIN <= b.max_x - b.min_x <= i128::MAX,
        i128::MIN <= b.max_y - b.min_y <= i128::MAX,
        i128::MIN <= (b.max_x - b.min_x) * (b.max_y - b.min_y) <= i128::MAX,
    ensures
        r == (b.max_x - b.min_x) * (b.max_y - b.min_y),
{
    euclid::default::Box2D::new(
        euclid::point2(b.min_x, b.min_y),
        euclid::point2(b.max_x, b.max_y),
    ).area()
}

} // verus!
