//! Affine transformations with integer coefficients, and what they do to
//! rectangles.
//!
//! A transformation maps the point `(x, y)` to
//! `(x * m11 + y * m21 + m31, x * m12 + y * m22 + m32)`. Its coefficients are
//! 32 bits wide. What it makes of a rectangle can lie anywhere, so that is
//! computed in 128 bits, by `euclid`, and cut down to a clip box before it
//! is stored. Two transformations are composed here, with a look at each
//! coefficient of the result: one that does not fit into 32 bits leaves the
//! composition without a value.

use crate::lengths::{fits_coord, narrow, Coord, LogicalRect, LogicalVector, WideBox};
use vstd::prelude::*;

verus! {

/// An affine transformation of the plane.
#[derive(Clone, Copy, Debug, PartialEq, Eq, Structural)]
pub struct ItemTransform {
    pub m11: Coord,
    pub m12: Coord,
    pub m21: Coord,
    pub m22: Coord,
    pub m31: Coord,
    pub m32: Coord,
}

/// The smallest of four numbers.
pub open spec fn min4(a: int, b: int, c: int, d: int) -> int {
    let ab = if a <= b { a } else { b };
    let cd = if c <= d { c } else { d };
    if ab <= cd { ab } else { cd }
}

/// The largest of four numbers.
pub open spec fn max4(a: int, b: int, c: int, d: int) -> int {
    let ab = if a >= b { a } else { b };
    let cd = if c >= d { c } else { d };
    if ab >= cd { ab } else { cd }
}

impl ItemTransform {
    /// The transformation that leaves every point where it is.
    pub open spec fn spec_identity() -> ItemTransform {
        ItemTransform { m11: 1, m12: 0, m21: 0, m22: 1, m31: 0, m32: 0 }
    }

    /// The transformation that moves every point by `(x, y)`.
    pub open spec fn spec_translation(x: Coord, y: Coord) -> ItemTransform {
        ItemTransform { m11: 1, m12: 0, m21: 0, m22: 1, m31: x, m32: y }
    }

    /// Where the transformation takes the point `(x, y)`, first coordinate.
    pub open spec fn map_x(self, x: int, y: int) -> int {
        x * self.m11 + y * self.m21 + self.m31
    }

    /// Where the transformation takes the point `(x, y)`, second coordinate.
    pub open spec fn map_y(self, x: int, y: int) -> int {
        x * self.m12 + y * self.m22 + self.m32
    }

    /// The smallest box that holds the four corners of the box after the
    /// transformation.
    pub open spec fn spec_outer_box(self, b: WideBox) -> WideBox {
        let x0 = b.min_x as int;
        let y0 = b.min_y as int;
        let x1 = b.max_x as int;
        let y1 = b.max_y as int;
        WideBox {
            min_x: min4(
                self.map_x(x0, y0),
                self.map_x(x1, y1),
                self.map_x(x1, y0),
                self.map_x(x0, y1),
            ) as i128,
            min_y: min4(
                self.map_y(x0, y0),
                self.map_y(x1, y1),
                self.map_y(x1, y0),
                self.map_y(x0, y1),
            ) as i128,
            max_x: max4(
                self.map_x(x0, y0),
                self.map_x(x1, y1),
                self.map_x(x1, y0),
                self.map_x(x0, y1),
            ) as i128,
            max_y: max4(
                self.map_y(x0, y0),
                self.map_y(x1, y1),
                self.map_y(x1, y0),
                self.map_y(x0, y1),
            ) as i128,
        }
    }

    /// The smallest box that holds the four corners of the rectangle after
    /// the transformation.
    pub open spec fn spec_outer_transformed_box(self, rect: LogicalRect) -> WideBox {
        self.spec_outer_box(WideBox::spec_from_rect(rect))
    }

    /// The six coefficients of the transformation that applies `self` first
    /// and `next` after it.
    pub open spec fn composed_coefficients(self, next: ItemTransform) -> Seq<int> {
        seq![
            self.m11 * next.m11 + self.m12 * next.m21,
            self.m11 * next.m12 + self.m12 * next.m22,
            self.m21 * next.m11 + self.m22 * next.m21,
            self.m21 * next.m12 + self.m22 * next.m22,
            self.m31 * next.m11 + self.m32 * next.m21 + next.m31,
            self.m31 * next.m12 + self.m32 * next.m22 + next.m32,
        ]
    }

    /// The transformation that applies `self` first and `next` after it,
    /// where its coefficients are numbers that [`Coord`] can hold.
    pub open spec fn spec_followed_by(self, next: ItemTransform) -> Option<ItemTransform> {
        let c = self.composed_coefficients(next);
        if fits_coord(c[0]) && fits_coord(c[1]) && fits_coord(c[2]) && fits_coord(c[3])
            && fits_coord(c[4]) && fits_coord(c[5]) {
            Some(
                ItemTransform {
                    m11: c[0] as i32,
                    m12: c[1] as i32,
                    m21: c[2] as i32,
                    m22: c[3] as i32,
                    m31: c[4] as i32,
                    m32: c[5] as i32,
                },
            )
        } else {
            None
        }
    }

    pub fn identity() -> (t: ItemTransform)
        ensures
            t == Self::spec_identity(),
    {
        ItemTransform { m11: 1, m12: 0, m21: 0, m22: 1, m31: 0, m32: 0 }
    }

    pub fn translation(x: Coord, y: Coord) -> (t: ItemTransform)
        ensures
            t == Self::spec_translation(x, y),
    {
        ItemTransform { m11: 1, m12: 0, m21: 0, m22: 1, m31: x, m32: y }
    }

    /// The transformation that applies `self` first and `next` after it, or
    /// nothing where one of its coefficients is too large for [`Coord`].
    pub fn followed_by(&self, next: &ItemTransform) -> (r: Option<ItemTransform>)
        ensures
            r == self.spec_followed_by(*next),
    {
        let m11 = narrow(dot(self.m11, next.m11, self.m12, next.m21, 0));
        let m12 = narrow(dot(self.m11, next.m12, self.m12, next.m22, 0));
        let m21 = narrow(dot(self.m21, next.m11, self.m22, next.m21, 0));
        let m22 = narrow(dot(self.m21, next.m12, self.m22, next.m22, 0));
        let m31 = narrow(dot(self.m31, next.m11, self.m32, next.m21, next.m31));
        let m32 = narrow(dot(self.m31, next.m12, self.m32, next.m22, next.m32));
        match (m11, m12, m21, m22, m31, m32) {
            (Some(m11), Some(m12), Some(m21), Some(m22), Some(m31), Some(m32)) => Some(
                ItemTransform { m11, m12, m21, m22, m31, m32 },
            ),
            _ => None,
        }
    }

    /// The transformation that applies `self` first and moves by `v` after it.
    pub fn followed_by_translation(&self, v: LogicalVector) -> (r: Option<ItemTransform>)
        ensures
            r == self.spec_followed_by(Self::spec_translation(v.x, v.y)),
    {
        self.followed_by(&ItemTransform::translation(v.x, v.y))
    }

    /// The smallest box that holds the four corners of the rectangle after
    /// the transformation.
    pub fn outer_transformed_box(&self, rect: &LogicalRect) -> (r: WideBox)
        ensures
            r == self.spec_outer_transformed_box(*rect),
    {
        euclid_outer_transformed_box(self, &WideBox::from_rect(rect))
    }
}

/// `a * b + c * d + e`, in 128 bits.
fn dot(a: i32, b: i32, c: i32, d: i32, e: i32) -> (r: i128)
    ensures
        r == a * b + c * d + e,
{
    proof {
        lemma_product_bounds(a as int, b as int);
        lemma_product_bounds(c as int, d as int);
    }
    (a as i128) * (b as i128) + (c as i128) * (d as i128) + (e as i128)
}

/// The product of two numbers of 32 bits has no more than 62 bits.
pub proof fn lemma_product_bounds(a: int, b: int)
    requires
        i32::MIN <= a <= i32::MAX,
        i32::MIN <= b <= i32::MAX,
    ensures
        -0x4000_0000_0000_0000 <= a * b <= 0x4000_0000_0000_0000,
{
    assert(-0x4000_0000_0000_0000 <= a * b <= 0x4000_0000_0000_0000) by (nonlinear_arith)
        requires
            -0x8000_0000 <= a <= 0x8000_0000,
            -0x8000_0000 <= b <= 0x8000_0000,
    ;
}

/// `euclid::Transform2D::outer_transformed_box`, in 128 bits: each of the four
/// corners of the box is mapped, and the result reaches from the smallest to
/// the largest coordinate of the four images. The corners have to lie so
/// close to the origin that the images fit into 128 bits.
#[verifier::external_body]
fn euclid_outer_transformed_box(t: &ItemTransform, b: &WideBox) -> (r: WideBox)
    requires
        b.within(0x1_0000_0000),
    ensures
        r == t.spec_outer_box(*b),
{
    let outer = euclid::default::Transform2D::<i128>::new(
        i128::from(t.m11), i128::from(t.m12), i128::from(t.m21),
        i128::from(t.m22), i128::from(t.m31), i128::from(t.m32),
    ).outer_transformed_box(&euclid::default::Box2D::new(
        euclid::point2(b.min_x, b.min_y),
        euclid::point2(b.max_x, b.max_y),
    ));
    WideBox { min_x: outer.min.x, min_y: outer.min.y, max_x: outer.max.x, max_y: outer.max.y }
}

} // verus!
