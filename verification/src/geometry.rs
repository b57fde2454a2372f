//! Integer vectors, rectangles, dimensions and colors.

use vstd::prelude::*;

verus! {

/// A 2D integer vector.
#[derive(Clone, Copy, Debug, PartialEq, Eq, Structural, Default)]
pub struct Vec2i {
    pub x: i32,
    pub y: i32,
}

/// An RGBA color with one byte per channel (`x` red, `y` green, `z` blue, `w` alpha).
#[derive(Clone, Copy, Debug, PartialEq, Eq, Structural, Default)]
pub struct Color4b {
    pub x: u8,
    pub y: u8,
    pub z: u8,
    pub w: u8,
}

/// A 2D integer extent.
#[derive(Clone, Copy, Debug, PartialEq, Eq, Structural, Default)]
pub struct Dimensioni {
    pub width: i32,
    pub height: i32,
}

/// An axis-aligned integer rectangle: top-left corner and extent.
#[derive(Clone, Copy, Debug, PartialEq, Eq, Structural, Default)]
pub struct Recti {
    pub x: i32,
    pub y: i32,
    pub width: i32,
    pub height: i32,
}

pub open spec fn min_i(a: int, b: int) -> int {
    if a <= b { a } else { b }
}

pub open spec fn max_i(a: int, b: int) -> int {
    if a >= b { a } else { b }
}

/// `a / b` rounded toward zero, as integer division in Rust rounds, for `b > 0`.
pub open spec fn div_trunc(a: int, b: int) -> int {
    if a >= 0 { a / b } else { -((-a) / b) }
}

/// `x` clamped into `[a, b]` as `min(b, max(a, x))`.
pub open spec fn clamp_i(x: int, a: int, b: int) -> int {
    min_i(b, max_i(a, x))
}

/// The far corner of a rectangle does not overflow `i32`.
pub open spec fn rect_corner_fits(r: Recti) -> bool {
    &&& i32::MIN <= r.x + r.width <= i32::MAX
    &&& i32::MIN <= r.y + r.height <= i32::MAX
}

/// The intersection of two rectangles, `None` where they do not touch.
/// Rectangles that only share an edge intersect in a rectangle of zero extent.
pub open spec fn spec_intersect(a: Recti, b: Recti) -> Option<Recti> {
    if a.x + a.width < b.x || a.y + a.height < b.y || a.x > b.x + b.width || a.y > b.y + b.height {
        None
    } else {
        let x0 = max_i(a.x as int, b.x as int);
        let y0 = max_i(a.y as int, b.y as int);
        let x1 = min_i(a.x + a.width, b.x + b.width);
        let y1 = min_i(a.y + a.height, b.y + b.height);
        Some(Recti { x: x0 as i32, y: y0 as i32, width: (x1 - x0) as i32, height: (y1 - y0) as i32 })
    }
}

/// `r` grown by `n` on every side; the extent never goes below zero.
pub open spec fn spec_expand_rect(r: Recti, n: int) -> Recti {
    Recti {
        x: (r.x - n) as i32,
        y: (r.y - n) as i32,
        width: max_i(0, r.width + n * 2) as i32,
        height: max_i(0, r.height + n * 2) as i32,
    }
}

/// `p` lies in `r`, the left and top edges included, the right and bottom excluded.
pub open spec fn spec_rect_overlaps(r: Recti, p: Vec2i) -> bool {
    p.x >= r.x && p.x < r.x + r.width && p.y >= r.y && p.y < r.y + r.height
}

impl Recti {
    pub fn new(x: i32, y: i32, width: i32, height: i32) -> (r: Recti)
        ensures
            r == (Recti { x, y, width, height }),
    {
        Recti { x, y, width, height }
    }

    /// The overlap of `self` and `other`, `None` where they do not touch.
    pub fn intersect(&self, other: &Recti) -> (r: Option<Recti>)
        requires
            rect_corner_fits(*self),
            rect_corner_fits(*other),
        ensures
            r == spec_intersect(*self, *other),
    {
        let sx1 = self.x + self.width;
        let sy1 = self.y + self.height;
        let ox1 = other.x + other.width;
        let oy1 = other.y + other.height;
        if sx1 < other.x || sy1 < other.y || self.x > ox1 || self.y > oy1 {
            return None;
        }
        let x0 = if self.x >= other.x { self.x } else { other.x };
        let y0 = if self.y >= other.y { self.y } else { other.y };
        let x1 = if sx1 <= ox1 { sx1 } else { ox1 };
        let y1 = if sy1 <= oy1 { sy1 } else { oy1 };
        Some(Recti { x: x0, y: y0, width: x1 - x0, height: y1 - y0 })
    }
}

impl Dimensioni {
    pub fn new(width: i32, height: i32) -> (r: Dimensioni)
        ensures
            r == (Dimensioni { width, height }),
    {
        Dimensioni { width, height }
    }
}

pub fn vec2(x: i32, y: i32) -> (r: Vec2i)
    ensures
        r == (Vec2i { x, y }),
{
    Vec2i { x, y }
}

pub fn color(r: u8, g: u8, b: u8, a: u8) -> (c: Color4b)
    ensures
        c == (Color4b { x: r, y: g, z: b, w: a }),
{
    Color4b { x: r, y: g, z: b, w: a }
}

/// `r` grown by `n` on every side (shrunk for a negative `n`); a negative
/// extent is clamped to zero.
pub fn expand_rect(r: Recti, n: i32) -> (res: Recti)
    requires
        i32::MIN <= r.x - n <= i32::MAX,
        i32::MIN <= r.y - n <= i32::MAX,
        i32::MIN <= n * 2 <= i32::MAX,
        i32::MIN <= r.width + n * 2 <= i32::MAX,
        i32::MIN <= r.height + n * 2 <= i32::MAX,
    ensures
        res == spec_expand_rect(r, n as int),
{
    let w = r.width + n * 2;
    let h = r.height + n * 2;
    Recti::new(r.x - n, r.y - n, if w >= 0 { w } else { 0 }, if h >= 0 { h } else { 0 })
}

/// Whether the point `p` lies inside `r` (right and bottom edges excluded).
pub fn rect_overlaps_vec2(r: Recti, p: Vec2i) -> (b: bool)
    requires
        rect_corner_fits(r),
    ensures
        b == spec_rect_overlaps(r, p),
{
    p.x >= r.x && p.x < r.x + r.width && p.y >= r.y && p.y < r.y + r.height
}

/// Intersecting two rectangles does not depend on their order.
pub proof fn lemma_intersect_commutes(a: Recti, b: Recti)
    ensures
        spec_intersect(a, b) == spec_intersect(b, a),
{
}

/// The intersection of two rectangles whose far corners fit has a far
/// corner that fits.
pub proof fn lemma_intersect_fits(a: Recti, b: Recti)
    requires
        rect_corner_fits(a),
        rect_corner_fits(b),
        spec_intersect(a, b) is Some,
    ensures
        rect_corner_fits(spec_intersect(a, b).unwrap()),
        spec_intersect(a, b).unwrap().x + spec_intersect(a, b).unwrap().width == min_i(a.x + a.width, b.x + b.width),
        spec_intersect(a, b).unwrap().y + spec_intersect(a, b).unwrap().height == min_i(a.y + a.height, b.y + b.height),
{
}

/// An intersection lies inside both rectangles.
pub proof fn lemma_intersect_within(a: Recti, b: Recti)
    requires
        rect_corner_fits(a),
        rect_corner_fits(b),
        a.width >= 0 && a.height >= 0,
        b.width >= 0 && b.height >= 0,
        spec_intersect(a, b) is Some,
    ensures
        ({
            let r = spec_intersect(a, b).unwrap();
            &&& r.width >= 0 && r.height >= 0
            &&& a.x <= r.x && r.x + r.width <= a.x + a.width
            &&& a.y <= r.y && r.y + r.height <= a.y + a.height
            &&& b.x <= r.x && r.x + r.width <= b.x + b.width
            &&& b.y <= r.y && r.y + r.height <= b.y + b.height
        }),
{
}

} // verus!
