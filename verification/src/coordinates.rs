//! Geometry primitives: a two-dimensional point and an axis-aligned
//! bounding-box accumulator with a monoidal `combine` operation.

use vstd::prelude::*;

verus! {

/// Largest magnitude allowed for a shape coordinate or dimension.  Keeping
/// inputs inside this range guarantees that every bounding-box corner fits
/// inside `BOUND_LIMIT` and that every box area fits in an `i64`.
pub const COORD_LIMIT: i64 = 536870912;

/// Largest magnitude a bounding-box corner can reach when it is folded from
/// shapes whose fields are bounded by `COORD_LIMIT`.
pub const BOUND_LIMIT: i64 = 1073741824;

/// A two-dimensional point.
#[derive(Clone, Copy)]
pub struct Coordinates {
    pub x: i64,
    pub y: i64,
}

/// The mathematical image of a bounding-box accumulator: the four corner
/// coordinates as unbounded integers.
pub struct Bounds {
    pub min_x: int,
    pub min_y: int,
    pub max_x: int,
    pub max_y: int,
}

/// The smallest axis-aligned box enclosing every shape folded into it so far.
///
/// Before anything is folded it holds the identity sentinel: minima at
/// `i64::MAX` and maxima at `i64::MIN`, so that combining it with any real
/// box yields that box unchanged.
#[derive(Clone, Copy)]
pub struct MinMaxCoordinates {
    pub min: Coordinates,
    pub max: Coordinates,
}

impl View for MinMaxCoordinates {
    type V = Bounds;

    open spec fn view(&self) -> Bounds {
        Bounds {
            min_x: self.min.x as int,
            min_y: self.min.y as int,
            max_x: self.max.x as int,
            max_y: self.max.y as int,
        }
    }
}

/// The smaller of two integers.
pub open spec fn imin(a: int, b: int) -> int {
    if a < b {
        a
    } else {
        b
    }
}

/// The larger of two integers.
pub open spec fn imax(a: int, b: int) -> int {
    if a > b {
        a
    } else {
        b
    }
}

/// The identity element of `combine`.
pub open spec fn empty_bounds() -> Bounds {
    Bounds {
        min_x: i64::MAX as int,
        min_y: i64::MAX as int,
        max_x: i64::MIN as int,
        max_y: i64::MIN as int,
    }
}

/// Componentwise minimum of the minima and maximum of the maxima: the
/// smallest box enclosing both arguments.
pub open spec fn combine(a: Bounds, b: Bounds) -> Bounds {
    Bounds {
        min_x: imin(a.min_x, b.min_x),
        min_y: imin(a.min_y, b.min_y),
        max_x: imax(a.max_x, b.max_x),
        max_y: imax(a.max_y, b.max_y),
    }
}

/// The signed area of a box; negative for inverted boxes, which arise from
/// shapes with negative dimensions.
pub open spec fn area_of(b: Bounds) -> int {
    (b.max_x - b.min_x) * (b.max_y - b.min_y)
}

/// Holds for every box that arises by folding shape bounds into the identity:
/// the minima never rise above the identity's minima and the maxima never
/// sink below the identity's maxima.  On such boxes the identity is neutral.
pub open spec fn dominated(b: Bounds) -> bool {
    &&& b.min_x <= i64::MAX as int
    &&& b.min_y <= i64::MAX as int
    &&& b.max_x >= i64::MIN as int
    &&& b.max_y >= i64::MIN as int
}

/// All four corner coordinates fit inside `BOUND_LIMIT`, which makes the
/// area computation free of overflow.
pub open spec fn bounds_in_range(b: Bounds) -> bool {
    &&& -(BOUND_LIMIT as int) <= b.min_x <= BOUND_LIMIT as int
    &&& -(BOUND_LIMIT as int) <= b.min_y <= BOUND_LIMIT as int
    &&& -(BOUND_LIMIT as int) <= b.max_x <= BOUND_LIMIT as int
    &&& -(BOUND_LIMIT as int) <= b.max_y <= BOUND_LIMIT as int
}

/// `combine` is associative.
pub proof fn lemma_combine_assoc(a: Bounds, b: Bounds, c: Bounds)
    ensures
        combine(combine(a, b), c) == combine(a, combine(b, c)),
{
}

/// `combine` is commutative.
pub proof fn lemma_combine_comm(a: Bounds, b: Bounds)
    ensures
        combine(a, b) == combine(b, a),
{
}

/// The identity box is neutral on either side of every dominated box.
pub proof fn lemma_combine_identity(b: Bounds)
    requires
        dominated(b),
    ensures
        combine(b, empty_bounds()) == b,
        combine(empty_bounds(), b) == b,
{
}

/// The smaller of two machine integers.
pub fn min(a: i64, b: i64) -> (r: i64)
    ensures
        r as int == imin(a as int, b as int),
{
    if a < b {
        a
    } else {
        b
    }
}

/// The larger of two machine integers.
pub fn max(a: i64, b: i64) -> (r: i64)
    ensures
        r as int == imax(a as int, b as int),
{
    if a > b {
        a
    } else {
        b
    }
}

impl Coordinates {
    /// A point from its two components.
    pub fn new(x: i64, y: i64) -> (c: Coordinates)
        ensures
            c.x == x,
            c.y == y,
    {
        Coordinates { x, y }
    }
}

impl MinMaxCoordinates {
    /// The pre-fold identity box.
    pub fn new() -> (m: MinMaxCoordinates)
        ensures
            m@ == empty_bounds(),
    {
        MinMaxCoordinates {
            min: Coordinates::new(i64::MAX, i64::MAX),
            max: Coordinates::new(i64::MIN, i64::MIN),
        }
    }

    /// A box from its two corners.
    pub fn from(min: Coordinates, max: Coordinates) -> (m: MinMaxCoordinates)
        ensures
            m.min == min,
            m.max == max,
    {
        MinMaxCoordinates { min, max }
    }

    /// The smallest box enclosing `self` and `other`.
    pub fn min_max(&self, other: &MinMaxCoordinates) -> (m: MinMaxCoordinates)
        ensures
            m@ == combine(self@, other@),
    {
        MinMaxCoordinates {
            min: Coordinates::new(min(self.min.x, other.min.x), min(self.min.y, other.min.y)),
            max: Coordinates::new(max(self.max.x, other.max.x), max(self.max.y, other.max.y)),
        }
    }

    /// The signed area of the box.  The corner bound is what lets the
    /// products stay inside `i64`.
    pub fn area(&self) -> (a: i64)
        requires
            bounds_in_range(self@),
        ensures
            a as int == area_of(self@),
    {
        let dx = self.max.x - self.min.x;
        let dy = self.max.y - self.min.y;
        proof {
            assert((dx as int) * (dy as int) <= 0x4000_0000_0000_0000 && (dx as int) * (dy as int)
                >= -0x4000_0000_0000_0000) by (nonlinear_arith)
                requires
                    -0x8000_0000 <= dx as int <= 0x8000_0000,
                    -0x8000_0000 <= dy as int <= 0x8000_0000,
            ;
        }
        dx * dy
    }
}

} // verus!
