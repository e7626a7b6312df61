//! The shape model: a closed set of tagged shape variants, each exposing its
//! bounding contribution, its rectangular area, and its circle-to-rectangle
//! rewrite, together with the case-insensitive kind selector used by `filter`.

use crate::coordinates::{Bounds, Coordinates, MinMaxCoordinates, COORD_LIMIT};
use vstd::prelude::*;
use vstd::string::StrSliceExecFns;

verus! {

/// A circle anchored at its center.
pub struct Circle {
    pub x: i64,
    pub y: i64,
    pub color: String,
    pub radius: i64,
}

/// A rectangle anchored at its lower-left corner.
pub struct Rectangle {
    pub x: i64,
    pub y: i64,
    pub color: String,
    pub width: i64,
    pub height: i64,
}

/// The closed set of shape variants.  `(x, y)` is the anchor: the center for
/// a circle and the lower-left corner for a rectangle; this asymmetry is
/// deliberate.  `color` is an opaque label that no computation reads.
pub enum ShapeKind {
    Circle(Circle),
    Rectangle(Rectangle),
}

impl Clone for ShapeKind {
    /// A structural copy; the clone is equal to the original.
    fn clone(&self) -> (r: ShapeKind)
        ensures
            r == *self,
    {
        match self {
            ShapeKind::Circle(c) => ShapeKind::Circle(
                Circle { x: c.x, y: c.y, color: c.color.clone(), radius: c.radius },
            ),
            ShapeKind::Rectangle(t) => ShapeKind::Rectangle(
                Rectangle {
                    x: t.x,
                    y: t.y,
                    color: t.color.clone(),
                    width: t.width,
                    height: t.height,
                },
            ),
        }
    }
}

/// Every coordinate and dimension of the shape lies inside `COORD_LIMIT`, so
/// that bounding corners and areas stay representable.
pub open spec fn wf_shape(s: ShapeKind) -> bool {
    match s {
        ShapeKind::Circle(c) => {
            &&& -COORD_LIMIT <= c.x <= COORD_LIMIT
            &&& -COORD_LIMIT <= c.y <= COORD_LIMIT
            &&& -COORD_LIMIT <= c.radius <= COORD_LIMIT
        },
        ShapeKind::Rectangle(r) => {
            &&& -COORD_LIMIT <= r.x <= COORD_LIMIT
            &&& -COORD_LIMIT <= r.y <= COORD_LIMIT
            &&& -COORD_LIMIT <= r.width <= COORD_LIMIT
            &&& -COORD_LIMIT <= r.height <= COORD_LIMIT
        },
    }
}

/// The bounding contribution of a shape: the square `[x-r, x+r] x [y-r, y+r]`
/// for a circle, the box `[x, x+w] x [y, y+h]` for a rectangle.
pub open spec fn shape_bounds(s: ShapeKind) -> Bounds {
    match s {
        ShapeKind::Circle(c) => Bounds {
            min_x: c.x - c.radius,
            min_y: c.y - c.radius,
            max_x: c.x + c.radius,
            max_y: c.y + c.radius,
        },
        ShapeKind::Rectangle(r) => Bounds {
            min_x: r.x as int,
            min_y: r.y as int,
            max_x: r.x + r.width,
            max_y: r.y + r.height,
        },
    }
}

/// The area of the smallest enclosing square or rectangle: `(2r)^2` for a
/// circle (not `pi r^2`), `w*h` for a rectangle.
pub open spec fn spec_rectangular_area(s: ShapeKind) -> int {
    match s {
        ShapeKind::Circle(c) => (2 * c.radius) * (2 * c.radius),
        ShapeKind::Rectangle(r) => r.width * r.height,
    }
}

/// The circle-to-rectangle rewrite: a circle becomes its enclosing square,
/// anchor moved to `(x-r, y-r)`, sides `2r`, color preserved; a rectangle
/// passes through unchanged.
pub open spec fn spec_mutate_shape(s: ShapeKind) -> ShapeKind {
    match s {
        ShapeKind::Circle(c) => ShapeKind::Rectangle(
            Rectangle {
                x: (c.x - c.radius) as i64,
                y: (c.y - c.radius) as i64,
                color: c.color,
                width: (2 * c.radius) as i64,
                height: (2 * c.radius) as i64,
            },
        ),
        ShapeKind::Rectangle(_) => s,
    }
}

impl ShapeKind {
    /// The smallest axis-aligned box enclosing this shape.
    pub fn bounding_box(&self) -> (m: MinMaxCoordinates)
        requires
            wf_shape(*self),
        ensures
            m@ == shape_bounds(*self),
    {
        match self {
            ShapeKind::Circle(c) => MinMaxCoordinates::from(
                Coordinates::new(c.x - c.radius, c.y - c.radius),
                Coordinates::new(c.x + c.radius, c.y + c.radius),
            ),
            ShapeKind::Rectangle(r) => MinMaxCoordinates::from(
                Coordinates::new(r.x, r.y),
                Coordinates::new(r.x + r.width, r.y + r.height),
            ),
        }
    }

    /// The area of the smallest enclosing square or rectangle.
    pub fn rectangular_area(&self) -> (a: i64)
        requires
            wf_shape(*self),
        ensures
            a as int == spec_rectangular_area(*self),
    {
        match self {
            ShapeKind::Circle(c) => {
                let d = 2 * c.radius;
                proof {
                    assert((d as int) * (d as int) <= 0x4000_0000_0000_0000 && (d as int) * (
                    d as int) >= 0) by (nonlinear_arith)
                        requires
                            -0x8000_0000 <= d as int <= 0x8000_0000,
                    ;
                }
                d * d
            },
            ShapeKind::Rectangle(r) => {
                proof {
                    assert((r.width as int) * (r.height as int) <= 0x4000_0000_0000_0000 && (
                    r.width as int) * (r.height as int) >= -0x4000_0000_0000_0000)
                        by (nonlinear_arith)
                        requires
                            -0x8000_0000 <= r.width as int <= 0x8000_0000,
                            -0x8000_0000 <= r.height as int <= 0x8000_0000,
                    ;
                }
                r.width * r.height
            },
        }
    }
}

/// The circle-to-rectangle rewrite of a single shape.
pub fn mutate_shape(s: ShapeKind) -> (r: ShapeKind)
    requires
        wf_shape(s),
    ensures
        r == spec_mutate_shape(s),
{
    match s {
        ShapeKind::Circle(c) => ShapeKind::Rectangle(
            Rectangle {
                x: c.x - c.radius,
                y: c.y - c.radius,
                color: c.color,
                width: 2 * c.radius,
                height: 2 * c.radius,
            },
        ),
        ShapeKind::Rectangle(r) => ShapeKind::Rectangle(r),
    }
}

/// What a kind-selector string denotes after case-insensitive matching:
/// one of the two variants, or nothing.
#[derive(Clone, Copy, PartialEq, Eq, Structural)]
pub enum KindSel {
    Circle,
    Rectangle,
    Other,
}

/// ASCII lowercasing of one character: uppercase letters move down by 32,
/// everything else is unchanged.
pub open spec fn char_lower(c: char) -> char {
    if 65 <= c as int && c as int <= 90 {
        ((c as u8) + 32) as char
    } else {
        c
    }
}

/// `s` spells `t` up to ASCII case, where `t` is already lowercase.
pub open spec fn chars_match_ci(s: Seq<char>, t: Seq<char>) -> bool {
    s.len() == t.len() && forall|i: int| 0 <= i < s.len() ==> char_lower(#[trigger] s[i]) == t[i]
}

/// The characters of the selector literal `"circle"`.
pub open spec fn circle_chars() -> Seq<char> {
    seq!['c', 'i', 'r', 'c', 'l', 'e']
}

/// The characters of the selector literal `"rectangle"`.
pub open spec fn rectangle_chars() -> Seq<char> {
    seq!['r', 'e', 'c', 't', 'a', 'n', 'g', 'l', 'e']
}

/// The selector denoted by a kind string: `"circle"` or `"rectangle"` up to
/// case selects the variant, anything else selects nothing.
pub open spec fn spec_kind_sel(s: Seq<char>) -> KindSel {
    if chars_match_ci(s, circle_chars()) {
        KindSel::Circle
    } else if chars_match_ci(s, rectangle_chars()) {
        KindSel::Rectangle
    } else {
        KindSel::Other
    }
}

/// Whether a shape is of the selected kind.
pub open spec fn shape_matches(s: ShapeKind, k: KindSel) -> bool {
    match s {
        ShapeKind::Circle(_) => k == KindSel::Circle,
        ShapeKind::Rectangle(_) => k == KindSel::Rectangle,
    }
}

/// ASCII lowercasing of one character.
fn lower_char_exec(c: char) -> (r: char)
    ensures
        r == char_lower(c),
{
    let u = c as u32;
    if 65 <= u && u <= 90 {
        ((c as u8) + 32) as char
    } else {
        c
    }
}

/// Case-insensitive comparison of a string against a lowercase target.
fn chars_eq_ci(s: &str, target: &Vec<char>) -> (b: bool)
    ensures
        b == chars_match_ci(s@, target@),
{
    let n = s.unicode_len();
    if n != target.len() {
        return false;
    }
    for i in 0..n
        invariant
            n == s@.len(),
            n == target@.len(),
            forall|j: int| 0 <= j < i ==> char_lower(#[trigger] s@[j]) == target@[j],
    {
        let c = s.get_char(i);
        if lower_char_exec(c) != target[i] {
            return false;
        }
    }
    true
}

/// The selector denoted by a kind string.
pub fn parse_kind(kind: &str) -> (k: KindSel)
    ensures
        k == spec_kind_sel(kind@),
{
    let circle: Vec<char> = vec!['c', 'i', 'r', 'c', 'l', 'e'];
    let rectangle: Vec<char> = vec!['r', 'e', 'c', 't', 'a', 'n', 'g', 'l', 'e'];
    proof {
        assert(circle@ =~= circle_chars());
        assert(rectangle@ =~= rectangle_chars());
    }
    if chars_eq_ci(kind, &circle) {
        KindSel::Circle
    } else if chars_eq_ci(kind, &rectangle) {
        KindSel::Rectangle
    } else {
        KindSel::Other
    }
}

/// Whether a shape is of the selected kind.
pub fn shape_matches_exec(s: &ShapeKind, k: KindSel) -> (b: bool)
    ensures
        b == shape_matches(*s, k),
{
    match s {
        ShapeKind::Circle(_) => k == KindSel::Circle,
        ShapeKind::Rectangle(_) => k == KindSel::Rectangle,
    }
}

} // verus!
