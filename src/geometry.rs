//! Geometry providers: shapes that produce their vertices and triangle
//! indices on demand.

use vstd::prelude::*;

verus! {

/// A vertex of a provided shape, in the shape's local coordinates, with a
/// tint and a texture corner.
#[derive(Debug)]
pub struct Vertex<C> {
    pub position: (u32, u32),
    pub color: C,
    pub tex_coords: (u32, u32),
}

/// An axis-aligned rectangle with its bottom-left corner at the local origin.
#[derive(Debug)]
pub struct RectangleProvider<C> {
    pub width: u32,
    pub height: u32,
    pub color: C,
}

/// The corners of a `w` by `h` rectangle, counter-clockwise from the origin.
pub open spec fn corners(w: int, h: int) -> Seq<(int, int)> {
    seq![(0, 0), (w, 0), (w, h), (0, h)]
}

/// The triangle list over the corners: two triangles sharing the diagonal.
pub open spec fn rectangle_indices() -> Seq<u32> {
    seq![0u32, 1, 2, 2, 0, 3]
}

pub open spec fn position_of<C>(v: Vertex<C>) -> (int, int) {
    (v.position.0 as int, v.position.1 as int)
}

impl<C: Copy> RectangleProvider<C> {
    pub fn new_from_size_components(x: u32, y: u32, color: C) -> (r: Box<RectangleProvider<C>>)
        ensures
            r.width == x,
            r.height == y,
            r.color == color,
    {
        Box::new(RectangleProvider { width: x, height: y, color })
    }

    /// The four corners, tinted, each with the matching texture corner, and
    /// the six indices of two triangles.
    pub fn provide(&self) -> (r: (Vec<Vertex<C>>, Option<Vec<u32>>))
        ensures
            r.0@.len() == 4,
            forall|k: int|
                0 <= k < 4 ==> position_of(#[trigger] r.0@[k]) == corners(
                    self.width as int,
                    self.height as int,
                )[k] && r.0@[k].color == self.color,
            r.0@[0].tex_coords == (0u32, 0u32),
            r.0@[1].tex_coords == (1u32, 0u32),
            r.0@[2].tex_coords == (1u32, 1u32),
            r.0@[3].tex_coords == (0u32, 1u32),
            r.1 is Some,
            r.1.unwrap()@ == rectangle_indices(),
    {
        let w = self.width;
        let h = self.height;
        let c = self.color;
        let points = vec![
            Vertex { position: (0, 0), color: c, tex_coords: (0, 0) },
            Vertex { position: (w, 0), color: c, tex_coords: (1, 0) },
            Vertex { position: (w, h), color: c, tex_coords: (1, 1) },
            Vertex { position: (0, h), color: c, tex_coords: (0, 1) },
        ];
        let indices: Vec<u32> = vec![0, 1, 2, 2, 0, 3];
        proof {
            assert(indices@ =~= rectangle_indices());
        }
        (points, Some(indices))
    }
}

/// Which side of the line from `a` to `b` the point `p` lies on: positive to
/// the left, negative to the right, zero on it.
pub open spec fn orient(a: (int, int), b: (int, int), p: (int, int)) -> int {
    (b.0 - a.0) * (p.1 - a.1) - (b.1 - a.1) * (p.0 - a.0)
}

/// `p` lies in the closed triangle `a`, `b`, `c`, of either winding.
pub open spec fn in_triangle(a: (int, int), b: (int, int), c: (int, int), p: (int, int)) -> bool {
    ||| (orient(a, b, p) >= 0 && orient(b, c, p) >= 0 && orient(c, a, p) >= 0)
    ||| (orient(a, b, p) <= 0 && orient(b, c, p) <= 0 && orient(c, a, p) <= 0)
}

/// The `t`-th triangle of an index list over a corner list.
pub open spec fn triangle_has(pts: Seq<(int, int)>, idx: Seq<u32>, t: int, p: (int, int)) -> bool {
    in_triangle(pts[idx[3 * t] as int], pts[idx[3 * t + 1] as int], pts[idx[3 * t + 2] as int], p)
}

/// The two triangles of a rectangle cover it: every point of
/// `[0, w] x [0, h]` lies in one of them, and no triangle reaches outside,
/// since every corner they use is a corner of the rectangle.
pub proof fn law_rectangle_triangles_cover(w: int, h: int, p: (int, int))
    requires
        0 <= w,
        0 <= h,
        0 <= p.0 <= w,
        0 <= p.1 <= h,
    ensures
        rectangle_indices().len() == 6,
        forall|k: int| 0 <= k < 6 ==> rectangle_indices()[k] < 4,
        triangle_has(corners(w, h), rectangle_indices(), 0, p) || triangle_has(
            corners(w, h),
            rectangle_indices(),
            1,
            p,
        ),
{
    let pts = corners(w, h);
    let idx = rectangle_indices();
    assert(idx[0] == 0 && idx[1] == 1 && idx[2] == 2 && idx[3] == 2 && idx[4] == 0 && idx[5] == 3);
    let (x, y) = p;
    assert(w * y >= 0) by (nonlinear_arith)
        requires
            w >= 0,
            y >= 0,
    ;
    assert(h * (w - x) >= 0) by (nonlinear_arith)
        requires
            h >= 0,
            w - x >= 0,
    ;
    assert(h * x >= 0) by (nonlinear_arith)
        requires
            h >= 0,
            x >= 0,
    ;
    assert(w * (y - h) <= 0) by (nonlinear_arith)
        requires
            w >= 0,
            y - h <= 0,
    ;
    assert(pts[0] == (0int, 0int) && pts[1] == (w, 0int) && pts[2] == (w, h) && pts[3] == (0int, h));
    assert((w - 0) * (y - 0) - (0 - 0) * (x - 0) == w * y) by (nonlinear_arith);
    assert((w - w) * (y - 0) - (h - 0) * (x - w) == h * (w - x)) by (nonlinear_arith);
    assert((0 - w) * (y - h) - (0 - h) * (x - w) == h * x - w * y) by (nonlinear_arith);
    assert((0 - 0) * (y - 0) - (h - 0) * (x - 0) == -(h * x)) by (nonlinear_arith);
    assert((w - 0) * (y - h) - (h - h) * (x - 0) == w * (y - h)) by (nonlinear_arith);
    assert(orient(pts[0], pts[1], p) == w * y);
    assert(orient(pts[1], pts[2], p) == h * (w - x));
    assert(orient(pts[2], pts[0], p) == h * x - w * y);
    assert(orient(pts[0], pts[3], p) == -(h * x));
    assert(orient(pts[3], pts[2], p) == w * (y - h));
}

} // verus!
