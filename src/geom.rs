use vstd::arithmetic::mul::{lemma_mul_is_associative, lemma_mul_is_distributive_add};
use vstd::prelude::*;

verus! {

/// A point on the document grid.
#[derive(Debug, Clone, Copy, PartialEq, Eq, Structural)]
pub struct P {
    pub x: i32,
    pub y: i32,
}

/// A point on the fine grid: one step is a sixth of a document grid step.
#[derive(Debug, Clone, Copy, PartialEq, Eq, Structural)]
pub struct Vertex {
    pub x: i64,
    pub y: i64,
}

/// The Bezier degree a primitive is stored in, ordered `Line < Quad < Cube`.
#[derive(Debug, Clone, Copy, PartialEq, Eq, Structural)]
pub enum Order {
    Line,
    Quad,
    Cube,
}

/// One drawing segment as read, before it is promoted to a primitive's order.
/// The start point is the end point of the segment before it.
#[derive(Debug, Clone, Copy, PartialEq, Eq, Structural)]
pub enum Segment {
    Line(P),
    Quad(P, P),
    Cube(P, P, P),
}

/// The point `a + (k / 6) * (b - a)`, expressed on the fine grid.
pub open spec fn lerp6(a: P, b: P, k: int) -> Vertex {
    Vertex {
        x: (6 * a.x + k * (b.x - a.x)) as i64,
        y: (6 * a.y + k * (b.y - a.y)) as i64,
    }
}

/// The same point as `p`, on the fine grid.
pub open spec fn fine(p: P) -> Vertex {
    lerp6(p, p, 0)
}

pub open spec fn rank(o: Order) -> nat {
    match o {
        Order::Line => 1,
        Order::Quad => 2,
        Order::Cube => 3,
    }
}

pub open spec fn max_order(a: Order, b: Order) -> Order {
    if rank(a) >= rank(b) { a } else { b }
}

/// How many points one segment adds to a primitive of order `o`.
pub open spec fn arity(o: Order) -> nat {
    rank(o)
}

impl Segment {
    /// The lowest order that represents this segment exactly.
    pub open spec fn order(self) -> Order {
        match self {
            Segment::Line(_) => Order::Line,
            Segment::Quad(_, _) => Order::Quad,
            Segment::Cube(_, _, _) => Order::Cube,
        }
    }

    pub open spec fn end(self) -> P {
        match self {
            Segment::Line(p) => p,
            Segment::Quad(_, p) => p,
            Segment::Cube(_, _, p) => p,
        }
    }

    /// The control and end points of this segment as a cubic, starting at `p0`.
    pub open spec fn cube_points(self, p0: P) -> Seq<Vertex> {
        match self {
            Segment::Line(p1) => seq![lerp6(p0, p1, 2), lerp6(p0, p1, 4), fine(p1)],
            Segment::Quad(c, p1) => seq![lerp6(p0, c, 4), lerp6(p1, c, 4), fine(p1)],
            Segment::Cube(c1, c2, p1) => seq![fine(c1), fine(c2), fine(p1)],
        }
    }

    /// The control and end points of this segment as a quadratic, starting at `p0`.
    pub open spec fn quad_points(self, p0: P) -> Seq<Vertex> {
        match self {
            Segment::Line(p1) => seq![lerp6(p0, p1, 3), fine(p1)],
            Segment::Quad(c, p1) => seq![fine(c), fine(p1)],
            Segment::Cube(_, _, p1) => seq![fine(p1), fine(p1)],
        }
    }

    /// The end point of this segment as a polyline vertex.
    pub open spec fn line_points(self) -> Seq<Vertex> {
        seq![fine(self.end())]
    }

    /// The points this segment adds to a primitive of order `o`.
    pub open spec fn points_as(self, o: Order, p0: P) -> Seq<Vertex> {
        match o {
            Order::Line => self.line_points(),
            Order::Quad => self.quad_points(p0),
            Order::Cube => self.cube_points(p0),
        }
    }

    /// Whether this segment can be stored in a primitive of order `o`.
    pub open spec fn fits(self, o: Order) -> bool {
        rank(self.order()) <= rank(o)
    }
}

/// The Bernstein weights of a cubic at parameter `n / d`, times `d³`.
pub open spec fn w3(n: int, d: int) -> (int, int, int, int) {
    ((d - n) * (d - n) * (d - n), 3 * ((d - n) * (d - n) * n), 3 * ((d - n) * n * n), n * n * n)
}

/// `d³ · B(n / d)` for the cubic Bezier with control points `a, b, c, e`
/// (one coordinate).
pub open spec fn bez3(a: int, b: int, c: int, e: int, n: int, d: int) -> int {
    let w = w3(n, d);
    w.0 * a + w.1 * b + w.2 * c + w.3 * e
}

/// `d² · Q(n / d)` for the quadratic Bezier with control points `a, c, e`
/// (one coordinate).
pub open spec fn bez2(a: int, c: int, e: int, n: int, d: int) -> int {
    (d - n) * (d - n) * a + 2 * (d - n) * n * c + n * n * e
}

/// `d³` times the point at parameter `n / d` of the cubic whose four
/// control points are `q`, on the fine grid.
pub open spec fn cubic_at(q: Seq<Vertex>, n: int, d: int) -> (int, int) {
    (
        bez3(q[0].x as int, q[1].x as int, q[2].x as int, q[3].x as int, n, d),
        bez3(q[0].y as int, q[1].y as int, q[2].y as int, q[3].y as int, n, d),
    )
}

/// `d²` times the point at parameter `n / d` of the quadratic `p0, c, p1`,
/// on the document grid.
pub open spec fn quad_at(p0: P, c: P, p1: P, n: int, d: int) -> (int, int) {
    (bez2(p0.x as int, c.x as int, p1.x as int, n, d), bez2(p0.y as int, c.y as int, p1.y as int, n, d))
}

/// `d` times the point `p0 + (n / d) * (p1 - p0)`, on the document grid.
pub open spec fn line_at(p0: P, p1: P, n: int, d: int) -> (int, int) {
    (d * p0.x + n * (p1.x - p0.x), d * p0.y + n * (p1.y - p0.y))
}

proof fn lemma_line_cubic_coord(x0: int, x1: int, n: int, d: int)
    ensures
        bez3(6 * x0, 6 * x0 + 2 * (x1 - x0), 6 * x0 + 4 * (x1 - x0), 6 * x1, n, d) == 6 * d * d * (d
            * x0 + n * (x1 - x0)),
{
    let (w0, w1, w2, w3) = w3(n, d);
    let m = d - n;
    assert(w1 * (6 * x0 + 2 * (x1 - x0)) == 4 * w1 * x0 + 2 * w1 * x1) by (nonlinear_arith);
    assert(w2 * (6 * x0 + 4 * (x1 - x0)) == 2 * w2 * x0 + 4 * w2 * x1) by (nonlinear_arith);
    assert(w0 * (6 * x0) + 4 * w1 * x0 + 2 * w2 * x0 == (6 * w0 + 4 * w1 + 2 * w2) * x0)
        by (nonlinear_arith);
    assert(2 * w1 * x1 + 4 * w2 * x1 + w3 * (6 * x1) == (2 * w1 + 4 * w2 + 6 * w3) * x1)
        by (nonlinear_arith);
    assert(6 * w0 + 4 * w1 + 2 * w2 == 6 * (d * d) * m) by (nonlinear_arith)
        requires
            m == d - n,
            w0 == m * m * m,
            w1 == 3 * (m * m * n),
            w2 == 3 * (m * n * n),
    ;
    assert(2 * w1 + 4 * w2 + 6 * w3 == 6 * (d * d) * n) by (nonlinear_arith)
        requires
            m == d - n,
            w1 == 3 * (m * m * n),
            w2 == 3 * (m * n * n),
            w3 == n * n * n,
    ;
    assert((6 * (d * d) * m) * x0 + (6 * (d * d) * n) * x1 == 6 * d * d * (d * x0 + n * (x1 - x0)))
        by (nonlinear_arith)
        requires
            m == d - n,
    ;
}

proof fn lemma_quad_cubic_coord(x0: int, c: int, x1: int, n: int, d: int)
    ensures
        bez3(6 * x0, 6 * x0 + 4 * (c - x0), 6 * x1 + 4 * (c - x1), 6 * x1, n, d) == 6 * d * bez2(
            x0,
            c,
            x1,
            n,
            d,
        ),
{
    let (w0, w1, w2, w3) = w3(n, d);
    let m = d - n;
    assert(w1 * (6 * x0 + 4 * (c - x0)) == 2 * w1 * x0 + 4 * w1 * c) by (nonlinear_arith);
    assert(w2 * (6 * x1 + 4 * (c - x1)) == 2 * w2 * x1 + 4 * w2 * c) by (nonlinear_arith);
    assert(6 * w0 + 2 * w1 == 6 * d * (m * m)) by (nonlinear_arith)
        requires
            m == d - n,
            w0 == m * m * m,
            w1 == 3 * (m * m * n),
    ;
    assert(4 * w1 + 4 * w2 == 6 * d * (2 * m * n)) by (nonlinear_arith)
        requires
            m == d - n,
            w1 == 3 * (m * m * n),
            w2 == 3 * (m * n * n),
    ;
    assert(2 * w2 + 6 * w3 == 6 * d * (n * n)) by (nonlinear_arith)
        requires
            m == d - n,
            w2 == 3 * (m * n * n),
            w3 == n * n * n,
    ;
    assert(w0 * (6 * x0) + 2 * w1 * x0 == (6 * w0 + 2 * w1) * x0) by (nonlinear_arith);
    assert(4 * w1 * c + 4 * w2 * c == (4 * w1 + 4 * w2) * c) by (nonlinear_arith);
    assert(2 * w2 * x1 + w3 * (6 * x1) == (2 * w2 + 6 * w3) * x1) by (nonlinear_arith);
    let b2 = bez2(x0, c, x1, n, d);
    assert(b2 == m * m * x0 + 2 * m * n * c + n * n * x1);
    let k = 6 * d;
    lemma_mul_is_associative(k, m * m, x0);
    lemma_mul_is_associative(k, 2 * m * n, c);
    lemma_mul_is_associative(k, n * n, x1);
    lemma_mul_is_distributive_add(k, m * m * x0, 2 * m * n * c);
    lemma_mul_is_distributive_add(k, m * m * x0 + 2 * m * n * c, n * n * x1);
}

/// Promoting a line from `p0` to `p1` to a cubic keeps its shape: at every
/// parameter `t = n / d` in `[0, 1]` the cubic is at `p0 + t * (p1 - p0)`.
pub proof fn lemma_line_to_cube_exact(p0: P, p1: P, n: int, d: int)
    requires
        0 < d,
        0 <= n <= d,
    ensures
        ({
            let q = seq![fine(p0)] + Segment::Line(p1).cube_points(p0);
            let l = line_at(p0, p1, n, d);
            cubic_at(q, n, d) == (6 * d * d * l.0, 6 * d * d * l.1)
        }),
{
    lemma_line_cubic_coord(p0.x as int, p1.x as int, n, d);
    lemma_line_cubic_coord(p0.y as int, p1.y as int, n, d);
}

/// Degree elevation of the quadratic `p0, c, p1` to a cubic keeps its shape:
/// at every parameter `t = n / d` in `[0, 1]` both curves are at the same point.
pub proof fn lemma_quad_to_cube_exact(p0: P, c: P, p1: P, n: int, d: int)
    requires
        0 < d,
        0 <= n <= d,
    ensures
        ({
            let q = seq![fine(p0)] + Segment::Quad(c, p1).cube_points(p0);
            let b = quad_at(p0, c, p1, n, d);
            cubic_at(q, n, d) == (6 * d * b.0, 6 * d * b.1)
        }),
{
    lemma_quad_cubic_coord(p0.x as int, c.x as int, p1.x as int, n, d);
    lemma_quad_cubic_coord(p0.y as int, c.y as int, p1.y as int, n, d);
}

/// `a + (k / 6) * (b - a)` on the fine grid.
fn lerp(a: P, b: P, k: i64) -> (r: Vertex)
    requires
        0 <= k <= 6,
    ensures
        r == lerp6(a, b, k as int),
{
    let ax = a.x as i64;
    let ay = a.y as i64;
    let dx = b.x as i64 - ax;
    let dy = b.y as i64 - ay;
    assert(-6 * 0x1_0000_0000 <= k * dx <= 6 * 0x1_0000_0000) by (nonlinear_arith)
        requires
            0 <= k <= 6,
            -0x1_0000_0000 <= dx <= 0x1_0000_0000,
    ;
    assert(-6 * 0x1_0000_0000 <= k * dy <= 6 * 0x1_0000_0000) by (nonlinear_arith)
        requires
            0 <= k <= 6,
            -0x1_0000_0000 <= dy <= 0x1_0000_0000,
    ;
    Vertex { x: 6 * ax + k * dx, y: 6 * ay + k * dy }
}

impl P {
    /// This point on the fine grid.
    pub fn to_fine(self) -> (r: Vertex)
        ensures
            r == fine(self),
    {
        lerp(self, self, 0)
    }
}

impl Segment {
    /// Where this segment ends.
    pub fn end_point(&self) -> (r: P)
        ensures
            r == self.end(),
    {
        match *self {
            Segment::Line(p) => p,
            Segment::Quad(_, p) => p,
            Segment::Cube(_, _, p) => p,
        }
    }

    /// This segment as a cubic that starts at `p0`: control points at a third
    /// and two thirds of a line, degree elevation of a quadratic, a cubic as is.
    pub fn to_cube(self, p0: P) -> (r: [Vertex; 3])
        ensures
            r@ == self.cube_points(p0),
    {
        let r = match self {
            Segment::Line(p1) => [lerp(p0, p1, 2), lerp(p0, p1, 4), p1.to_fine()],
            Segment::Quad(c, p1) => [lerp(p0, c, 4), lerp(p1, c, 4), p1.to_fine()],
            Segment::Cube(c1, c2, p1) => [c1.to_fine(), c2.to_fine(), p1.to_fine()],
        };
        assert(r@ =~= self.cube_points(p0));
        r
    }

    /// This segment as a quadratic that starts at `p0`: a line gets its
    /// midpoint as control point, a quadratic stays as is.
    pub fn to_quad(self, p0: P) -> (r: [Vertex; 2])
        requires
            self.fits(Order::Quad),
        ensures
            r@ == self.quad_points(p0),
    {
        let r = match self {
            Segment::Line(p1) => [lerp(p0, p1, 3), p1.to_fine()],
            Segment::Quad(c, p1) => [c.to_fine(), p1.to_fine()],
            Segment::Cube(_, _, p1) => [p1.to_fine(), p1.to_fine()],
        };
        assert(r@ =~= self.quad_points(p0));
        r
    }
}

} // verus!
