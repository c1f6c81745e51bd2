use crate::geom::{arity, fine, max_order, rank, Order, Segment, Vertex, P};
use vstd::prelude::*;

verus! {

/// The order a primitive needs for all of `segs`: the highest order among
/// them, `Line` for none.
pub open spec fn order_of(segs: Seq<Segment>) -> Order
    decreases segs.len(),
{
    if segs.len() == 0 {
        Order::Line
    } else {
        max_order(order_of(segs.drop_last()), segs.last().order())
    }
}

/// Where the segment after `segs` starts.
pub open spec fn tail(start: P, segs: Seq<Segment>) -> P {
    if segs.len() == 0 {
        start
    } else {
        segs.last().end()
    }
}

/// The start point followed by the points of each segment promoted to `o`.
pub open spec fn open_points(start: P, o: Order, segs: Seq<Segment>) -> Seq<Vertex>
    decreases segs.len(),
{
    if segs.len() == 0 {
        seq![fine(start)]
    } else {
        open_points(start, o, segs.drop_last()) + segs.last().points_as(
            o,
            tail(start, segs.drop_last()),
        )
    }
}

/// The points a primitive stores: a closed one drops the last point, which
/// repeats its start.
pub open spec fn built_points(start: P, o: Order, closed: bool, segs: Seq<Segment>) -> Seq<
    Vertex,
> {
    if closed {
        open_points(start, o, segs).drop_last()
    } else {
        open_points(start, o, segs)
    }
}

/// A finished primitive, as plain values.
pub struct PrimV {
    pub id: Seq<char>,
    pub order: Order,
    pub is_closed: bool,
    pub points: Seq<Vertex>,
}

/// The primitive built from the segments `segs` that start at `start`.
pub open spec fn prim_of(id: Seq<char>, start: P, segs: Seq<Segment>, closed: bool) -> PrimV {
    PrimV {
        id,
        order: order_of(segs),
        is_closed: closed,
        points: built_points(start, order_of(segs), closed, segs),
    }
}

/// The order of a run of segments is the highest order among them: no
/// segment is above it, it is `Line` or the order of one of them, and a
/// single cubic makes it `Cube`.
pub proof fn lemma_order_is_max(segs: Seq<Segment>)
    ensures
        forall|i: int| 0 <= i < segs.len() ==> #[trigger] segs[i].fits(order_of(segs)),
        order_of(segs) == Order::Line || exists|i: int|
            0 <= i < segs.len() && #[trigger] segs[i].order() == order_of(segs),
        (exists|i: int| 0 <= i < segs.len() && #[trigger] segs[i].order() == Order::Cube)
            ==> order_of(segs) == Order::Cube,
    decreases segs.len(),
{
    if segs.len() > 0 {
        let init = segs.drop_last();
        lemma_order_is_max(init);
        assert forall|i: int| 0 <= i < segs.len() implies #[trigger] segs[i].fits(
            order_of(segs),
        ) by {
            if i < init.len() {
                assert(init[i] == segs[i]);
            }
        }
        if order_of(segs) != Order::Line && order_of(segs) != segs.last().order() {
            let j = choose|j: int| 0 <= j < init.len() && #[trigger] init[j].order() == order_of(init);
            assert(segs[j] == init[j]);
        }
        if exists|i: int| 0 <= i < segs.len() && #[trigger] segs[i].order() == Order::Cube {
            let i = choose|i: int| 0 <= i < segs.len() && #[trigger] segs[i].order() == Order::Cube;
            assert(segs[i].fits(order_of(segs)));
        }
    }
}

/// An open primitive of order `o` holds one point plus `arity(o)` per segment.
pub proof fn lemma_open_points_len(start: P, o: Order, segs: Seq<Segment>)
    ensures
        open_points(start, o, segs).len() == 1 + segs.len() * arity(o),
    decreases segs.len(),
{
    if segs.len() > 0 {
        lemma_open_points_len(start, o, segs.drop_last());
        assert((segs.len() - 1) * arity(o) + arity(o) == segs.len() * arity(o)) by (nonlinear_arith);
    }
}

/// A primitive built from `segs` holds one point plus `arity` per segment
/// for its order, one fewer when closed.
pub proof fn lemma_point_count(id: Seq<char>, start: P, segs: Seq<Segment>, closed: bool)
    ensures
        prim_of(id, start, segs, closed).points.len() == 1 + segs.len() * arity(order_of(segs)) - (
        if closed {
            1int
        } else {
            0int
        }),
{
    lemma_open_points_len(start, order_of(segs), segs);
}

/// An open sub-path being collected: its start point, the segments read since
/// and the order that covers them.
pub struct PrimBuilder {
    pub order: Order,
    pub is_closed: bool,
    pub start: P,
    pub segments: Vec<Segment>,
}

/// A finished primitive: its identifier, order, closedness and points.
pub struct Prim {
    pub id: String,
    pub order: Order,
    pub is_closed: bool,
    pub points: Vec<Vertex>,
}

impl View for Prim {
    type V = PrimV;

    open spec fn view(&self) -> PrimV {
        PrimV { id: self.id@, order: self.order, is_closed: self.is_closed, points: self.points@ }
    }
}

impl PrimBuilder {
    /// The order covers exactly the segments collected.
    pub open spec fn wf(&self) -> bool {
        self.order == order_of(self.segments@)
    }

    pub fn new(start: P) -> (r: PrimBuilder)
        ensures
            r.wf(),
            r.start == start,
            r.order == Order::Line,
            !r.is_closed,
            r.segments@ == Seq::<Segment>::empty(),
    {
        PrimBuilder { order: Order::Line, is_closed: false, start, segments: Vec::new() }
    }

    /// Appends a segment, raising the order to the segment's if it is higher.
    pub fn push(&mut self, segment: Segment)
        requires
            old(self).wf(),
        ensures
            final(self).wf(),
            final(self).segments@ == old(self).segments@.push(segment),
            final(self).order == max_order(old(self).order, segment.order()),
            final(self).start == old(self).start,
            final(self).is_closed == old(self).is_closed,
    {
        let o = match segment {
            Segment::Line(_) => Order::Line,
            Segment::Quad(_, _) => Order::Quad,
            Segment::Cube(_, _, _) => Order::Cube,
        };
        let higher = match (self.order, o) {
            (Order::Line, _) => o,
            (Order::Quad, Order::Cube) => o,
            _ => self.order,
        };
        self.order = higher;
        self.segments.push(segment);
        assert(self.segments@.drop_last() =~= old(self).segments@);
    }

    /// Promotes every segment to the builder's order and lays the points out
    /// after the start point; a closed primitive drops its last point.
    pub fn build(self, id: String) -> (r: Prim)
        requires
            self.wf(),
        ensures
            r@ == prim_of(id@, self.start, self.segments@, self.is_closed),
            r.points@.len() == 1 + self.segments@.len() * arity(self.order) - (if self.is_closed {
                1int
            } else {
                0int
            }),
    {
        let ghost segs = self.segments@;
        let mut points: Vec<Vertex> = Vec::new();
        points.push(self.start.to_fine());
        let mut prev = self.start;
        let mut i: usize = 0;
        while i < self.segments.len()
            invariant
                i <= segs.len(),
                segs == self.segments@,
                self.wf(),
                prev == tail(self.start, segs.take(i as int)),
                points@ == open_points(self.start, self.order, segs.take(i as int)),
            decreases segs.len() - i,
        {
            let seg = self.segments[i];
            match self.order {
                Order::Line => {
                    points.push(seg.end_point().to_fine());
                },
                Order::Quad => {
                    proof {
                        lemma_order_is_max(segs);
                        assert(segs[i as int].fits(self.order));
                    }
                    let q = seg.to_quad(prev);
                    points.push(q[0]);
                    points.push(q[1]);
                },
                Order::Cube => {
                    let c = seg.to_cube(prev);
                    points.push(c[0]);
                    points.push(c[1]);
                    points.push(c[2]);
                },
            }
            prev = seg.end_point();
            proof {
                assert(segs.take(i + 1).drop_last() =~= segs.take(i as int));
            }
            i += 1;
            assert(points@ =~= open_points(self.start, self.order, segs.take(i as int)));
        }
        proof {
            assert(segs.take(i as int) =~= segs);
            lemma_open_points_len(self.start, self.order, segs);
        }
        if self.is_closed {
            points.pop();
        }
        Prim { id, order: self.order, is_closed: self.is_closed, points }
    }
}

} // verus!
