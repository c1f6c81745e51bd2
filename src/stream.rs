use crate::builder::{prim_of, tail, Prim, PrimBuilder, PrimV};
use crate::geom::{Segment, P};
use vstd::prelude::*;

verus! {

/// One drawing command of a path's segment stream.
#[derive(Debug, Clone, Copy, PartialEq, Eq, Structural)]
pub enum PathCmd {
    MoveTo(P),
    LineTo(P),
    QuadTo(P, P),
    CubicTo(P, P, P),
    Close,
}

/// A sub-path to convert: the identifier its primitives carry and its
/// segment stream.
pub struct SvgPath {
    pub id: String,
    pub segments: Vec<PathCmd>,
}

/// The scan state: primitives emitted so far and the open sub-path, if any,
/// as its start point and segments.
pub type ScanState = (Seq<PrimV>, Option<(P, Seq<Segment>)>);

/// The segments of a closed sub-path: its own, plus a line back to the start
/// where the last one ends elsewhere.
pub open spec fn closing(start: P, segs: Seq<Segment>) -> Seq<Segment> {
    if tail(start, segs) == start {
        segs
    } else {
        segs.push(Segment::Line(start))
    }
}

/// Ends the open sub-path: it becomes a primitive unless it has no segment.
/// A closed one first gets its closing edge.
pub open spec fn flush(id: Seq<char>, st: ScanState, closed: bool) -> Seq<PrimV> {
    match st.1 {
        Some((start, segs)) => if segs.len() > 0 {
            st.0.push(
                if closed {
                    prim_of(id, start, closing(start, segs), true)
                } else {
                    prim_of(id, start, segs, false)
                },
            )
        } else {
            st.0
        },
        None => st.0,
    }
}

/// Adds a segment to the open sub-path; without one the segment is ignored.
pub open spec fn extend(st: ScanState, s: Segment) -> ScanState {
    match st.1 {
        Some((start, segs)) => (st.0, Some((start, segs.push(s)))),
        None => st,
    }
}

pub open spec fn step(id: Seq<char>, st: ScanState, cmd: PathCmd) -> ScanState {
    match cmd {
        PathCmd::MoveTo(p) => (flush(id, st, false), Some((p, Seq::empty()))),
        PathCmd::LineTo(p) => extend(st, Segment::Line(p)),
        PathCmd::QuadTo(c, p) => extend(st, Segment::Quad(c, p)),
        PathCmd::CubicTo(c1, c2, p) => extend(st, Segment::Cube(c1, c2, p)),
        PathCmd::Close => (flush(id, st, true), None),
    }
}

/// The scan state after reading `cmds`.
pub open spec fn scan(id: Seq<char>, cmds: Seq<PathCmd>) -> ScanState
    decreases cmds.len(),
{
    if cmds.len() == 0 {
        (Seq::empty(), None)
    } else {
        step(id, scan(id, cmds.drop_last()), cmds.last())
    }
}

/// The primitives of one segment stream: the scan's, plus the sub-path still
/// open at the end of the stream, as an open primitive.
pub open spec fn prims_of(id: Seq<char>, cmds: Seq<PathCmd>) -> Seq<PrimV> {
    flush(id, scan(id, cmds), false)
}

pub open spec fn views(prims: Seq<Prim>) -> Seq<PrimV> {
    prims.map_values(|p: Prim| p@)
}

/// The primitives of every path, in path order.
pub open spec fn all_prims(paths: Seq<SvgPath>) -> Seq<PrimV>
    decreases paths.len(),
{
    if paths.len() == 0 {
        Seq::empty()
    } else {
        all_prims(paths.drop_last()) + prims_of(paths.last().id@, paths.last().segments@)
    }
}

/// Whether the builder holds exactly the open sub-path of a scan state.
pub open spec fn holds(b: Option<PrimBuilder>, open: Option<(P, Seq<Segment>)>) -> bool {
    match b {
        Some(b) => b.wf() && !b.is_closed && open == Some((b.start, b.segments@)),
        None => open is None,
    }
}

/// Emits the builder's sub-path as a primitive, unless it has no segment.
fn emit(b: PrimBuilder, closed: bool, id: &String, out: &mut Vec<Prim>)
    requires
        b.wf(),
    ensures
        views(final(out)@) == flush(id@, (views(old(out)@), Some((b.start, b.segments@))), closed),
{
    let ghost before = views(out@);
    let ghost old_segs = b.segments@;
    if b.segments.len() > 0 {
        let mut b = b;
        if closed {
            let last = b.segments[b.segments.len() - 1].end_point();
            if last != b.start {
                let start = b.start;
                b.push(Segment::Line(start));
            }
            assert(b.segments@ == closing(b.start, old_segs));
        }
        b.is_closed = closed;
        let p = b.build(id.clone());
        out.push(p);
        assert(views(out@) =~= before.push(p@));
    }
}

/// Splits one segment stream into sub-paths and appends their primitives to
/// `out`. A `MoveTo` opens a sub-path (ending an open one), `Close` ends it
/// as closed, with a line back to its start where it ends elsewhere, and the
/// end of the stream ends it as open; a sub-path without segments yields
/// nothing, and segments outside a sub-path are ignored.
pub fn path_prims(id: &String, cmds: &Vec<PathCmd>, out: &mut Vec<Prim>)
    ensures
        views(final(out)@) == views(old(out)@) + prims_of(id@, cmds@),
{
    let ghost base = views(out@);
    let mut prim: Option<PrimBuilder> = None;
    let mut i: usize = 0;
    while i < cmds.len()
        invariant
            i <= cmds@.len(),
            holds(prim, scan(id@, cmds@.take(i as int)).1),
            views(out@) == base + scan(id@, cmds@.take(i as int)).0,
        decreases cmds@.len() - i,
    {
        let ghost st = scan(id@, cmds@.take(i as int));
        let cmd = cmds[i];
        assert(cmds@.take(i + 1).drop_last() =~= cmds@.take(i as int));
        match cmd {
            PathCmd::MoveTo(p) => {
                match prim {
                    Some(b) => emit(b, false, id, out),
                    None => {},
                }
                assert(views(out@) =~= base + flush(id@, st, false));
                prim = Some(PrimBuilder::new(p));
            },
            PathCmd::Close => {
                match prim {
                    Some(b) => emit(b, true, id, out),
                    None => {},
                }
                assert(views(out@) =~= base + flush(id@, st, true));
                prim = None;
            },
            PathCmd::LineTo(p) => {
                prim = grow(prim, Segment::Line(p));
            },
            PathCmd::QuadTo(c, p) => {
                prim = grow(prim, Segment::Quad(c, p));
            },
            PathCmd::CubicTo(c1, c2, p) => {
                prim = grow(prim, Segment::Cube(c1, c2, p));
            },
        }
        i += 1;
    }
    assert(cmds@.take(i as int) =~= cmds@);
    match prim {
        Some(b) => emit(b, false, id, out),
        None => {},
    }
    assert(views(out@) =~= base + prims_of(id@, cmds@));
}

/// Adds a segment to the open builder, if there is one.
fn grow(prim: Option<PrimBuilder>, s: Segment) -> (r: Option<PrimBuilder>)
    requires
        prim matches Some(b) ==> b.wf(),
    ensures
        match prim {
            Some(b) => r matches Some(n) && n.wf() && n.start == b.start && n.is_closed
                == b.is_closed && n.segments@ == b.segments@.push(s),
            None => r is None,
        },
{
    match prim {
        Some(b) => {
            let mut b = b;
            b.push(s);
            Some(b)
        },
        None => None,
    }
}

/// Converts every path, in order, and returns all their primitives.
pub fn build_prims(paths: &Vec<SvgPath>) -> (r: Vec<Prim>)
    ensures
        views(r@) == all_prims(paths@),
{
    let mut out: Vec<Prim> = Vec::new();
    let mut k: usize = 0;
    while k < paths.len()
        invariant
            k <= paths@.len(),
            views(out@) == all_prims(paths@.take(k as int)),
        decreases paths@.len() - k,
    {
        assert(paths@.take(k + 1).drop_last() =~= paths@.take(k as int));
        path_prims(&paths[k].id, &paths[k].segments, &mut out);
        k += 1;
    }
    assert(paths@.take(k as int) =~= paths@);
    out
}

} // verus!
