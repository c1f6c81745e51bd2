use crate::builder::{Prim, PrimV};
use crate::geom::{Order, Vertex};
use crate::json::{Value, ValueObj, ValueVec};
use crate::stream::views;
use vstd::prelude::*;

verus! {

/// Document grid steps per unit of the source document.
pub const STEPS_PER_UNIT: i64 = 1024;

/// Fine grid steps per unit of the source document.
pub const FINE_STEPS_PER_UNIT: i64 = 6 * STEPS_PER_UNIT;

/// The shared point pool: every primitive's points, in primitive order.
pub open spec fn pool(ps: Seq<PrimV>) -> Seq<Vertex>
    decreases ps.len(),
{
    if ps.len() == 0 {
        Seq::empty()
    } else {
        pool(ps.drop_last()) + ps.last().points
    }
}

/// The sum of the primitives' point counts.
pub open spec fn total(ps: Seq<PrimV>) -> nat
    decreases ps.len(),
{
    if ps.len() == 0 {
        0
    } else {
        total(ps.drop_last()) + ps.last().points.len()
    }
}

/// Where the points of primitive `i` start in the pool.
pub open spec fn offset(ps: Seq<PrimV>, i: int) -> nat {
    pool(ps.take(i)).len()
}

proof fn lemma_pool_prefix(ps: Seq<PrimV>, k: int)
    requires
        0 <= k <= ps.len(),
    ensures
        offset(ps, k) <= pool(ps).len(),
        pool(ps).subrange(0, offset(ps, k) as int) == pool(ps.take(k)),
    decreases ps.len(),
{
    if k == ps.len() {
        assert(ps.take(k) =~= ps);
        assert(pool(ps).subrange(0, offset(ps, k) as int) =~= pool(ps));
    } else {
        let init = ps.drop_last();
        assert(init.take(k) =~= ps.take(k));
        lemma_pool_prefix(init, k);
        assert(pool(ps).subrange(0, offset(ps, k) as int) =~= pool(init).subrange(
            0,
            offset(init, k) as int,
        ));
    }
}

proof fn lemma_pool_range(ps: Seq<PrimV>, i: int)
    requires
        0 <= i < ps.len(),
    ensures
        offset(ps, i + 1) == offset(ps, i) + ps[i].points.len(),
        pool(ps).subrange(offset(ps, i) as int, offset(ps, i + 1) as int) == ps[i].points,
{
    let pre = ps.take(i + 1);
    assert(pre.drop_last() =~= ps.take(i));
    assert(pre.last() == ps[i]);
    lemma_pool_prefix(ps, i + 1);
    assert(pool(ps).subrange(offset(ps, i) as int, offset(ps, i + 1) as int) =~= pool(pre).subrange(
        offset(ps, i) as int,
        offset(ps, i + 1) as int,
    ));
    assert(pool(pre).subrange(offset(ps, i) as int, offset(ps, i + 1) as int) =~= ps[i].points);
}

proof fn lemma_pool_total(ps: Seq<PrimV>)
    ensures
        pool(ps).len() == total(ps),
    decreases ps.len(),
{
    if ps.len() > 0 {
        lemma_pool_total(ps.drop_last());
    }
}

proof fn lemma_offset_bound(ps: Seq<PrimV>, k: int)
    requires
        0 <= k <= ps.len(),
    ensures
        offset(ps, k) <= total(ps),
{
    lemma_pool_prefix(ps, k);
    lemma_pool_total(ps);
}

/// The pool holds exactly the primitives' points: its length is the sum of
/// their counts, and primitive `i` owns the range that starts where the one
/// before it ends.
pub proof fn lemma_pool_ranges(ps: Seq<PrimV>)
    ensures
        pool(ps).len() == total(ps),
        offset(ps, 0) == 0,
        offset(ps, ps.len() as int) == pool(ps).len(),
        forall|i: int|
            #![trigger ps[i]]
            0 <= i < ps.len() ==> {
                &&& offset(ps, i + 1) == offset(ps, i) + ps[i].points.len()
                &&& pool(ps).subrange(offset(ps, i) as int, offset(ps, i + 1) as int) == ps[i].points
            },
{
    lemma_pool_total(ps);
    assert(ps.take(0) =~= Seq::<PrimV>::empty());
    assert(ps.take(ps.len() as int) =~= ps);
    assert forall|i: int|
        #![trigger ps[i]]
        0 <= i < ps.len() implies {
            &&& offset(ps, i + 1) == offset(ps, i) + ps[i].points.len()
            &&& pool(ps).subrange(offset(ps, i) as int, offset(ps, i + 1) as int) == ps[i].points
        } by {
        lemma_pool_range(ps, i);
    }
}

/// Concatenates the primitives' points into the shared pool.
pub fn point_pool(prims: &Vec<Prim>) -> (r: Vec<Vertex>)
    ensures
        r@ == pool(views(prims@)),
{
    let mut r: Vec<Vertex> = Vec::new();
    let mut i: usize = 0;
    while i < prims.len()
        invariant
            i <= prims@.len(),
            r@ == pool(views(prims@.take(i as int))),
        decreases prims@.len() - i,
    {
        let pts = &prims[i].points;
        let mut j: usize = 0;
        let ghost before = r@;
        while j < pts.len()
            invariant
                j <= pts@.len(),
                pts@ == prims@[i as int].points@,
                r@ == before + pts@.take(j as int),
            decreases pts@.len() - j,
        {
            r.push(pts[j]);
            j += 1;
            assert(r@ =~= before + pts@.take(j as int));
        }
        assert(views(prims@.take(i + 1)).drop_last() =~= views(prims@.take(i as int)));
        assert(pts@.take(j as int) =~= pts@);
        i += 1;
    }
    assert(prims@.take(i as int) =~= prims@);
    r
}

/// The order the output basis record gives a Bezier primitive: its number
/// of control points per span.
pub open spec fn basis_order(o: Order) -> int {
    match o {
        Order::Line => 2,
        Order::Quad => 3,
        Order::Cube => 4,
    }
}

/// The length of a Bezier primitive's uniform knot sequence.
pub open spec fn knot_count(p: PrimV) -> int {
    p.points.len() as int / (basis_order(p.order) - 1) + 1
}

/// Whether `v` is the output record of primitive `p`, whose points start at
/// `start` in the pool: a polyline run from `start` with its vertex count, or
/// a Bezier curve over the vertex range with its closedness, basis order and
/// knots `0, 1, ...`.
pub open spec fn describes(v: Value, p: PrimV, start: int) -> bool {
    &&& v matches Value::Array(e)
    &&& e.0@.len() == 2
    &&& e.0@[1] matches Value::Array(body)
    &&& body.0@.len() == 6
    &&& if p.order == Order::Line {
        &&& body.0@[1] == Value::Integer(start as i64)
        &&& body.0@[3] == Value::Integer(1)
        &&& body.0@[5] matches Value::Array(n)
        &&& n.0@ == seq![Value::Integer(p.points.len() as i64)]
    } else {
        &&& body.0@[1] matches Value::Array(vs)
        &&& vs.0@ == ints_from(start, p.points.len())
        &&& body.0@[3] == Value::Boolean(p.is_closed)
        &&& body.0@[5] matches Value::Array(b)
        &&& b.0@.len() == 6
        &&& b.0@[3] == Value::Integer(basis_order(p.order) as i64)
        &&& b.0@[5] matches Value::Array(k)
        &&& k.0@ == ints_from(0, knot_count(p) as nat)
    }
}

/// The integer values `from, from + 1, ...`, `n` of them.
pub open spec fn ints_from(from: int, n: nat) -> Seq<Value> {
    Seq::new(n, |j: int| Value::Integer((from + j) as i64))
}

/// The integers `from, from + 1, ...`, `n` of them.
fn count_up(from: usize, n: usize) -> (r: Vec<Value>)
    requires
        from + n <= i64::MAX,
    ensures
        r@ == ints_from(from as int, n as nat),
{
    let mut r: Vec<Value> = Vec::new();
    let mut j: usize = 0;
    while j < n
        invariant
            j <= n,
            from + n <= i64::MAX,
            r@ == ints_from(from as int, j as nat),
        decreases n - j,
    {
        r.push(Value::Integer(from as i64 + j as i64));
        j += 1;
        assert(r@ =~= ints_from(from as int, j as nat));
    }
    r
}

/// The output record of one primitive whose points start at `start`.
fn prim_entry(prim: &Prim, start: usize) -> (r: Value)
    requires
        start + prim.points@.len() <= i64::MAX,
    ensures
        describes(r, prim@, start as int),
{
    let n = prim.points.len();
    let body = match prim.order {
        Order::Line => vec![
            Value::Str("startvertex"),
            Value::Integer(start as i64),
            Value::Str("nprimitives"),
            Value::Integer(1),
            Value::Str("nvertices"),
            Value::Array(ValueVec(vec![Value::Integer(n as i64)])),
        ],
        _ => {
            let order: usize = match prim.order {
                Order::Quad => 3,
                _ => 4,
            };
            assert(n as int == 0 || (n as int) / ((order as int) - 1) < n as int) by (nonlinear_arith)
                requires
                    order as int == 3 || order as int == 4,
                    n as int >= 0,
            ;
            let spans = n / (order - 1);
            assert(order as int == basis_order(prim.order));
            assert(spans + 1 == knot_count(prim@));
            let basis = vec![
                Value::Str("type"),
                Value::Str("Bezier"),
                Value::Str("order"),
                Value::Integer(order as i64),
                Value::Str("knots"),
                Value::Array(ValueVec(count_up(0, spans + 1))),
            ];
            vec![
                Value::Str("vertex"),
                Value::Array(ValueVec(count_up(start, n))),
                Value::Str("closed"),
                Value::Boolean(prim.is_closed),
                Value::Str("basis"),
                Value::Array(ValueVec(basis)),
            ]
        },
    };
    let tag = match prim.order {
        Order::Line => "PolygonCurve_run",
        _ => "BezierCurve",
    };
    let r = Value::Array(
        ValueVec(
            vec![
                Value::Array(ValueVec(vec![Value::Str("type"), Value::Str(tag)])),
                Value::Array(ValueVec(body)),
            ],
        ),
    );
    proof {
        if prim.order == Order::Line {
            assert(body@[1] == Value::Integer((start as int) as i64));
            assert(body@[3] == Value::Integer(1));
            assert(body@[5] matches Value::Array(c) && c.0@ == seq![Value::Integer(prim@.points.len() as i64)]);
        } else {
            assert(body@[1] matches Value::Array(c) && c.0@ == ints_from(start as int, prim@.points.len()));
            assert(body@[3] == Value::Boolean(prim.is_closed));
            assert(body@[5] matches Value::Array(b) && b.0@.len() == 6);
        }
    }
    assert(describes(r, prim@, start as int));
    r
}

/// Whether `v` is the output tuple of the pool point `q`: its coordinates in
/// document units, and zero depth.
pub open spec fn is_tuple(v: Value, q: Vertex) -> bool {
    &&& v matches Value::Array(t)
    &&& t.0@ == seq![
        Value::Ratio(q.x, FINE_STEPS_PER_UNIT),
        Value::Ratio(q.y, FINE_STEPS_PER_UNIT),
        Value::Ratio(0, FINE_STEPS_PER_UNIT),
    ]
}

/// Whether the point attribute `v` lists one tuple per pool point, in order.
pub open spec fn holds_tuples(v: Value, pool: Seq<Vertex>) -> bool {
    &&& v matches Value::Array(attr)
    &&& attr.0@.len() == 2
    &&& attr.0@[1] matches Value::Array(data)
    &&& data.0@.len() == 8
    &&& data.0@[7] matches Value::Array(vals)
    &&& vals.0@.len() == 6
    &&& vals.0@[5] matches Value::Array(tuples)
    &&& tuples.0@.len() == pool.len()
    &&& forall|j: int| 0 <= j < pool.len() ==> is_tuple(#[trigger] tuples.0@[j], pool[j])
}

/// Whether the primitive attribute `v` lists each primitive's identifier,
/// in order.
pub open spec fn holds_names(v: Value, ps: Seq<PrimV>) -> bool {
    &&& v matches Value::Array(attr)
    &&& attr.0@.len() == 2
    &&& attr.0@[1] matches Value::Array(data)
    &&& data.0@.len() == 8
    &&& data.0@[5] matches Value::Array(names)
    &&& names.0@.len() == ps.len()
    &&& forall|i: int|
        0 <= i < ps.len() ==> (#[trigger] names.0@[i] matches Value::String(s) && s@ == ps[i].id)
}

/// One three-component tuple per pool point.
fn point_tuples(pool: &Vec<Vertex>) -> (r: Vec<Value>)
    ensures
        r@.len() == pool@.len(),
        forall|j: int| 0 <= j < pool@.len() ==> is_tuple(#[trigger] r@[j], pool@[j]),
{
    let mut r: Vec<Value> = Vec::new();
    let mut j: usize = 0;
    while j < pool.len()
        invariant
            j <= pool@.len(),
            r@.len() == j,
            forall|k: int| 0 <= k < j ==> is_tuple(#[trigger] r@[k], pool@[k]),
        decreases pool@.len() - j,
    {
        let q = pool[j];
        r.push(
            Value::Array(
                ValueVec(
                    vec![
                        Value::Ratio(q.x, FINE_STEPS_PER_UNIT),
                        Value::Ratio(q.y, FINE_STEPS_PER_UNIT),
                        Value::Ratio(0, FINE_STEPS_PER_UNIT),
                    ],
                ),
            ),
        );
        j += 1;
    }
    r
}

/// A sequence value of the given items.
fn list(items: Vec<Value>) -> (r: Value)
    ensures
        r == Value::Array(ValueVec(items)),
{
    Value::Array(ValueVec(items))
}

/// The whole geometry document: header counts, the topology (the pool
/// indices in order), the point attribute `P` with every pool point, the
/// primitive attribute `name` with every primitive's identifier, and one
/// record per primitive over its range of the pool.
pub fn prims_to_json(prims: Vec<Prim>) -> (r: Value)
    requires
        total(views(prims@)) <= i64::MAX,
        prims@.len() <= i64::MAX,
    ensures
        ({
            let ps = views(prims@);
            &&& r matches Value::Array(top)
            &&& top.0@.len() == 18
            &&& top.0@[5] == Value::Integer(total(ps) as i64)
            &&& top.0@[7] == Value::Integer(total(ps) as i64)
            &&& top.0@[9] == Value::Integer(ps.len() as i64)
            &&& top.0@[13] matches Value::Array(topo)
            &&& topo.0@.len() == 2
            &&& topo.0@[1] matches Value::Array(pr)
            &&& pr.0@.len() == 2
            &&& pr.0@[1] matches Value::Array(ix)
            &&& ix.0@ == ints_from(0, total(ps))
            &&& top.0@[15] matches Value::Array(attrs)
            &&& attrs.0@.len() == 4
            &&& attrs.0@[1] matches Value::Array(pa)
            &&& pa.0@.len() == 1
            &&& holds_tuples(pa.0@[0], pool(ps))
            &&& attrs.0@[3] matches Value::Array(na)
            &&& na.0@.len() == 1
            &&& holds_names(na.0@[0], ps)
            &&& top.0@[17] matches Value::Array(out)
            &&& out.0@.len() == ps.len()
            &&& forall|i: int|
                0 <= i < ps.len() ==> describes(#[trigger] out.0@[i], ps[i], offset(ps, i) as int)
        }),
{
    let ghost ps = views(prims@);
    proof {
        lemma_pool_ranges(ps);
    }
    let all_points = point_pool(&prims);
    let point_count = all_points.len();
    let indices = count_up(0, point_count);
    let points = point_tuples(&all_points);

    let mut primitives: Vec<Value> = Vec::new();
    let mut prim_ids: Vec<Value> = Vec::new();
    let mut prim_i: usize = 0;
    let mut i: usize = 0;
    while i < prims.len()
        invariant
            ps == views(prims@),
            i <= prims@.len(),
            point_count == total(ps),
            total(ps) <= i64::MAX,
            prim_i == offset(ps, i as int),
            prim_i <= total(ps),
            primitives@.len() == i,
            prim_ids@.len() == i,
            forall|k: int|
                0 <= k < i ==> (#[trigger] prim_ids@[k] matches Value::String(n) && n@ == ps[k].id),
            forall|k: int| 0 <= k < i ==> describes(#[trigger] primitives@[k], ps[k], offset(ps, k) as int),
            pool(ps).len() == total(ps),
            offset(ps, ps.len() as int) == pool(ps).len(),
            forall|k: int|
                #![trigger ps[k]]
                0 <= k < ps.len() ==> offset(ps, k + 1) == offset(ps, k) + ps[k].points.len(),
        decreases prims@.len() - i,
    {
        let prim = &prims[i];
        proof {
            assert(ps[i as int] == prim@);
            lemma_offset_bound(ps, i as int + 1);
        }
        prim_ids.push(Value::String(prim.id.clone()));
        primitives.push(prim_entry(prim, prim_i));
        prim_i = prim_i + prim.points.len();
        i += 1;
    }
    let prim_id_indices = count_up(0, prims.len());

    let p_options = {
        let mut inner = ValueObj::new();
        inner.insert("type", Value::Str("string"));
        inner.insert("value", Value::Str("point"));
        let mut o = ValueObj::new();
        o.insert("type", Value::Object(inner));
        o
    };
    let p_attribute = list(vec![
        list(vec![
            Value::Str("scope"), Value::Str("public"),
            Value::Str("type"), Value::Str("numeric"),
            Value::Str("name"), Value::Str("P"),
            Value::Str("options"), Value::Object(p_options),
        ]),
        list(vec![
            Value::Str("size"), Value::Integer(3),
            Value::Str("storage"), Value::Str("fpreal32"),
            Value::Str("defaults"),
            list(vec![
                Value::Str("size"), Value::Integer(1),
                Value::Str("storage"), Value::Str("fpreal64"),
                Value::Str("values"), list(vec![Value::Integer(0)]),
            ]),
            Value::Str("values"),
            list(vec![
                Value::Str("size"), Value::Integer(3),
                Value::Str("storage"), Value::Str("fpreal32"),
                Value::Str("tuples"), list(points),
            ]),
        ]),
    ]);
    let name_attribute = list(vec![
        list(vec![
            Value::Str("scope"), Value::Str("public"),
            Value::Str("type"), Value::Str("string"),
            Value::Str("name"), Value::Str("name"),
            Value::Str("options"), Value::Object(ValueObj::new()),
        ]),
        list(vec![
            Value::Str("size"), Value::Integer(1),
            Value::Str("storage"), Value::Str("int32"),
            Value::Str("strings"), list(prim_ids),
            Value::Str("indices"),
            list(vec![
                Value::Str("size"), Value::Integer(1),
                Value::Str("storage"), Value::Str("int32"),
                Value::Str("arrays"), list(vec![list(prim_id_indices)]),
            ]),
        ]),
    ]);
    let attributes = list(vec![
        Value::Str("pointattributes"), list(vec![p_attribute]),
        Value::Str("primitiveattributes"), list(vec![name_attribute]),
    ]);
    let topology = list(vec![
        Value::Str("pointref"),
        list(vec![Value::Str("indices"), list(indices)]),
    ]);
    let mut top = ValueVec::new();
    top.push(Value::Str("fileversion"));
    top.push(Value::Str("20.5.332"));
    top.push(Value::Str("hasindex"));
    top.push(Value::Boolean(false));
    top.push(Value::Str("pointcount"));
    top.push(Value::Integer(point_count as i64));
    top.push(Value::Str("vertexcount"));
    top.push(Value::Integer(point_count as i64));
    top.push(Value::Str("primitivecount"));
    top.push(Value::Integer(prims.len() as i64));
    top.push(Value::Str("info"));
    top.push(Value::Object(ValueObj::new()));
    top.push(Value::Str("topology"));
    top.push(topology);
    top.push(Value::Str("attributes"));
    top.push(attributes);
    top.push(Value::Str("primitives"));
    top.push(list(primitives));
    let r = Value::Array(top);
    r
}

} // verus!
