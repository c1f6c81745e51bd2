use svg2geo::{
    build_prims, flatten, path_prims, point_pool, prims_to_json, Doc, DocGroup, DocPath, Order,
    PathCmd, Prim, PrimBuilder, Segment, SvgPath, Value, Vertex, P,
};

fn p(x: i32, y: i32) -> P {
    P { x, y }
}

/// A document-grid point, expected on the fine grid.
fn f(x: i64, y: i64) -> Vertex {
    Vertex { x: 6 * x, y: 6 * y }
}

fn run(cmds: Vec<PathCmd>) -> Vec<Prim> {
    let mut out = Vec::new();
    path_prims(&"shape".to_string(), &cmds, &mut out);
    out
}

#[test]
fn closed_line_path_keeps_all_corners() {
    let prims = run(vec![
        PathCmd::MoveTo(p(0, 0)),
        PathCmd::LineTo(p(10, 0)),
        PathCmd::LineTo(p(10, 10)),
        PathCmd::Close,
    ]);
    assert_eq!(prims.len(), 1);
    assert_eq!(prims[0].order, Order::Line);
    assert!(prims[0].is_closed);
    assert_eq!(prims[0].points, vec![f(0, 0), f(10, 0), f(10, 10)]);
    assert_eq!(prims[0].id, "shape");
}

#[test]
fn open_cubic_path_passes_through() {
    let prims = run(vec![
        PathCmd::MoveTo(p(0, 0)),
        PathCmd::CubicTo(p(0, 5), p(5, 10), p(10, 10)),
    ]);
    assert_eq!(prims.len(), 1);
    assert_eq!(prims[0].order, Order::Cube);
    assert!(!prims[0].is_closed);
    assert_eq!(prims[0].points, vec![f(0, 0), f(0, 5), f(5, 10), f(10, 10)]);
}

#[test]
fn closed_quad_path_promotes_line_to_midpoint() {
    let prims = run(vec![
        PathCmd::MoveTo(p(0, 0)),
        PathCmd::QuadTo(p(5, 5), p(10, 0)),
        PathCmd::LineTo(p(20, 0)),
        PathCmd::Close,
    ]);
    assert_eq!(prims.len(), 1);
    assert_eq!(prims[0].order, Order::Quad);
    assert!(prims[0].is_closed);
    assert_eq!(
        prims[0].points,
        vec![f(0, 0), f(5, 5), f(10, 0), f(15, 0), f(20, 0), f(10, 0)]
    );
}

#[test]
fn explicit_closing_line_is_not_doubled() {
    let prims = run(vec![
        PathCmd::MoveTo(p(0, 0)),
        PathCmd::LineTo(p(4, 0)),
        PathCmd::LineTo(p(0, 4)),
        PathCmd::LineTo(p(0, 0)),
        PathCmd::Close,
    ]);
    assert_eq!(prims[0].points, vec![f(0, 0), f(4, 0), f(0, 4)]);
}

#[test]
fn cubic_after_quad_raises_order_for_good() {
    let prims = run(vec![
        PathCmd::MoveTo(p(0, 0)),
        PathCmd::QuadTo(p(3, 3), p(6, 0)),
        PathCmd::CubicTo(p(6, 3), p(9, 3), p(9, 0)),
        PathCmd::LineTo(p(12, 0)),
    ]);
    assert_eq!(prims[0].order, Order::Cube);
    // 1 + 3 segments * 3 points
    assert_eq!(prims[0].points.len(), 10);
    assert_eq!(
        prims[0].points,
        vec![
            f(0, 0),
            Vertex { x: 12, y: 12 },
            Vertex { x: 24, y: 12 },
            f(6, 0),
            f(6, 3),
            f(9, 3),
            f(9, 0),
            f(10, 0),
            f(11, 0),
            f(12, 0),
        ]
    );
}

#[test]
fn quad_only_path_has_quad_order() {
    let prims = run(vec![
        PathCmd::MoveTo(p(0, 0)),
        PathCmd::LineTo(p(2, 0)),
        PathCmd::QuadTo(p(3, 1), p(4, 0)),
    ]);
    assert_eq!(prims[0].order, Order::Quad);
    assert_eq!(prims[0].points.len(), 1 + 2 * 2);
    assert_eq!(prims[0].points[1], f(1, 0));
}

#[test]
fn line_promoted_to_cube_sits_at_thirds() {
    let c = Segment::Line(p(3, 6)).to_cube(p(0, 0));
    assert_eq!(c, [f(1, 2), f(2, 4), f(3, 6)]);
}

#[test]
fn quad_elevated_to_cube_has_two_thirds_controls() {
    let c = Segment::Quad(p(3, 3), p(6, 0)).to_cube(p(0, 0));
    assert_eq!(c, [f(2, 2), f(4, 2), f(6, 0)]);
}

#[test]
fn line_promoted_to_quad_has_midpoint_control() {
    let q = Segment::Line(p(1, 0)).to_quad(p(0, 1));
    assert_eq!(q, [Vertex { x: 3, y: 3 }, f(1, 0)]);
}

#[test]
fn empty_subpaths_yield_nothing() {
    let prims = run(vec![
        PathCmd::MoveTo(p(0, 0)),
        PathCmd::MoveTo(p(1, 1)),
        PathCmd::Close,
        PathCmd::LineTo(p(5, 5)),
        PathCmd::MoveTo(p(2, 2)),
    ]);
    assert!(prims.is_empty());
}

#[test]
fn next_move_and_end_of_stream_end_open_subpaths() {
    let prims = run(vec![
        PathCmd::MoveTo(p(0, 0)),
        PathCmd::LineTo(p(1, 0)),
        PathCmd::MoveTo(p(5, 5)),
        PathCmd::LineTo(p(6, 5)),
    ]);
    assert_eq!(prims.len(), 2);
    assert!(!prims[0].is_closed && !prims[1].is_closed);
    assert_eq!(prims[0].points, vec![f(0, 0), f(1, 0)]);
    assert_eq!(prims[1].points, vec![f(5, 5), f(6, 5)]);
}

#[test]
fn builder_collects_and_builds() {
    let mut b = PrimBuilder::new(p(0, 0));
    b.push(Segment::Line(p(6, 0)));
    assert_eq!(b.order, Order::Line);
    b.push(Segment::Quad(p(9, 3), p(12, 0)));
    assert_eq!(b.order, Order::Quad);
    let prim = b.build("x".to_string());
    assert_eq!(prim.points, vec![f(0, 0), f(3, 0), f(6, 0), f(9, 3), f(12, 0)]);
}

#[test]
fn pool_concatenates_in_order() {
    let paths = vec![
        SvgPath {
            id: "a".to_string(),
            segments: vec![PathCmd::MoveTo(p(0, 0)), PathCmd::LineTo(p(1, 0))],
        },
        SvgPath {
            id: "b".to_string(),
            segments: vec![
                PathCmd::MoveTo(p(0, 0)),
                PathCmd::QuadTo(p(1, 1), p(2, 0)),
                PathCmd::Close,
            ],
        },
    ];
    let prims = build_prims(&paths);
    assert_eq!(prims.len(), 2);
    assert_eq!(prims[1].id, "b");
    let pool = point_pool(&prims);
    let total: usize = prims.iter().map(|q| q.points.len()).sum();
    assert_eq!(pool.len(), total);
    assert_eq!(pool.len(), 2 + 4);
    assert_eq!(&pool[..2], &prims[0].points[..]);
    assert_eq!(&pool[2..], &prims[1].points[..]);
}

fn arr(v: &Value) -> &Vec<Value> {
    match v {
        Value::Array(a) => &a.0,
        _ => panic!("not an array"),
    }
}

fn integer(v: &Value) -> i64 {
    match v {
        Value::Integer(i) => *i,
        _ => panic!("not an integer"),
    }
}

#[test]
fn document_records_ranges_and_knots() {
    let paths = vec![
        SvgPath {
            id: "a".to_string(),
            segments: vec![PathCmd::MoveTo(p(0, 0)), PathCmd::LineTo(p(1, 0))],
        },
        SvgPath {
            id: "b".to_string(),
            segments: vec![
                PathCmd::MoveTo(p(0, 0)),
                PathCmd::CubicTo(p(0, 1), p(1, 1), p(1, 0)),
            ],
        },
    ];
    let prims = build_prims(&paths);
    let doc = prims_to_json(prims);
    let top = arr(&doc);
    assert_eq!(top.len(), 18);
    assert_eq!(integer(&top[5]), 6);
    assert_eq!(integer(&top[7]), 6);
    assert_eq!(integer(&top[9]), 2);
    let out = arr(&top[17]);
    let line = arr(&arr(&out[0])[1]);
    assert_eq!(integer(&line[1]), 0);
    assert_eq!(integer(&arr(&line[5])[0]), 2);
    let bez = arr(&arr(&out[1])[1]);
    let verts: Vec<i64> = arr(&bez[1]).iter().map(integer).collect();
    assert_eq!(verts, vec![2, 3, 4, 5]);
    assert!(matches!(bez[3], Value::Boolean(false)));
    let basis = arr(&bez[5]);
    assert_eq!(integer(&basis[3]), 4);
    let knots: Vec<i64> = arr(&basis[5]).iter().map(integer).collect();
    assert_eq!(knots, vec![0, 1]);
}

fn path(id: &str, visible: bool, fill: bool, stroke: bool) -> DocPath {
    let outline = vec![PathCmd::MoveTo(p(0, 0)), PathCmd::LineTo(p(1, 1))];
    DocPath {
        id: id.to_string(),
        visible,
        fill: if fill { Some(outline.clone()) } else { None },
        stroke: if stroke { Some(outline) } else { None },
    }
}

#[test]
fn flatten_gives_one_subpath_per_visible_fill() {
    let doc = Doc {
        groups: vec![
            DocGroup {
                id: String::new(),
                parent: 0,
                paths: vec![path("a", true, true, false), path("", false, true, false)],
            },
            DocGroup {
                id: "g".to_string(),
                parent: 0,
                paths: vec![path("b", true, true, false)],
            },
        ],
    };
    let subs = flatten(&doc);
    assert_eq!(subs.len(), 2);
    assert_eq!(subs[0].id, "a");
    assert_eq!(subs[1].id, "g/b");
}

#[test]
fn flatten_adds_one_subpath_per_stroke() {
    let doc = Doc {
        groups: vec![
            DocGroup {
                id: String::new(),
                parent: 0,
                paths: vec![path("a", true, true, true), path("", true, true, false)],
            },
            DocGroup {
                id: "g".to_string(),
                parent: 0,
                paths: vec![],
            },
            DocGroup {
                id: String::new(),
                parent: 1,
                paths: vec![path("", true, true, false)],
            },
        ],
    };
    let subs = flatten(&doc);
    assert_eq!(subs.len(), 4);
    assert_eq!(subs[0].id, "a");
    assert_eq!(subs[1].id, "a");
    assert_eq!(subs[2].id, "");
    assert_eq!(subs[3].id, "g");
}

/// `d³ · B(n / d)` of a cubic, one coordinate.
fn cubic_at(c: [i64; 4], n: i64, d: i64) -> i64 {
    let m = d - n;
    m * m * m * c[0] + 3 * m * m * n * c[1] + 3 * m * n * n * c[2] + n * n * n * c[3]
}

#[test]
fn promoted_curves_keep_their_shape() {
    let (p0, c, p1) = (p(2, 7), p(9, -4), p(-5, 3));
    let line = Segment::Line(p1).to_cube(p0);
    let quad = Segment::Quad(c, p1).to_cube(p0);
    for (n, d) in [(0i64, 1i64), (1, 3), (1, 2), (5, 7), (1, 1)] {
        let m = d - n;
        let xs = [6 * 2, line[0].x, line[1].x, line[2].x];
        // the line at t: d * (p0 + t * (p1 - p0)), on the fine grid and times d²
        assert_eq!(cubic_at(xs, n, d), 6 * d * d * (d * 2 + n * (-5 - 2)));
        let xs = [6 * 2, quad[0].x, quad[1].x, quad[2].x];
        let q = m * m * 2 + 2 * m * n * 9 + n * n * (-5);
        assert_eq!(cubic_at(xs, n, d), 6 * d * q);
        let ys = [6 * 7, quad[0].y, quad[1].y, quad[2].y];
        let q = m * m * 7 + 2 * m * n * (-4) + n * n * 3;
        assert_eq!(cubic_at(ys, n, d), 6 * d * q);
    }
}

#[test]
fn empty_inputs_give_empty_outputs() {
    assert!(run(vec![]).is_empty());
    assert!(flatten(&Doc { groups: vec![] }).is_empty());
    let doc = prims_to_json(vec![]);
    let top = arr(&doc);
    assert_eq!(integer(&top[5]), 0);
    assert_eq!(integer(&top[9]), 0);
    assert!(arr(&top[17]).is_empty());
}

#[test]
fn document_lists_point_tuples_and_names() {
    let prims = run(vec![PathCmd::MoveTo(p(1, 2)), PathCmd::LineTo(p(3, 4))]);
    let doc = prims_to_json(prims);
    let top = arr(&doc);
    let attrs = arr(&top[15]);
    let tuples = arr(&arr(&arr(&arr(&attrs[1])[0])[1])[7]);
    let tuples = arr(&tuples[5]);
    assert_eq!(tuples.len(), 2);
    let first = arr(&tuples[0]);
    assert!(matches!(first[0], Value::Ratio(6, 6144)));
    assert!(matches!(first[1], Value::Ratio(12, 6144)));
    let names = arr(&arr(&arr(&attrs[3])[0])[1]);
    let names = arr(&names[5]);
    assert!(matches!(&names[0], Value::String(s) if s == "shape"));
}
