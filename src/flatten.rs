use crate::stream::{PathCmd, SvgPath};
use vstd::prelude::*;
use vstd::string::*;

verus! {

/// A drawable path of the document, with its outlines already in document
/// coordinates: the fill outline if it has a fill, the stroke outline if it
/// has a stroke.
pub struct DocPath {
    pub id: String,
    pub visible: bool,
    pub fill: Option<Vec<PathCmd>>,
    pub stroke: Option<Vec<PathCmd>>,
}

/// A group of the document: its identifier, the index of its parent group
/// and its paths. Group 0 is the root; every other group comes after its
/// parent.
pub struct DocGroup {
    pub id: String,
    pub parent: usize,
    pub paths: Vec<DocPath>,
}

/// A document as a list of groups.
pub struct Doc {
    pub groups: Vec<DocGroup>,
}

pub struct PathV {
    pub id: Seq<char>,
    pub visible: bool,
    pub fill: Option<Seq<PathCmd>>,
    pub stroke: Option<Seq<PathCmd>>,
}

pub struct GroupV {
    pub id: Seq<char>,
    pub parent: int,
    pub paths: Seq<PathV>,
}

/// A sub-path to convert, as plain values.
pub struct SubV {
    pub id: Seq<char>,
    pub segments: Seq<PathCmd>,
}

pub open spec fn opt_view(o: Option<Vec<PathCmd>>) -> Option<Seq<PathCmd>> {
    match o {
        Some(v) => Some(v@),
        None => None,
    }
}

impl View for DocPath {
    type V = PathV;

    open spec fn view(&self) -> PathV {
        PathV {
            id: self.id@,
            visible: self.visible,
            fill: opt_view(self.fill),
            stroke: opt_view(self.stroke),
        }
    }
}

impl View for DocGroup {
    type V = GroupV;

    open spec fn view(&self) -> GroupV {
        GroupV {
            id: self.id@,
            parent: self.parent as int,
            paths: self.paths@.map_values(|p: DocPath| p@),
        }
    }
}

impl View for Doc {
    type V = Seq<GroupV>;

    open spec fn view(&self) -> Seq<GroupV> {
        self.groups@.map_values(|g: DocGroup| g@)
    }
}

impl View for SvgPath {
    type V = SubV;

    open spec fn view(&self) -> SubV {
        SubV { id: self.id@, segments: self.segments@ }
    }
}

/// Every group but the root comes after its parent.
pub open spec fn doc_wf(d: Seq<GroupV>) -> bool {
    forall|g: int| 0 < g < d.len() ==> 0 <= #[trigger] d[g].parent < g
}

/// The identifier of a node inside a group whose identifier is `outer`: the
/// two joined by `/` when both are non-empty, else whichever is non-empty.
pub open spec fn join_id(outer: Seq<char>, own: Seq<char>) -> Seq<char> {
    if own.len() == 0 {
        outer
    } else if outer.len() == 0 {
        own
    } else {
        outer + seq!['/'] + own
    }
}

/// The identifier that group `g` hands to its nodes; the root hands none.
pub open spec fn group_id(d: Seq<GroupV>, g: int) -> Seq<char>
    decreases g,
{
    if g <= 0 || g >= d.len() || d[g].parent >= g || d[g].parent < 0 {
        Seq::empty()
    } else {
        join_id(group_id(d, d[g].parent), d[g].id)
    }
}

/// The sub-paths of one path under the identifier `id`: none if it is
/// hidden, else its fill outline, then its stroke outline, where present.
pub open spec fn path_subs(p: PathV, id: Seq<char>) -> Seq<SubV> {
    if !p.visible {
        Seq::empty()
    } else {
        (match p.fill {
            Some(s) => seq![SubV { id, segments: s }],
            None => Seq::empty(),
        }) + (match p.stroke {
            Some(s) => seq![SubV { id, segments: s }],
            None => Seq::empty(),
        })
    }
}

/// The sub-paths of the first `k` paths of a group whose identifier is `id`.
pub open spec fn group_subs(paths: Seq<PathV>, id: Seq<char>, k: int) -> Seq<SubV>
    decreases k,
{
    if k <= 0 || k > paths.len() {
        Seq::empty()
    } else {
        group_subs(paths, id, k - 1) + path_subs(paths[k - 1], join_id(id, paths[k - 1].id))
    }
}

/// The sub-paths of the first `n` groups, group by group.
pub open spec fn doc_subs(d: Seq<GroupV>, n: int) -> Seq<SubV>
    decreases n,
{
    if n <= 0 || n > d.len() {
        Seq::empty()
    } else {
        doc_subs(d, n - 1) + group_subs(d[n - 1].paths, group_id(d, n - 1), d[n - 1].paths.len() as int)
    }
}

/// All sub-paths of a document.
pub open spec fn flattened(d: Seq<GroupV>) -> Seq<SubV> {
    doc_subs(d, d.len() as int)
}

/// The number of outlines a path contributes.
pub open spec fn outlines(p: PathV) -> nat {
    if !p.visible {
        0
    } else {
        (if p.fill is Some { 1nat } else { 0 }) + (if p.stroke is Some { 1nat } else { 0 })
    }
}

/// The sum of `f` over the first `k` paths.
pub open spec fn path_sum(paths: Seq<PathV>, k: int, f: spec_fn(PathV) -> nat) -> nat
    decreases k,
{
    if k <= 0 || k > paths.len() {
        0
    } else {
        path_sum(paths, k - 1, f) + f(paths[k - 1])
    }
}

/// The sum of `f` over every path of the first `n` groups.
pub open spec fn doc_sum(d: Seq<GroupV>, n: int, f: spec_fn(PathV) -> nat) -> nat
    decreases n,
{
    if n <= 0 || n > d.len() {
        0
    } else {
        doc_sum(d, n - 1, f) + path_sum(d[n - 1].paths, d[n - 1].paths.len() as int, f)
    }
}

pub open spec fn one_if_visible(p: PathV) -> nat {
    if p.visible {
        1
    } else {
        0
    }
}

proof fn lemma_group_subs_len(paths: Seq<PathV>, id: Seq<char>, k: int)
    requires
        0 <= k <= paths.len(),
    ensures
        group_subs(paths, id, k).len() == path_sum(paths, k, |p: PathV| outlines(p)),
    decreases k,
{
    if k > 0 {
        lemma_group_subs_len(paths, id, k - 1);
    }
}

proof fn lemma_doc_subs_len(d: Seq<GroupV>, n: int)
    requires
        0 <= n <= d.len(),
    ensures
        doc_subs(d, n).len() == doc_sum(d, n, |p: PathV| outlines(p)),
    decreases n,
{
    if n > 0 {
        lemma_doc_subs_len(d, n - 1);
        lemma_group_subs_len(d[n - 1].paths, group_id(d, n - 1), d[n - 1].paths.len() as int);
    }
}

proof fn lemma_path_sum_same(paths: Seq<PathV>, k: int, f: spec_fn(PathV) -> nat, h: spec_fn(PathV) -> nat)
    requires
        forall|i: int| 0 <= i < paths.len() ==> f(#[trigger] paths[i]) == h(paths[i]),
    ensures
        path_sum(paths, k, f) == path_sum(paths, k, h),
    decreases k,
{
    if k > 0 && k <= paths.len() {
        lemma_path_sum_same(paths, k - 1, f, h);
    }
}

proof fn lemma_doc_sum_same(d: Seq<GroupV>, n: int, f: spec_fn(PathV) -> nat, h: spec_fn(PathV) -> nat)
    requires
        forall|g: int, i: int|
            0 <= g < d.len() && 0 <= i < d[g].paths.len() ==> f(#[trigger] d[g].paths[i]) == h(
                d[g].paths[i],
            ),
    ensures
        doc_sum(d, n, f) == doc_sum(d, n, h),
    decreases n,
{
    if n > 0 && n <= d.len() {
        lemma_doc_sum_same(d, n - 1, f, h);
        let paths = d[n - 1].paths;
        assert forall|i: int| 0 <= i < paths.len() implies f(#[trigger] paths[i]) == h(paths[i]) by {
            assert(d[n - 1].paths[i] == paths[i]);
        }
        lemma_path_sum_same(paths, paths.len() as int, f, h);
    }
}

proof fn lemma_path_sum_update(paths: Seq<PathV>, k: int, i: int, q: PathV, f: spec_fn(PathV) -> nat)
    requires
        0 <= i < paths.len(),
        0 <= k <= paths.len(),
        f(q) == f(paths[i]) + 1,
    ensures
        path_sum(paths.update(i, q), k, f) == path_sum(paths, k, f) + (if i < k { 1nat } else { 0 }),
    decreases k,
{
    if k > 0 {
        lemma_path_sum_update(paths, k - 1, i, q, f);
    }
}

proof fn lemma_doc_sum_update(d: Seq<GroupV>, n: int, g: int, h: GroupV, f: spec_fn(PathV) -> nat)
    requires
        0 <= g < d.len(),
        0 <= n <= d.len(),
        path_sum(h.paths, h.paths.len() as int, f) == path_sum(d[g].paths, d[g].paths.len() as int, f)
            + 1,
    ensures
        doc_sum(d.update(g, h), n, f) == doc_sum(d, n, f) + (if g < n { 1nat } else { 0 }),
    decreases n,
{
    if n > 0 {
        lemma_doc_sum_update(d, n - 1, g, h, f);
    }
}

/// Flattening yields one sub-path per outline: a document whose paths all
/// have a fill and no stroke gives exactly one sub-path per visible path.
pub proof fn lemma_one_subpath_per_fill(d: Seq<GroupV>)
    requires
        forall|g: int, i: int|
            0 <= g < d.len() && 0 <= i < d[g].paths.len() ==> (#[trigger] d[g].paths[i]).fill is Some
                && d[g].paths[i].stroke is None,
    ensures
        flattened(d).len() == doc_sum(d, d.len() as int, |p: PathV| one_if_visible(p)),
{
    lemma_doc_subs_len(d, d.len() as int);
    lemma_doc_sum_same(d, d.len() as int, |p: PathV| outlines(p), |p: PathV| one_if_visible(p));
}

/// Giving one visible path that had no stroke a stroke adds exactly one
/// sub-path to the flattened document.
pub proof fn lemma_stroke_adds_one(d: Seq<GroupV>, g: int, i: int, s: Seq<PathCmd>)
    requires
        0 <= g < d.len(),
        0 <= i < d[g].paths.len(),
        d[g].paths[i].visible,
        d[g].paths[i].stroke is None,
    ensures
        ({
            let p = d[g].paths[i];
            let q = PathV { stroke: Some(s), ..p };
            let e = d.update(g, GroupV { paths: d[g].paths.update(i, q), ..d[g] });
            flattened(e).len() == flattened(d).len() + 1
        }),
{
    let p = d[g].paths[i];
    let q = PathV { stroke: Some(s), ..p };
    let h = GroupV { paths: d[g].paths.update(i, q), ..d[g] };
    let e = d.update(g, h);
    let f = |p: PathV| outlines(p);
    lemma_path_sum_update(d[g].paths, d[g].paths.len() as int, i, q, f);
    lemma_doc_sum_update(d, d.len() as int, g, h, f);
    lemma_doc_subs_len(d, d.len() as int);
    lemma_doc_subs_len(e, e.len() as int);
}

fn join(outer: &String, own: &String) -> (r: String)
    ensures
        r@ == join_id(outer@, own@),
{
    let own_s = own.as_str();
    let outer_s = outer.as_str();
    if own_s.is_empty() {
        outer.clone()
    } else if outer_s.is_empty() {
        own.clone()
    } else {
        let mut r = outer.clone();
        r.append("/");
        r.append(own_s);
        proof {
            reveal_strlit("/");
        }
        r
    }
}

fn copy_cmds(v: &Vec<PathCmd>) -> (r: Vec<PathCmd>)
    ensures
        r@ == v@,
{
    let mut r: Vec<PathCmd> = Vec::new();
    let mut i: usize = 0;
    while i < v.len()
        invariant
            i <= v@.len(),
            r@ == v@.take(i as int),
        decreases v@.len() - i,
    {
        r.push(v[i]);
        i += 1;
        assert(r@ =~= v@.take(i as int));
    }
    assert(v@.take(i as int) =~= v@);
    r
}

/// Lists the document's sub-paths, group by group in document order and path
/// by path within a group: a hidden path gives none, a visible one its fill
/// outline and then its stroke outline, each where present. A path's
/// sub-paths carry its identifier joined to those of its enclosing groups.
pub fn flatten(doc: &Doc) -> (r: Vec<SvgPath>)
    requires
        doc_wf(doc@),
    ensures
        r@.map_values(|s: SvgPath| s@) == flattened(doc@),
{
    let ghost d = doc@;
    let mut out: Vec<SvgPath> = Vec::new();
    let mut ids: Vec<String> = Vec::new();
    let mut g: usize = 0;
    while g < doc.groups.len()
        invariant
            d == doc@,
            doc_wf(d),
            g <= d.len(),
            ids@.len() == g,
            forall|k: int| 0 <= k < g ==> (#[trigger] ids@[k])@ == group_id(d, k),
            out@.map_values(|s: SvgPath| s@) == doc_subs(d, g as int),
        decreases d.len() - g,
    {
        let group = &doc.groups[g];
        assert(d[g as int] == group@);
        let gid = if g == 0 {
            String::new()
        } else {
            assert(0 <= d[g as int].parent < g);
            join(&ids[group.parent], &group.id)
        };
        assert(gid@ == group_id(d, g as int));
        let ghost before = out@.map_values(|s: SvgPath| s@);
        let ghost paths = group@.paths;
        let mut k: usize = 0;
        while k < group.paths.len()
            invariant
                paths == group@.paths,
                k <= paths.len(),
                out@.map_values(|s: SvgPath| s@) == before + group_subs(paths, gid@, k as int),
            decreases paths.len() - k,
        {
            let p = &group.paths[k];
            assert(paths[k as int] == p@);
            let ghost mid = out@.map_values(|s: SvgPath| s@);
            if p.visible {
                let pid = join(&gid, &p.id);
                match &p.fill {
                    Some(f) => {
                        out.push(SvgPath { id: pid.clone(), segments: copy_cmds(f) });
                    },
                    None => {},
                }
                match &p.stroke {
                    Some(s) => {
                        out.push(SvgPath { id: pid, segments: copy_cmds(s) });
                    },
                    None => {},
                }
            }
            assert(out@.map_values(|s: SvgPath| s@) =~= mid + path_subs(p@, join_id(gid@, p@.id)));
            k += 1;
        }
        ids.push(gid);
        g += 1;
    }
    out
}

} // verus!
