//! Populating new script behavior diagrams. On a state-machine diagram every
//! vertex of the machine, nested states' regions included, gets a place on
//! the grid in the order the regions are walked, and every transition an
//! edge route; on a sequence diagram every lifeline gets a column, in order.

use vstd::prelude::*;

verus! {

/// Where the first vertex goes, across and down.
pub const VERTEX_FIRST_X: u128 = 100;
pub const VERTEX_FIRST_Y: u128 = 100;
/// The distance from one vertex to the next in a row, and between rows.
pub const VERTEX_STEP_X: u128 = 220;
pub const VERTEX_STEP_Y: u128 = 150;
/// A row ends once the next vertex would start beyond this.
pub const VERTEX_ROW_END_X: u128 = 900;

/// A region: its vertices and the ids of its transitions, in order.
#[derive(Debug)]
pub struct StateRegion {
    pub vertices: Vec<StateVertex>,
    pub transitions: Vec<u128>,
}

/// A vertex: its id and, for a state, its regions.
#[derive(Debug)]
pub struct StateVertex {
    pub id: u128,
    pub regions: Vec<StateRegion>,
}

/// The vertices and transitions of regions `rs`, in walk order: each
/// region's vertices in order, each followed by the walk of its own regions,
/// then the region's transitions.
pub open spec fn walk_regions(rs: Seq<StateRegion>) -> (Seq<u128>, Seq<u128>)
    decreases rs,
{
    if rs.len() == 0 {
        (Seq::empty(), Seq::empty())
    } else {
        let (v0, t0) = walk_regions(rs.drop_last());
        let (v1, t1) = walk_vertices(rs.last().vertices@);
        (v0 + v1, t0 + t1 + rs.last().transitions@)
    }
}

/// The vertices and transitions of the vertices `vs` and their regions.
pub open spec fn walk_vertices(vs: Seq<StateVertex>) -> (Seq<u128>, Seq<u128>)
    decreases vs,
{
    if vs.len() == 0 {
        (Seq::empty(), Seq::empty())
    } else {
        let (v0, t0) = walk_vertices(vs.drop_last());
        let (v1, t1) = walk_regions(vs.last().regions@);
        (v0.push(vs.last().id) + v1, t0 + t1)
    }
}

/// The place of vertex `k` in walk order: a row wraps once the next vertex
/// would start beyond its end.
pub open spec fn vertex_place(k: int) -> (int, int)
    decreases k,
{
    if k <= 0 {
        (VERTEX_FIRST_X as int, VERTEX_FIRST_Y as int)
    } else {
        let (x, y) = vertex_place(k - 1);
        if x + VERTEX_STEP_X > VERTEX_ROW_END_X {
            (VERTEX_FIRST_X as int, y + VERTEX_STEP_Y)
        } else {
            (x + VERTEX_STEP_X, y)
        }
    }
}

/// What populating a state-machine diagram adds: each vertex with its place,
/// and the transitions whose routes are added, in walk order.
#[derive(Debug, Clone)]
pub struct StatePopulation {
    pub vertices: Vec<(u128, u128, u128)>,
    pub transitions: Vec<u128>,
}

fn append_ids(out: &mut Vec<u128>, ids: &Vec<u128>)
    ensures
        final(out)@ == old(out)@ + ids@,
{
    let ghost start = out@;
    let mut k: usize = 0;
    while k < ids.len()
        invariant
            k <= ids@.len(),
            out@ == start + ids@.take(k as int),
        decreases ids.len() - k,
    {
        out.push(ids[k]);
        assert(ids@.take(k + 1) =~= ids@.take(k as int).push(ids@[k as int]));
        k = k + 1;
    }
    assert(ids@.take(k as int) =~= ids@);
}

fn collect_regions(rs: &Vec<StateRegion>, vs: &mut Vec<u128>, ts: &mut Vec<u128>)
    ensures
        final(vs)@ == old(vs)@ + walk_regions(rs@).0,
        final(ts)@ == old(ts)@ + walk_regions(rs@).1,
    decreases rs@,
{
    let ghost v0 = vs@;
    let ghost t0 = ts@;
    let mut i: usize = 0;
    while i < rs.len()
        invariant
            i <= rs@.len(),
            vs@ == v0 + walk_regions(rs@.take(i as int)).0,
            ts@ == t0 + walk_regions(rs@.take(i as int)).1,
        decreases rs.len() - i,
    {
        assert(rs@.take(i + 1).drop_last() =~= rs@.take(i as int));
        assert(rs@.take(i + 1).last() == rs@[i as int]);
        collect_vertices(&rs[i].vertices, vs, ts);
        append_ids(ts, &rs[i].transitions);
        assert(vs@ =~= v0 + walk_regions(rs@.take(i + 1)).0);
        assert(ts@ =~= t0 + walk_regions(rs@.take(i + 1)).1);
        i = i + 1;
    }
    assert(rs@.take(i as int) =~= rs@);
}

fn collect_vertices(ws: &Vec<StateVertex>, vs: &mut Vec<u128>, ts: &mut Vec<u128>)
    ensures
        final(vs)@ == old(vs)@ + walk_vertices(ws@).0,
        final(ts)@ == old(ts)@ + walk_vertices(ws@).1,
    decreases ws@,
{
    let ghost v0 = vs@;
    let ghost t0 = ts@;
    let mut i: usize = 0;
    while i < ws.len()
        invariant
            i <= ws@.len(),
            vs@ == v0 + walk_vertices(ws@.take(i as int)).0,
            ts@ == t0 + walk_vertices(ws@.take(i as int)).1,
        decreases ws.len() - i,
    {
        assert(ws@.take(i + 1).drop_last() =~= ws@.take(i as int));
        assert(ws@.take(i + 1).last() == ws@[i as int]);
        vs.push(ws[i].id);
        collect_regions(&ws[i].regions, vs, ts);
        assert(vs@ =~= v0 + walk_vertices(ws@.take(i + 1)).0);
        assert(ts@ =~= t0 + walk_vertices(ws@.take(i + 1)).1);
        i = i + 1;
    }
    assert(ws@.take(i as int) =~= ws@);
}

proof fn lemma_vertex_place_bounds(k: int)
    requires
        k >= 0,
    ensures
        VERTEX_FIRST_X <= vertex_place(k).0 <= VERTEX_ROW_END_X,
        VERTEX_FIRST_Y <= vertex_place(k).1 <= VERTEX_FIRST_Y + k * VERTEX_STEP_Y,
    decreases k,
{
    if k > 0 {
        lemma_vertex_place_bounds(k - 1);
    }
}

/// Populate a new state-machine diagram of a machine with regions
/// `regions`: the vertices in walk order (see [`walk_regions`]), vertex `k`
/// at [`vertex_place`]`(k)`, and the transitions in walk order.
pub fn state_machine_population(regions: &Vec<StateRegion>) -> (p: StatePopulation)
    ensures
        p.vertices@.len() == walk_regions(regions@).0.len(),
        forall|k: int| 0 <= k < p.vertices@.len() ==> (#[trigger] p.vertices@[k]).0 == walk_regions(regions@).0[k]
            && (p.vertices@[k].1 as int, p.vertices@[k].2 as int) == vertex_place(k),
        p.transitions@ == walk_regions(regions@).1,
{
    let mut ids: Vec<u128> = Vec::new();
    let mut transitions: Vec<u128> = Vec::new();
    collect_regions(regions, &mut ids, &mut transitions);
    assert(ids@ =~= walk_regions(regions@).0);
    assert(transitions@ =~= walk_regions(regions@).1);
    let mut vertices: Vec<(u128, u128, u128)> = Vec::new();
    let mut x: u128 = VERTEX_FIRST_X;
    let mut y: u128 = VERTEX_FIRST_Y;
    let mut k: usize = 0;
    while k < ids.len()
        invariant
            k <= ids@.len(),
            vertices@.len() == k,
            forall|q: int| 0 <= q < k ==> (#[trigger] vertices@[q]).0 == ids@[q] && (vertices@[q].1 as int,
                vertices@[q].2 as int) == vertex_place(q),
            (x as int, y as int) == vertex_place(k as int),
        decreases ids.len() - k,
    {
        proof {
            lemma_vertex_place_bounds(k as int);
        }
        vertices.push((ids[k], x, y));
        if x + VERTEX_STEP_X > VERTEX_ROW_END_X {
            x = VERTEX_FIRST_X;
            y = y + VERTEX_STEP_Y;
        } else {
            x = x + VERTEX_STEP_X;
        }
        k = k + 1;
    }
    StatePopulation { vertices, transitions }
}

/// Where the first lifeline goes across, and the distance between lifelines.
pub const LIFELINE_FIRST_X: u128 = 140;
pub const LIFELINE_STEP_X: u128 = 220;

/// The column of lifeline `i`.
pub open spec fn lifeline_x(i: int) -> int {
    LIFELINE_FIRST_X + i * LIFELINE_STEP_X
}

/// Populate a new sequence diagram of an interaction with lifelines
/// `lifelines`: each lifeline with its column, in order.
pub fn lifeline_columns(lifelines: &Vec<u128>) -> (r: Vec<(u128, u128)>)
    ensures
        r@.len() == lifelines@.len(),
        forall|i: int| 0 <= i < r@.len() ==> (#[trigger] r@[i]).0 == lifelines@[i] && r@[i].1 == lifeline_x(i),
{
    let mut out: Vec<(u128, u128)> = Vec::new();
    let mut x: u128 = LIFELINE_FIRST_X;
    let mut i: usize = 0;
    while i < lifelines.len()
        invariant
            i <= lifelines@.len(),
            out@.len() == i,
            x == lifeline_x(i as int),
            forall|q: int| 0 <= q < i ==> (#[trigger] out@[q]).0 == lifelines@[q] && out@[q].1 == lifeline_x(q),
        decreases lifelines.len() - i,
    {
        out.push((lifelines[i], x));
        x = x + LIFELINE_STEP_X;
        i = i + 1;
    }
    out
}

} // verus!
