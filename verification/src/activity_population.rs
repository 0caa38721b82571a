//! Populating a new script activity diagram: every node of the activity
//! gets a place on the grid, and every edge whose two ends (a node, or a pin
//! of an action) have a presented node becomes an edge between them.

use vstd::prelude::*;

verus! {

/// Where the first node goes, across and down.
pub const NODE_FIRST_X: u128 = 100;
pub const NODE_FIRST_Y: u128 = 100;
/// The distance from one node to the next in a row, and between rows.
pub const NODE_STEP_X: u128 = 220;
pub const NODE_STEP_Y: u128 = 160;
/// A row ends once the next node would start beyond this.
pub const NODE_ROW_END_X: u128 = 900;

/// A node of the activity: its id and, for an action, the ids of its pins.
#[derive(Debug, Clone)]
pub struct ActivityNodeFacts {
    pub id: u128,
    pub pins: Vec<u128>,
}

/// An end of an activity edge: a node or a pin.
#[derive(Debug, Clone, Copy)]
pub enum ActivityEndpoint {
    Node(u128),
    Pin(u128),
}

/// An edge of the activity.
#[derive(Debug, Clone, Copy)]
pub struct ActivityEdgeFacts {
    pub source: ActivityEndpoint,
    pub target: ActivityEndpoint,
}

/// An edge of the diagram: the activity edge and its source and target
/// nodes (by position).
#[derive(Debug, Clone, Copy, PartialEq, Eq, Structural)]
pub struct ActivityEdgeSlot {
    pub edge: usize,
    pub source: usize,
    pub target: usize,
}

/// What populating an activity diagram adds: the place of each node, in
/// order, and the edges.
#[derive(Debug, Clone)]
pub struct ActivityPopulation {
    pub places: Vec<(u128, u128)>,
    pub edges: Vec<ActivityEdgeSlot>,
}

/// The place of node `k`: a row wraps once the next node would start beyond
/// its end.
pub open spec fn node_place(k: int) -> (int, int)
    decreases k,
{
    if k <= 0 {
        (NODE_FIRST_X as int, NODE_FIRST_Y as int)
    } else {
        let (x, y) = node_place(k - 1);
        if x + NODE_STEP_X > NODE_ROW_END_X {
            (NODE_FIRST_X as int, y + NODE_STEP_Y)
        } else {
            (x + NODE_STEP_X, y)
        }
    }
}

/// The first node from position `i` on with id `id`.
pub open spec fn first_node(nodes: Seq<ActivityNodeFacts>, id: u128, i: int) -> Option<int>
    decreases nodes.len() - i,
{
    if i < 0 || i >= nodes.len() {
        None
    } else if nodes[i].id == id {
        Some(i)
    } else {
        first_node(nodes, id, i + 1)
    }
}

/// The first node from position `i` on that has the pin `pin`.
pub open spec fn first_pin_owner(nodes: Seq<ActivityNodeFacts>, pin: u128, i: int) -> Option<int>
    decreases nodes.len() - i,
{
    if i < 0 || i >= nodes.len() {
        None
    } else if nodes[i].pins@.contains(pin) {
        Some(i)
    } else {
        first_pin_owner(nodes, pin, i + 1)
    }
}

/// The presented node an edge end attaches to: the node itself, or the
/// action that owns the pin.
pub open spec fn end_node(nodes: Seq<ActivityNodeFacts>, end: ActivityEndpoint) -> Option<int> {
    match end {
        ActivityEndpoint::Node(id) => first_node(nodes, id, 0),
        ActivityEndpoint::Pin(p) => match first_pin_owner(nodes, p, 0) {
            Some(i) => first_node(nodes, nodes[i].id, 0),
            None => None,
        },
    }
}

/// The diagram edges of the first `n` activity edges, in order.
pub open spec fn activity_edges(nodes: Seq<ActivityNodeFacts>, edges: Seq<ActivityEdgeFacts>, n: int) -> Seq<
    ActivityEdgeSlot,
>
    decreases n,
{
    if n <= 0 {
        Seq::empty()
    } else {
        let acc = activity_edges(nodes, edges, n - 1);
        match (end_node(nodes, edges[n - 1].source), end_node(nodes, edges[n - 1].target)) {
            (Some(s), Some(t)) => acc.push(
                ActivityEdgeSlot { edge: (n - 1) as usize, source: s as usize, target: t as usize },
            ),
            _ => acc,
        }
    }
}

pub open spec fn places_view(v: Seq<(u128, u128)>) -> Seq<(int, int)> {
    v.map_values(|p: (u128, u128)| (p.0 as int, p.1 as int))
}

proof fn lemma_place_bounds(k: int)
    requires
        k >= 0,
    ensures
        NODE_FIRST_X <= node_place(k).0 <= NODE_ROW_END_X,
        NODE_FIRST_Y <= node_place(k).1 <= NODE_FIRST_Y + k * NODE_STEP_Y,
    decreases k,
{
    if k > 0 {
        lemma_place_bounds(k - 1);
    }
}

fn find_node(nodes: &Vec<ActivityNodeFacts>, id: u128) -> (r: Option<usize>)
    ensures
        match r {
            Some(i) => first_node(nodes@, id, 0) == Some(i as int),
            None => first_node(nodes@, id, 0) is None,
        },
{
    let mut i: usize = 0;
    while i < nodes.len()
        invariant
            i <= nodes@.len(),
            first_node(nodes@, id, 0) == first_node(nodes@, id, i as int),
        decreases nodes.len() - i,
    {
        if nodes[i].id == id {
            return Some(i);
        }
        i = i + 1;
    }
    None
}

fn has_pin(pins: &Vec<u128>, pin: u128) -> (r: bool)
    ensures
        r == pins@.contains(pin),
{
    let mut j: usize = 0;
    while j < pins.len()
        invariant
            j <= pins@.len(),
            forall|q: int| 0 <= q < j ==> pins@[q] != pin,
        decreases pins.len() - j,
    {
        if pins[j] == pin {
            assert(pins@[j as int] == pin);
            return true;
        }
        j = j + 1;
    }
    false
}

fn find_pin_owner(nodes: &Vec<ActivityNodeFacts>, pin: u128) -> (r: Option<usize>)
    ensures
        match r {
            Some(i) => first_pin_owner(nodes@, pin, 0) == Some(i as int) && i < nodes@.len(),
            None => first_pin_owner(nodes@, pin, 0) is None,
        },
{
    let mut i: usize = 0;
    while i < nodes.len()
        invariant
            i <= nodes@.len(),
            first_pin_owner(nodes@, pin, 0) == first_pin_owner(nodes@, pin, i as int),
        decreases nodes.len() - i,
    {
        if has_pin(&nodes[i].pins, pin) {
            return Some(i);
        }
        i = i + 1;
    }
    None
}

fn attach(nodes: &Vec<ActivityNodeFacts>, end: ActivityEndpoint) -> (r: Option<usize>)
    ensures
        match r {
            Some(i) => end_node(nodes@, end) == Some(i as int),
            None => end_node(nodes@, end) is None,
        },
{
    match end {
        ActivityEndpoint::Node(id) => find_node(nodes, id),
        ActivityEndpoint::Pin(p) => match find_pin_owner(nodes, p) {
            Some(i) => find_node(nodes, nodes[i].id),
            None => None,
        },
    }
}

/// Populate a new activity diagram of an activity with nodes `nodes` and
/// edges `edges`: node `k` goes to [`node_place`]`(k)`, and each edge whose
/// ends attach to presented nodes becomes a diagram edge, in order.
pub fn activity_population(nodes: &Vec<ActivityNodeFacts>, edges: &Vec<ActivityEdgeFacts>) -> (r: ActivityPopulation)
    requires
        nodes@.len() <= u64::MAX,
    ensures
        r.places@.len() == nodes@.len(),
        forall|k: int| 0 <= k < nodes@.len() ==> places_view(r.places@)[k] == node_place(k),
        r.edges@ == activity_edges(nodes@, edges@, edges@.len() as int),
{
    let mut places: Vec<(u128, u128)> = Vec::new();
    let mut x: u128 = NODE_FIRST_X;
    let mut y: u128 = NODE_FIRST_Y;
    let mut k: usize = 0;
    while k < nodes.len()
        invariant
            k <= nodes@.len() <= u64::MAX,
            places@.len() == k,
            forall|q: int| 0 <= q < k ==> places_view(places@)[q] == node_place(q),
            (x as int, y as int) == node_place(k as int),
        decreases nodes.len() - k,
    {
        proof {
            lemma_place_bounds(k as int);
        }
        let ghost before = places@;
        places.push((x, y));
        assert forall|q: int| 0 <= q < k + 1 implies places_view(places@)[q] == node_place(q) by {
            if q < k {
                assert(places@[q] == before[q]);
            }
        }
        if x + NODE_STEP_X > NODE_ROW_END_X {
            x = NODE_FIRST_X;
            y = y + NODE_STEP_Y;
        } else {
            x = x + NODE_STEP_X;
        }
        k = k + 1;
    }
    let mut out: Vec<ActivityEdgeSlot> = Vec::new();
    let mut n: usize = 0;
    while n < edges.len()
        invariant
            n <= edges@.len(),
            out@ == activity_edges(nodes@, edges@, n as int),
        decreases edges.len() - n,
    {
        let e = edges[n];
        match (attach(nodes, e.source), attach(nodes, e.target)) {
            (Some(s), Some(t)) => {
                out.push(ActivityEdgeSlot { edge: n, source: s, target: t });
            },
            _ => {},
        }
        n = n + 1;
    }
    ActivityPopulation { places, edges: out }
}

} // verus!
