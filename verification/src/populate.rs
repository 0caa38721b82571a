//! Populating a new script diagram of a BDD-like family (BDD, requirement,
//! use case, package, parametric): which children of the diagram's scope
//! become nodes, where on the grid they go, and which relationships become
//! edges between them.

use vstd::prelude::*;
use crate::model_build::ElementId;
use crate::model_script::{
    ElementKind, RelationshipKind, bdd_family_accepts, family_accepts_spec,
    relationship_presentable_on_family, relationship_presentable_spec,
};
use crate::text::{chars_eq, chars_of};

verus! {

/// Nodes per grid row.
pub const GRID_COLUMNS: usize = 4;

/// A child of the diagram's scope element, with the parameters its node
/// presents (on a parametric diagram), in order.
#[derive(Debug, Clone)]
pub struct ScopeChild {
    pub id: ElementId,
    pub kind: ElementKind,
    pub parameters: Vec<ElementId>,
}

/// One end of a binding: the role it binds and, optionally, the parameter.
#[derive(Debug, Clone, Copy, PartialEq, Eq, Structural)]
pub struct BindingEndRecord {
    pub role: ElementId,
    pub parameter: Option<ElementId>,
}

/// A relationship of the project: its kind, its source and target elements
/// and, for a binding connector, its binding ends.
#[derive(Debug, Clone, Copy)]
pub struct RelationshipRecord {
    pub kind: RelationshipKind,
    pub source: ElementId,
    pub target: ElementId,
    pub binding: Option<(BindingEndRecord, BindingEndRecord)>,
}

/// A node of the populated diagram: the child it presents and its grid cell.
#[derive(Debug, Clone, Copy, PartialEq, Eq, Structural)]
pub struct NodePlan {
    pub child: usize,
    pub column: usize,
    pub row: usize,
}

/// An edge end: a node, or one of its parameter presentations.
#[derive(Debug, Clone, Copy, PartialEq, Eq, Structural)]
pub struct NodeEnd {
    pub node: usize,
    pub parameter: Option<usize>,
}

/// An edge of the populated diagram: the relationship it presents and its ends.
#[derive(Debug, Clone, Copy, PartialEq, Eq, Structural)]
pub struct EdgePlan {
    pub relationship: usize,
    pub source: NodeEnd,
    pub target: NodeEnd,
}

/// What populating a diagram adds.
#[derive(Debug, Clone)]
pub struct PopulationPlan {
    pub nodes: Vec<NodePlan>,
    pub edges: Vec<EdgePlan>,
}

/// The positions below `k` of the children a diagram of `family` shows, in order.
pub open spec fn shown_children(children: Seq<ScopeChild>, family: Seq<char>, k: int) -> Seq<usize>
    decreases k,
{
    if k <= 0 {
        Seq::empty()
    } else if family_accepts_spec(family, children[k - 1].kind) {
        shown_children(children, family, k - 1).push((k - 1) as usize)
    } else {
        shown_children(children, family, k - 1)
    }
}

/// The first node from `j` on that presents element `id`.
pub open spec fn node_for(children: Seq<ScopeChild>, nodes: Seq<usize>, id: ElementId, j: int) -> Option<int>
    decreases nodes.len() - j,
{
    if j < 0 || j >= nodes.len() {
        None
    } else if children[nodes[j] as int].id == id {
        Some(j)
    } else {
        node_for(children, nodes, id, j + 1)
    }
}

/// The first position from `j` on of parameter `p` among `params`.
pub open spec fn parameter_position(params: Seq<ElementId>, p: ElementId, j: int) -> Option<int>
    decreases params.len() - j,
{
    if j < 0 || j >= params.len() {
        None
    } else if params[j] == p {
        Some(j)
    } else {
        parameter_position(params, p, j + 1)
    }
}

/// The edge end of a binding end: the node presenting its role and, when it
/// binds a parameter, that parameter's presentation on the node.
pub open spec fn binding_end(children: Seq<ScopeChild>, nodes: Seq<usize>, e: BindingEndRecord) -> Option<
    NodeEnd,
> {
    match node_for(children, nodes, e.role, 0) {
        None => None,
        Some(n) => match e.parameter {
            None => Some(NodeEnd { node: n as usize, parameter: None }),
            Some(p) => match parameter_position(children[nodes[n] as int].parameters@, p, 0) {
                None => None,
                Some(i) => Some(NodeEnd { node: n as usize, parameter: Some(i as usize) }),
            },
        },
    }
}

/// The ends of the edge that presents `r` on a diagram of `family`, if both are shown.
pub open spec fn edge_ends(
    children: Seq<ScopeChild>,
    nodes: Seq<usize>,
    family: Seq<char>,
    r: RelationshipRecord,
) -> Option<(NodeEnd, NodeEnd)> {
    if family == "parametric"@ {
        match r.binding {
            None => None,
            Some((s, t)) => match (binding_end(children, nodes, s), binding_end(children, nodes, t)) {
                (Some(a), Some(b)) => Some((a, b)),
                _ => None,
            },
        }
    } else {
        match (node_for(children, nodes, r.source, 0), node_for(children, nodes, r.target, 0)) {
            (Some(a), Some(b)) => Some(
                (NodeEnd { node: a as usize, parameter: None }, NodeEnd { node: b as usize, parameter: None }),
            ),
            _ => None,
        }
    }
}

/// The edges presenting the relationships below `k`, in order.
pub open spec fn planned_edges(
    children: Seq<ScopeChild>,
    nodes: Seq<usize>,
    family: Seq<char>,
    rs: Seq<RelationshipRecord>,
    k: int,
) -> Seq<EdgePlan>
    decreases k,
{
    if k <= 0 {
        Seq::empty()
    } else {
        let rest = planned_edges(children, nodes, family, rs, k - 1);
        if relationship_presentable_spec(family, rs[k - 1].kind) {
            match edge_ends(children, nodes, family, rs[k - 1]) {
                Some((a, b)) => rest.push(EdgePlan { relationship: (k - 1) as usize, source: a, target: b }),
                None => rest,
            }
        } else {
            rest
        }
    }
}

/// A parametric diagram meets a binding connector without binding ends.
pub open spec fn binding_missing(family: Seq<char>, rs: Seq<RelationshipRecord>) -> bool {
    family == "parametric"@ && exists|k: int|
        0 <= k < rs.len() && relationship_presentable_spec(family, #[trigger] rs[k].kind) && rs[k].binding
            is None
}

/// The first node presenting element `id`.
fn find_node(children: &[ScopeChild], nodes: &Vec<NodePlan>, id: ElementId) -> (r: Option<usize>)
    requires
        forall|j: int| 0 <= j < nodes@.len() ==> #[trigger] nodes@[j].child < children@.len(),
    ensures
        match r {
            Some(n) => n < nodes@.len() && node_for(children@, nodes@.map_values(|x: NodePlan| x.child), id, 0)
                == Some(n as int),
            None => node_for(children@, nodes@.map_values(|x: NodePlan| x.child), id, 0) is None,
        },
{
    let ghost ns = nodes@.map_values(|x: NodePlan| x.child);
    let mut j: usize = 0;
    while j < nodes.len()
        invariant
            j <= nodes@.len(),
            ns == nodes@.map_values(|x: NodePlan| x.child),
            forall|y: int| 0 <= y < nodes@.len() ==> #[trigger] nodes@[y].child < children@.len(),
            node_for(children@, ns, id, 0) == node_for(children@, ns, id, j as int),
        decreases nodes.len() - j,
    {
        assert(ns[j as int] == nodes@[j as int].child);
        if children[nodes[j].child].id == id {
            return Some(j);
        }
        j = j + 1;
    }
    None
}

/// The edge end of binding end `e`.
fn find_binding_end(children: &[ScopeChild], nodes: &Vec<NodePlan>, e: BindingEndRecord) -> (r: Option<NodeEnd>)
    requires
        forall|j: int| 0 <= j < nodes@.len() ==> #[trigger] nodes@[j].child < children@.len(),
    ensures
        r == binding_end(children@, nodes@.map_values(|x: NodePlan| x.child), e),
{
    let ghost ns = nodes@.map_values(|x: NodePlan| x.child);
    match find_node(children, nodes, e.role) {
        None => None,
        Some(n) => match e.parameter {
            None => Some(NodeEnd { node: n, parameter: None }),
            Some(p) => {
                let params = &children[nodes[n].child].parameters;
                assert(ns[n as int] == nodes@[n as int].child);
                let mut i: usize = 0;
                while i < params.len()
                    invariant
                        i <= params@.len(),
                        ns == nodes@.map_values(|x: NodePlan| x.child),
                        n < nodes@.len(),
                        node_for(children@, ns, e.role, 0) == Some(n as int),
                        e.parameter == Some(p),
                        *params == children@[ns[n as int] as int].parameters,
                        parameter_position(params@, p, 0) == parameter_position(params@, p, i as int),
                    decreases params.len() - i,
                {
                    if params[i] == p {
                        return Some(NodeEnd { node: n, parameter: Some(i) });
                    }
                    i = i + 1;
                }
                None
            },
        },
    }
}

/// Plan the population of a new diagram of `family` from the children of its
/// scope element and the project's relationships: accepted children become
/// nodes on a grid of [`GRID_COLUMNS`] columns, presentable relationships with
/// both ends shown become edges.
pub fn populate_plan(children: &[ScopeChild], family: &str, relationships: &[RelationshipRecord]) -> (r:
    Result<PopulationPlan, String>)
    ensures
        match r {
            Err(m) => binding_missing(family@, relationships@) && m@
                == "BindingConnector has no semantic endpoint details"@,
            Ok(plan) => {
                let nodes = plan.nodes@.map_values(|x: NodePlan| x.child);
                &&& !binding_missing(family@, relationships@)
                &&& nodes == shown_children(children@, family@, children@.len() as int)
                &&& forall|k: int|
                    0 <= k < plan.nodes@.len() ==> (#[trigger] plan.nodes@[k]).column == k % 4
                        && plan.nodes@[k].row == k / 4
                &&& plan.edges@ == planned_edges(
                    children@,
                    nodes,
                    family@,
                    relationships@,
                    relationships@.len() as int,
                )
            },
        },
{
    let mut nodes: Vec<NodePlan> = Vec::new();
    let mut column: usize = 0;
    let mut row: usize = 0;
    let mut k: usize = 0;
    while k < children.len()
        invariant
            k <= children@.len(),
            nodes@.map_values(|x: NodePlan| x.child) == shown_children(children@, family@, k as int),
            forall|j: int| 0 <= j < nodes@.len() ==> #[trigger] nodes@[j].child < k,
            forall|j: int|
                0 <= j < nodes@.len() ==> (#[trigger] nodes@[j]).column == j % 4 && nodes@[j].row == j / 4,
            column < 4,
            nodes@.len() == 4 * row + column,
            nodes@.len() <= k,
            row <= nodes@.len(),
        decreases children.len() - k,
    {
        if bdd_family_accepts(family, children[k].kind) {
            let ghost before = nodes@;
            nodes.push(NodePlan { child: k, column, row });
            assert(nodes@.map_values(|x: NodePlan| x.child) =~= before.map_values(|x: NodePlan| x.child).push(k));
            proof {
                let j = before.len() as int;
                assert(j == 4 * row + column);
                assert(j % 4 == column as int && j / 4 == row as int) by (nonlinear_arith)
                    requires
                        j == 4 * row + column,
                        0 <= column < 4,
                        0 <= row,
                ;
            }
            if column + 1 == 4 {
                column = 0;
                row = row + 1;
            } else {
                column = column + 1;
            }
        }
        k = k + 1;
    }
    let ghost ns = nodes@.map_values(|x: NodePlan| x.child);
    let parametric = chars_eq(chars_of(family).as_slice(), chars_of("parametric").as_slice());
    let mut edges: Vec<EdgePlan> = Vec::new();
    let mut k: usize = 0;
    while k < relationships.len()
        invariant
            k <= relationships@.len(),
            ns == nodes@.map_values(|x: NodePlan| x.child),
            forall|j: int| 0 <= j < nodes@.len() ==> #[trigger] nodes@[j].child < children@.len(),
            parametric == (family@ == "parametric"@),
            edges@ == planned_edges(children@, ns, family@, relationships@, k as int),
            parametric ==> forall|x: int|
                0 <= x < k ==> relationship_presentable_spec(family@, #[trigger] relationships@[x].kind)
                    ==> relationships@[x].binding is Some,
        decreases relationships.len() - k,
    {
        let r = relationships[k];
        if relationship_presentable_on_family(family, r.kind) {
            let ends = if parametric {
                match r.binding {
                    None => {
                        return Err("BindingConnector has no semantic endpoint details".to_owned());
                    },
                    Some((s, t)) => match (find_binding_end(children, &nodes, s), find_binding_end(
                        children,
                        &nodes,
                        t,
                    )) {
                        (Some(a), Some(b)) => Some((a, b)),
                        _ => None,
                    },
                }
            } else {
                match (find_node(children, &nodes, r.source), find_node(children, &nodes, r.target)) {
                    (Some(a), Some(b)) => Some(
                        (NodeEnd { node: a, parameter: None }, NodeEnd { node: b, parameter: None }),
                    ),
                    _ => None,
                }
            };
            if let Some((a, b)) = ends {
                edges.push(EdgePlan { relationship: k, source: a, target: b });
            }
        }
        k = k + 1;
    }
    Ok(PopulationPlan { nodes, edges })
}

/// Whether a requirement diagram shows an element of `kind`: requirements,
/// test cases and the blocks that satisfy or verify them.
pub open spec fn requirement_diagram_kind(kind: ElementKind) -> bool {
    ||| kind == ElementKind::Requirement
    ||| kind == ElementKind::TestCase
    ||| kind == ElementKind::Block
    ||| kind == ElementKind::AssociationBlock
    ||| kind == ElementKind::InterfaceBlock
    ||| kind == ElementKind::ConstraintBlock
}

/// A populated requirement diagram shows exactly the scope's children of a
/// requirement-diagram kind, each once, in order.
pub proof fn lemma_requirement_diagram_shows_its_kinds(children: Seq<ScopeChild>, n: int)
    requires
        0 <= n <= children.len() <= usize::MAX,
    ensures
        forall|i: int| 0 <= i < n ==> (shown_children(children, "requirement"@, n).contains(i as usize)
            <==> requirement_diagram_kind(#[trigger] children[i].kind)),
        forall|j: int| 0 <= j < shown_children(children, "requirement"@, n).len() ==> #[trigger] shown_children(
            children, "requirement"@, n)[j] < n,
    decreases n,
{
    reveal_strlit("requirement");
    reveal_strlit("bdd");
    assert("requirement"@.len() == 11 && "bdd"@.len() == 3);
    assert("requirement"@ != "bdd"@);
    let f = "requirement"@;
    if n > 0 {
        lemma_requirement_diagram_shows_its_kinds(children, n - 1);
        let prev = shown_children(children, f, n - 1);
        let cur = shown_children(children, f, n);
        assert(family_accepts_spec(f, children[n - 1].kind) == requirement_diagram_kind(children[n - 1].kind));
        assert forall|j: int| 0 <= j < cur.len() implies #[trigger] cur[j] < n by {
            if j < prev.len() {
                assert(cur[j] == prev[j]);
            }
        }
        assert forall|i: int| 0 <= i < n implies (cur.contains(i as usize) <==> requirement_diagram_kind(
            #[trigger] children[i].kind)) by {
            if requirement_diagram_kind(children[n - 1].kind) {
                assert(cur == prev.push((n - 1) as usize));
                if i < n - 1 {
                    if cur.contains(i as usize) {
                        let w = choose|w: int| 0 <= w < cur.len() && cur[w] == i as usize;
                        if w < prev.len() {
                            assert(prev[w] == i as usize);
                        }
                    }
                    if prev.contains(i as usize) {
                        let w = choose|w: int| 0 <= w < prev.len() && prev[w] == i as usize;
                        assert(cur[w] == i as usize);
                    }
                } else {
                    assert(cur[prev.len() as int] == (n - 1) as usize);
                }
            } else {
                assert(cur == prev);
                if i == n - 1 && prev.contains(i as usize) {
                    let w = choose|w: int| 0 <= w < prev.len() && prev[w] == i as usize;
                    assert(prev[w] < n - 1);
                }
            }
        }
    }
}

} // verus!
