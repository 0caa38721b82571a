//! Connector ends in internal block diagrams: how a type-level connector end
//! is projected into the context of a nested property, which presentations a
//! connector may attach to, and the direction of item flows along a connector.

use vstd::prelude::*;
use crate::model_build::ElementId;
use crate::occurrences::{OccurrenceRange, PropertyOccurrence};
use crate::text::strs;

verus! {

/// One end of a connector: the property path leading to it, the role played
/// there and, for a port end, the port.
#[derive(Debug, Clone)]
pub struct ConnectorEnd {
    pub property_path: Vec<ElementId>,
    pub role_id: ElementId,
    pub port_id: Option<ElementId>,
}

/// The content of a connector end.
pub struct EndView {
    pub path: Seq<ElementId>,
    pub role: ElementId,
    pub port: Option<ElementId>,
}

pub open spec fn end_view(e: ConnectorEnd) -> EndView {
    EndView { path: e.property_path@, role: e.role_id, port: e.port_id }
}

/// An end defined in a nested classifier, seen from the context reached by
/// `prefix`: the prefix goes in front of its path, and a port end is played by
/// the last property of the extended path.
pub open spec fn project_end_spec(prefix: Seq<ElementId>, e: EndView) -> EndView {
    if prefix.len() == 0 {
        e
    } else {
        let path = prefix + e.path;
        EndView { path, role: if e.port is Some { path.last() } else { e.role }, port: e.port }
    }
}

/// Project a type-level connector end into the context reached by `prefix`.
pub fn project_end(prefix: &[ElementId], end: &ConnectorEnd) -> (r: ConnectorEnd)
    ensures
        end_view(r) == project_end_spec(prefix@, end_view(*end)),
{
    let mut path: Vec<ElementId> = Vec::new();
    let mut k: usize = 0;
    while k < prefix.len()
        invariant
            k <= prefix@.len(),
            path@ == prefix@.take(k as int),
        decreases prefix.len() - k,
    {
        assert(prefix@.take(k + 1) =~= prefix@.take(k as int).push(prefix@[k as int]));
        path.push(prefix[k]);
        k = k + 1;
    }
    assert(prefix@.take(prefix@.len() as int) =~= prefix@);
    if prefix.len() == 0 {
        let mut same: Vec<ElementId> = Vec::new();
        let mut j: usize = 0;
        while j < end.property_path.len()
            invariant
                j <= end.property_path@.len(),
                same@ == end.property_path@.take(j as int),
            decreases end.property_path.len() - j,
        {
            assert(end.property_path@.take(j + 1) =~= end.property_path@.take(j as int).push(
                end.property_path@[j as int],
            ));
            same.push(end.property_path[j]);
            j = j + 1;
        }
        assert(end.property_path@.take(end.property_path@.len() as int) =~= end.property_path@);
        return ConnectorEnd { property_path: same, role_id: end.role_id, port_id: end.port_id };
    }
    let mut j: usize = 0;
    while j < end.property_path.len()
        invariant
            j <= end.property_path@.len(),
            path@ == prefix@ + end.property_path@.take(j as int),
        decreases end.property_path.len() - j,
    {
        assert(end.property_path@.take(j + 1) =~= end.property_path@.take(j as int).push(
            end.property_path@[j as int],
        ));
        assert(prefix@ + end.property_path@.take(j + 1) =~= (prefix@ + end.property_path@.take(
            j as int,
        )).push(end.property_path@[j as int]));
        path.push(end.property_path[j]);
        j = j + 1;
    }
    assert(end.property_path@.take(end.property_path@.len() as int) =~= end.property_path@);
    let role_id = if end.port_id.is_some() {
        path[path.len() - 1]
    } else {
        end.role_id
    };
    ConnectorEnd { property_path: path, role_id, port_id: end.port_id }
}

/// Projecting into a context and then into an enclosing context is projecting
/// once through the joined path.
pub proof fn lemma_project_end_composes(p: Seq<ElementId>, q: Seq<ElementId>, e: EndView)
    ensures
        project_end_spec(p, project_end_spec(q, e)) == project_end_spec(p + q, e),
{
    if q.len() == 0 {
        assert(p + q =~= p);
    } else if p.len() == 0 {
        assert(p + q =~= q);
    } else {
        assert(p + (q + e.path) =~= (p + q) + e.path);
    }
}

/// Projection keeps the port, and the end's own path is the tail of the new one.
pub proof fn lemma_project_end_keeps_tail(prefix: Seq<ElementId>, e: EndView)
    ensures
        project_end_spec(prefix, e).port == e.port,
        project_end_spec(prefix, e).path.skip(prefix.len() as int) == e.path,
        e.port is None ==> project_end_spec(prefix, e).role == e.role,
{
    if prefix.len() == 0 {
        assert(e.path.skip(0) =~= e.path);
    } else {
        assert((prefix + e.path).skip(prefix.len() as int) =~= e.path);
    }
}

/// Whether two connector ends are the same end.
pub fn same_end(a: &ConnectorEnd, b: &ConnectorEnd) -> (r: bool)
    ensures
        r == (end_view(*a) == end_view(*b)),
{
    if a.role_id != b.role_id || a.port_id != b.port_id || a.property_path.len()
        != b.property_path.len() {
        return false;
    }
    let mut k: usize = 0;
    while k < a.property_path.len()
        invariant
            k <= a.property_path@.len() == b.property_path@.len(),
            forall|j: int| 0 <= j < k ==> a.property_path@[j] == b.property_path@[j],
        decreases a.property_path.len() - k,
    {
        if a.property_path[k] != b.property_path[k] {
            return false;
        }
        k = k + 1;
    }
    assert(a.property_path@ =~= b.property_path@);
    true
}

/// A connector as an internal block diagram presents it: which relationship,
/// in which nested context and occurrences, between which presentations.
#[derive(Debug, Clone)]
pub struct IbdConnectorPresentation {
    pub id: String,
    pub relationship_id: String,
    pub source_presentation_id: String,
    pub target_presentation_id: String,
    pub context_path: Vec<String>,
    pub context_occurrence_path: Vec<Option<OccurrenceRange>>,
}

/// `e` joins the presentations `a` and `b`, in either direction.
pub open spec fn joins(e: IbdConnectorPresentation, a: Seq<char>, b: Seq<char>) -> bool {
    (e.source_presentation_id@ == a && e.target_presentation_id@ == b) || (e.source_presentation_id@
        == b && e.target_presentation_id@ == a)
}

/// How many of `edges` join `a` and `b`.
pub open spec fn joining_count(edges: Seq<IbdConnectorPresentation>, a: Seq<char>, b: Seq<char>) -> nat
    decreases edges.len(),
{
    if edges.len() == 0 {
        0
    } else {
        joining_count(edges.drop_last(), a, b) + if joins(edges.last(), a, b) {
            1nat
        } else {
            0nat
        }
    }
}

/// The routing lane of a new connector between `source_id` and `target_id`:
/// the number of connectors already joining the two, either way round.
pub fn lane_index(connectors: &[IbdConnectorPresentation], source_id: &String, target_id: &String) -> (n: usize)
    ensures
        n == joining_count(connectors@, source_id@, target_id@),
{
    let mut n: usize = 0;
    let mut k: usize = 0;
    while k < connectors.len()
        invariant
            k <= connectors@.len(),
            n == joining_count(connectors@.take(k as int), source_id@, target_id@),
            n <= k,
        decreases connectors.len() - k,
    {
        assert(connectors@.take(k + 1).drop_last() =~= connectors@.take(k as int));
        let e = &connectors[k];
        if (e.source_presentation_id == *source_id && e.target_presentation_id == *target_id) || (
        e.source_presentation_id == *target_id && e.target_presentation_id == *source_id) {
            n = n + 1;
        }
        k = k + 1;
    }
    assert(connectors@.take(connectors@.len() as int) =~= connectors@);
    n
}

/// A presentation a connector end may attach to, with its display label.
#[derive(Debug, Clone)]
pub struct ConnectorEndpointChoice {
    pub presentation_id: String,
    pub label: String,
}

/// The presentation identities of one property: itself, then its ports.
pub open spec fn property_endpoint_ids(p: PropertyOccurrence) -> Seq<Seq<char>> {
    seq![p.id@] + strs(p.port_ids@)
}

/// Presentation identities of the properties in order, each followed by its ports.
pub open spec fn properties_endpoint_ids(ps: Seq<PropertyOccurrence>) -> Seq<Seq<char>>
    decreases ps.len(),
{
    if ps.len() == 0 {
        Seq::empty()
    } else {
        properties_endpoint_ids(ps.drop_last()) + property_endpoint_ids(ps.last())
    }
}

fn push_strings(out: &mut Vec<String>, v: &[String])
    ensures
        strs(final(out)@) == strs(old(out)@) + strs(v@),
{
    let ghost start = strs(out@);
    let mut k: usize = 0;
    while k < v.len()
        invariant
            k <= v@.len(),
            strs(out@) == start + strs(v@).take(k as int),
        decreases v.len() - k,
    {
        let ghost before = out@;
        out.push(v[k].clone());
        assert(out@ =~= before.push(out@.last()));
        assert(strs(out@) =~= strs(before).push(v@[k as int]@));
        assert(strs(v@).take(k + 1) =~= strs(v@).take(k as int).push(v@[k as int]@));
        k = k + 1;
    }
    assert(strs(v@).take(v@.len() as int) =~= strs(v@));
}

/// Every presentation a connector end can attach to: the boundary ports, then
/// each property followed by its ports.
pub fn endpoint_ids(boundary_port_ids: &[String], properties: &[PropertyOccurrence]) -> (r: Vec<
    String,
>)
    ensures
        strs(r@) == strs(boundary_port_ids@) + properties_endpoint_ids(properties@),
{
    let mut out: Vec<String> = Vec::new();
    push_strings(&mut out, boundary_port_ids);
    assert(strs(out@) =~= strs(boundary_port_ids@));
    let mut k: usize = 0;
    while k < properties.len()
        invariant
            k <= properties@.len(),
            strs(out@) == strs(boundary_port_ids@) + properties_endpoint_ids(
                properties@.take(k as int),
            ),
        decreases properties.len() - k,
    {
        let p = &properties[k];
        let ghost before = strs(out@);
        out.push(p.id.clone());
        assert(strs(out@) =~= before.push(p.id@));
        push_strings(&mut out, p.port_ids.as_slice());
        assert(properties@.take(k + 1).drop_last() =~= properties@.take(k as int));
        assert(properties@.take(k + 1).last() == *p);
        assert(strs(out@) =~= strs(boundary_port_ids@) + properties_endpoint_ids(
            properties@.take(k + 1),
        ));
        k = k + 1;
    }
    assert(properties@.take(properties@.len() as int) =~= properties@);
    out
}

} // verus!
