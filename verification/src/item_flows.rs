//! Item flows along connectors: their direction relative to the connector,
//! and the records the specification editor and the notation overlay show.

use vstd::prelude::*;
use crate::connectors::{ConnectorEnd, EndView, end_view, same_end};
use crate::ids::{element_id_text, uuid_text_spec};
use crate::model_build::ElementId;
use crate::text::{strs, lemma_text_less_irreflexive, lemma_text_less_total, lemma_text_less_transitive, text_before, text_less};

verus! {

/// Whether an item flow runs from the connector's source end to its target
/// end or the other way.
#[derive(Debug, Clone, Copy, PartialEq, Eq, Structural)]
pub enum ItemFlowDirection {
    Forward,
    Reverse,
}

/// An edit of an item flow's name, direction and conveyed items.
#[derive(Debug, Clone)]
pub struct ItemFlowSpecificationEdit {
    pub name: String,
    pub direction: ItemFlowDirection,
    pub conveyed_item_ids: Vec<String>,
}

/// A classifier that an item flow may convey.
#[derive(Debug, Clone)]
pub struct ConveyedClassifierChoice {
    pub id: String,
    pub label: String,
}

/// What the item flow specification editor shows.
#[derive(Debug)]
pub struct ItemFlowSpecification {
    pub name: String,
    pub direction: ItemFlowDirection,
    pub conveyed_item_ids: Vec<String>,
    pub source_label: String,
    pub target_label: String,
    pub classifiers: Vec<ConveyedClassifierChoice>,
}

/// What the notation overlay shows of one item flow.
#[derive(Debug, Clone)]
pub struct ItemFlowNotationSnapshot {
    pub relationship_id: String,
    pub connector_id: String,
    pub name: String,
    pub direction: ItemFlowDirection,
    pub conveyed_item_ids: Vec<String>,
    pub conveyed_item_names: Vec<String>,
}

/// A flow is forward when it starts at the connector's source end.
pub open spec fn direction_spec(flow_source: EndView, connector_source: EndView) -> ItemFlowDirection {
    if flow_source == connector_source {
        ItemFlowDirection::Forward
    } else {
        ItemFlowDirection::Reverse
    }
}

/// The direction of a flow that starts at `flow_source` along a connector
/// whose source end is `connector_source`.
pub fn item_flow_direction(flow_source: &ConnectorEnd, connector_source: &ConnectorEnd) -> (d:
    ItemFlowDirection)
    ensures
        d == direction_spec(end_view(*flow_source), end_view(*connector_source)),
{
    if same_end(flow_source, connector_source) {
        ItemFlowDirection::Forward
    } else {
        ItemFlowDirection::Reverse
    }
}

/// The (source, target) ends of a flow in `direction` along a connector.
pub open spec fn flow_ends_spec(
    direction: ItemFlowDirection,
    connector_source: EndView,
    connector_target: EndView,
) -> (EndView, EndView) {
    match direction {
        ItemFlowDirection::Forward => (connector_source, connector_target),
        ItemFlowDirection::Reverse => (connector_target, connector_source),
    }
}

/// The ends an item flow edited to `direction` gets: the connector's ends, in
/// that order or reversed.
pub fn item_flow_ends(
    direction: ItemFlowDirection,
    connector_source: &ConnectorEnd,
    connector_target: &ConnectorEnd,
) -> (r: (ConnectorEnd, ConnectorEnd))
    ensures
        (end_view(r.0), end_view(r.1)) == flow_ends_spec(
            direction,
            end_view(*connector_source),
            end_view(*connector_target),
        ),
{
    let s = copy_end(connector_source);
    let t = copy_end(connector_target);
    match direction {
        ItemFlowDirection::Forward => (s, t),
        ItemFlowDirection::Reverse => (t, s),
    }
}

fn copy_end(e: &ConnectorEnd) -> (r: ConnectorEnd)
    ensures
        end_view(r) == end_view(*e),
{
    let mut path = Vec::new();
    let mut k: usize = 0;
    while k < e.property_path.len()
        invariant
            k <= e.property_path@.len(),
            path@ == e.property_path@.take(k as int),
        decreases e.property_path.len() - k,
    {
        assert(e.property_path@.take(k + 1) =~= e.property_path@.take(k as int).push(
            e.property_path@[k as int],
        ));
        path.push(e.property_path[k]);
        k = k + 1;
    }
    assert(e.property_path@.take(e.property_path@.len() as int) =~= e.property_path@);
    ConnectorEnd { property_path: path, role_id: e.role_id, port_id: e.port_id }
}

/// Editing a flow to a direction and reading its direction back gives that
/// direction, on a connector whose two ends differ.
pub proof fn lemma_edited_direction_reads_back(
    direction: ItemFlowDirection,
    connector_source: EndView,
    connector_target: EndView,
)
    requires
        connector_source != connector_target,
    ensures
        direction_spec(
            flow_ends_spec(direction, connector_source, connector_target).0,
            connector_source,
        ) == direction,
{
}

/// Reversing a flow twice gives back its ends.
pub proof fn lemma_reverse_twice(connector_source: EndView, connector_target: EndView)
    ensures
        ({
            let r = flow_ends_spec(ItemFlowDirection::Reverse, connector_source, connector_target);
            flow_ends_spec(ItemFlowDirection::Reverse, r.0, r.1) == flow_ends_spec(
                ItemFlowDirection::Forward,
                connector_source,
                connector_target,
            )
        }),
{
}

/// What the project records of one item flow: its relationship, the connector
/// that realizes it, the end it starts from, that connector's source end and
/// the conveyed items with their names.
#[derive(Debug, Clone)]
pub struct ItemFlowRecord {
    pub relationship_id: ElementId,
    pub connector_id: ElementId,
    pub name: String,
    pub flow_source: ConnectorEnd,
    pub connector_source: ConnectorEnd,
    pub conveyed_items: Vec<(ElementId, String)>,
}

/// `s` is the notation snapshot of the flow `r`.
pub open spec fn snapshot_of(r: ItemFlowRecord, s: ItemFlowNotationSnapshot) -> bool {
    &&& s.relationship_id@ == uuid_text_spec(r.relationship_id.0)
    &&& s.connector_id@ == uuid_text_spec(r.connector_id.0)
    &&& s.name@ == r.name@
    &&& s.direction == direction_spec(end_view(r.flow_source), end_view(r.connector_source))
    &&& strs(s.conveyed_item_ids@) == r.conveyed_items@.map_values(
        |x: (ElementId, String)| uuid_text_spec(x.0.0),
    )
    &&& strs(s.conveyed_item_names@) == r.conveyed_items@.map_values(|x: (ElementId, String)| x.1@)
}

/// `order` lists each of `0..n` exactly once.
pub open spec fn is_permutation(order: Seq<int>, n: int) -> bool {
    &&& order.len() == n
    &&& forall|k: int| 0 <= k < n ==> 0 <= #[trigger] order[k] < n
    &&& forall|a: int, b: int| 0 <= a < b < n ==> order[a] != order[b]
}

/// The notation snapshot of one item flow.
fn flow_snapshot(r: &ItemFlowRecord) -> (s: ItemFlowNotationSnapshot)
    ensures
        snapshot_of(*r, s),
{
    let mut ids: Vec<String> = Vec::new();
    let mut names: Vec<String> = Vec::new();
    let mut k: usize = 0;
    while k < r.conveyed_items.len()
        invariant
            k <= r.conveyed_items@.len(),
            ids@.len() == k,
            names@.len() == k,
            forall|j: int|
                0 <= j < k ==> (#[trigger] ids@[j])@ == uuid_text_spec((r.conveyed_items@[j].0).0),
            forall|j: int| 0 <= j < k ==> (#[trigger] names@[j])@ == r.conveyed_items@[j].1@,
        decreases r.conveyed_items.len() - k,
    {
        ids.push(element_id_text(r.conveyed_items[k].0));
        names.push(r.conveyed_items[k].1.clone());
        k = k + 1;
    }
    let snap = ItemFlowNotationSnapshot {
        relationship_id: element_id_text(r.relationship_id),
        connector_id: element_id_text(r.connector_id),
        name: r.name.clone(),
        direction: item_flow_direction(&r.flow_source, &r.connector_source),
        conveyed_item_ids: ids,
        conveyed_item_names: names,
    };
    assert(strs(snap.conveyed_item_ids@) =~= r.conveyed_items@.map_values(
        |x: (ElementId, String)| uuid_text_spec(x.0.0),
    ));
    assert(strs(snap.conveyed_item_names@) =~= r.conveyed_items@.map_values(
        |x: (ElementId, String)| x.1@,
    ));
    snap
}

/// The notation overlay's records: one snapshot per item flow, ordered by
/// relationship identity text; flows with the same identity text keep their
/// relative order.
pub fn notation(flows: &Vec<ItemFlowRecord>) -> (r: Vec<ItemFlowNotationSnapshot>)
    ensures
        r@.len() == flows@.len(),
        exists|order: Seq<int>|
            is_permutation(order, flows@.len() as int) && (forall|k: int|
                0 <= k < flows@.len() ==> snapshot_of(flows@[#[trigger] order[k]], r@[k]))
                && forall|a: int, b: int|
                0 <= a < b < r@.len() && r@[a].relationship_id@ == r@[b].relationship_id@ ==> order[a]
                    < order[b],
        forall|a: int, b: int|
            0 <= a < b < r@.len() ==> !text_less(r@[b].relationship_id@, r@[a].relationship_id@),
{
    let n: usize = flows.len();
    let mut out: Vec<ItemFlowNotationSnapshot> = Vec::new();
    let ghost mut order: Seq<int> = Seq::empty();
    let mut i: usize = 0;
    while i < n
        invariant
            n == flows@.len(),
            i <= n,
            out@.len() == i,
            order.len() == i,
            forall|k: int| 0 <= k < i ==> 0 <= #[trigger] order[k] < i,
            forall|a: int, b: int| 0 <= a < b < i ==> order[a] != order[b],
            forall|k: int| 0 <= k < i ==> snapshot_of(flows@[#[trigger] order[k]], out@[k]),
            forall|a: int, b: int|
                0 <= a < b < i ==> !text_less(out@[b].relationship_id@, out@[a].relationship_id@),
            forall|a: int, b: int|
                0 <= a < b < i && out@[a].relationship_id@ == out@[b].relationship_id@ ==> order[a]
                    < order[b],
        decreases n - i,
    {
        let s = flow_snapshot(&flows[i]);
        let mut p: usize = 0;
        while p < out.len()
            invariant
                p <= out@.len(),
                forall|q: int| 0 <= q < p ==> !text_less(s.relationship_id@, (#[trigger] out@[q]).relationship_id@),
            ensures
                p <= out@.len(),
                forall|q: int| 0 <= q < p ==> !text_less(s.relationship_id@, (#[trigger] out@[q]).relationship_id@),
                p < out@.len() ==> text_less(s.relationship_id@, out@[p as int].relationship_id@),
            decreases out.len() - p,
        {
            if text_before(s.relationship_id.as_str(), out[p].relationship_id.as_str()) {
                break;
            }
            p = p + 1;
        }
        let ghost old_out = out@;
        let ghost old_order = order;
        proof {
            assert forall|q: int| p <= q < old_out.len() implies text_less(
                s.relationship_id@,
                (#[trigger] old_out[q]).relationship_id@,
            ) by {
                if q > p && !text_less(s.relationship_id@, old_out[q].relationship_id@) {
                    let x = old_out[q].relationship_id@;
                    let y = old_out[p as int].relationship_id@;
                    assert(text_less(s.relationship_id@, y));
                    assert(!text_less(x, y));
                    if x != s.relationship_id@ {
                        lemma_text_less_total(x, s.relationship_id@);
                        lemma_text_less_transitive(x, s.relationship_id@, y);
                    }
                }
            }
        }
        out.insert(p, s);
        proof {
            order = old_order.insert(p as int, i as int);
            assert forall|a: int, b: int|
                0 <= a < b < i + 1 implies !text_less(out@[b].relationship_id@, out@[a].relationship_id@) by {
                if a < p && b == p {
                } else if a == p && b > p {
                    let x = out@[b].relationship_id@;
                    if text_less(x, s.relationship_id@) {
                        lemma_text_less_transitive(x, s.relationship_id@, x);
                        lemma_text_less_irreflexive(x);
                    }
                }
            }
            assert forall|a: int, b: int|
                0 <= a < b < i + 1 && out@[a].relationship_id@ == out@[b].relationship_id@ implies order[a]
                    < order[b] by {
                if a == p {
                    assert(out@[b] == old_out[b - 1]);
                    lemma_text_less_irreflexive(s.relationship_id@);
                } else if b == p {
                    assert(out@[a] == old_out[a]);
                } else if a < p && b < p {
                    assert(out@[a] == old_out[a] && out@[b] == old_out[b]);
                } else if a < p {
                    assert(out@[a] == old_out[a] && out@[b] == old_out[b - 1]);
                } else {
                    assert(out@[a] == old_out[a - 1] && out@[b] == old_out[b - 1]);
                }
            }
        }
        i = i + 1;
    }
    proof {
        assert(is_permutation(order, n as int));
    }
    out
}

} // verus!
