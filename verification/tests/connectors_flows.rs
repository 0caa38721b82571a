use workspace_model::connectors::{
    endpoint_ids, lane_index, project_end, same_end, ConnectorEnd, IbdConnectorPresentation,
};
use workspace_model::ids::element_id_text;
use workspace_model::item_flows::{
    item_flow_direction, item_flow_ends, notation, ItemFlowDirection, ItemFlowRecord,
};
use workspace_model::model_build::ElementId;
use workspace_model::occurrences::{
    endpoint_matches_context, endpoint_property, endpoint_visible, OccurrenceRange,
    PropertyOccurrence,
};

fn id(n: u128) -> ElementId {
    ElementId(n)
}

fn end(path: &[u128], role: u128, port: Option<u128>) -> ConnectorEnd {
    ConnectorEnd { property_path: path.iter().map(|&n| id(n)).collect(), role_id: id(role), port_id: port.map(id) }
}

#[test]
fn projected_ends_gain_the_context_prefix() {
    let role_end = end(&[], 5, None);
    let p = project_end(&[id(1), id(2)], &role_end);
    assert!(same_end(&p, &end(&[1, 2], 5, None)));
    let port_end = end(&[7], 7, Some(9));
    let p = project_end(&[id(1)], &port_end);
    assert!(same_end(&p, &end(&[1, 7], 7, Some(9))));
    let boundary = end(&[], 3, Some(4));
    assert!(same_end(&project_end(&[id(8)], &boundary), &end(&[8], 8, Some(4))));
    assert!(same_end(&project_end(&[], &port_end), &port_end));
}

#[test]
fn flow_direction_follows_the_flow_source_not_end_order() {
    let s = end(&[1], 1, Some(10));
    let t = end(&[2], 2, Some(20));
    assert_eq!(item_flow_direction(&s, &s), ItemFlowDirection::Forward);
    assert_eq!(item_flow_direction(&t, &s), ItemFlowDirection::Reverse);
    let (a, b) = item_flow_ends(ItemFlowDirection::Reverse, &s, &t);
    assert!(same_end(&a, &t) && same_end(&b, &s));
    assert_eq!(item_flow_direction(&a, &s), ItemFlowDirection::Reverse);
    let (a, b) = item_flow_ends(ItemFlowDirection::Forward, &s, &t);
    assert!(same_end(&a, &s) && same_end(&b, &t));
}

fn record(rel: u128, name: &str, forward: bool, items: &[(u128, &str)]) -> ItemFlowRecord {
    let source = end(&[1], 1, Some(10));
    let target = end(&[2], 2, Some(20));
    ItemFlowRecord {
        relationship_id: id(rel),
        connector_id: id(500),
        name: name.into(),
        flow_source: if forward { source.clone() } else { target },
        connector_source: source,
        conveyed_items: items.iter().map(|&(n, s)| (id(n), s.to_string())).collect(),
    }
}

#[test]
fn notation_orders_flows_and_keeps_directions() {
    let flows = vec![
        record(0x30, "Return data", false, &[(0x99, "Packet")]),
        record(0x10, "Command", true, &[]),
        record(0x20, "Power", true, &[(0x98, "Current"), (0x97, "Voltage")]),
    ];
    let shown = notation(&flows);
    let order: Vec<&str> = shown.iter().map(|s| s.name.as_str()).collect();
    assert_eq!(order, vec!["Command", "Power", "Return data"]);
    assert_eq!(shown[0].relationship_id, element_id_text(id(0x10)));
    assert_eq!(shown[0].connector_id, element_id_text(id(500)));
    assert_eq!(shown[0].direction, ItemFlowDirection::Forward);
    assert_eq!(shown[2].direction, ItemFlowDirection::Reverse);
    assert_eq!(shown[1].conveyed_item_names, vec!["Current", "Voltage"]);
    assert_eq!(shown[1].conveyed_item_ids, vec![element_id_text(id(0x98)), element_id_text(id(0x97))]);
    assert!(notation(&Vec::new()).is_empty());
}

#[test]
fn notation_keeps_flows_of_one_relationship_in_their_order() {
    let flows = vec![
        record(0x20, "second", true, &[]),
        record(0x10, "first a", true, &[]),
        record(0x20, "second b", false, &[]),
        record(0x10, "first b", false, &[]),
    ];
    let order: Vec<String> = notation(&flows).into_iter().map(|s| s.name).collect();
    assert_eq!(order, vec!["first a", "first b", "second", "second b"]);
}

fn occurrence(pid: &str, path: &[&str], ranges: Vec<Option<OccurrenceRange>>, ports: &[&str]) -> PropertyOccurrence {
    PropertyOccurrence {
        id: pid.into(),
        property_path: path.iter().map(|s| s.to_string()).collect(),
        occurrence_path: ranges,
        occurrence_name: None,
        collapsed: false,
        port_ids: ports.iter().map(|s| s.to_string()).collect(),
    }
}

#[test]
fn endpoints_and_their_contexts() {
    let r = Some(OccurrenceRange { first: 2, count: 1 });
    let mut ps = vec![
        occurrence("engine", &["E"], vec![r], &["engine-port"]),
        occurrence("piston", &["E", "P"], vec![r, None], &[]),
    ];
    let all = endpoint_ids(&["boundary".to_string()], &ps);
    assert_eq!(all, vec!["boundary", "engine", "engine-port", "piston"]);
    assert_eq!(endpoint_property(&ps, &"engine-port".to_string()), Some(0));
    assert_eq!(endpoint_property(&ps, &"nothing".to_string()), None);
    assert!(endpoint_matches_context(&ps, &"piston".to_string(), &[r]));
    assert!(!endpoint_matches_context(&ps, &"piston".to_string(), &[None]));
    assert!(endpoint_matches_context(&ps, &"unknown".to_string(), &[None, None]));
    assert!(!endpoint_matches_context(&ps, &"unknown".to_string(), &[r]));
    let boundary = vec!["boundary".to_string()];
    assert!(endpoint_visible(&boundary, &ps, &"boundary".to_string()));
    assert!(endpoint_visible(&boundary, &ps, &"piston".to_string()));
    ps[0].collapsed = true;
    assert!(!endpoint_visible(&boundary, &ps, &"piston".to_string()));
    assert!(endpoint_visible(&boundary, &ps, &"engine-port".to_string()));
}

#[test]
fn routing_lanes_count_parallel_connectors_either_way() {
    let edge = |id: &str, s: &str, t: &str| IbdConnectorPresentation {
        id: id.into(),
        relationship_id: "r".into(),
        source_presentation_id: s.into(),
        target_presentation_id: t.into(),
        context_path: Vec::new(),
        context_occurrence_path: Vec::new(),
    };
    let edges = vec![edge("1", "a", "b"), edge("2", "b", "a"), edge("3", "a", "c"), edge("4", "a", "b")];
    assert_eq!(lane_index(&edges, &"a".to_string(), &"b".to_string()), 3);
    assert_eq!(lane_index(&edges, &"c".to_string(), &"a".to_string()), 1);
    assert_eq!(lane_index(&edges, &"b".to_string(), &"c".to_string()), 0);
}

#[test]
fn notation_preserves_opposite_flow_identities_and_validates_endpoints() {
    // Two flows realize one connector in opposite directions.
    let flows = vec![record(0x41, "out", true, &[(0x90, "Block")]), record(0x42, "back", false, &[(0x90, "Block")])];
    let rows = notation(&flows);
    assert_eq!(rows.len(), 2);
    assert_ne!(rows[0].relationship_id, rows[1].relationship_id);
    assert_eq!(rows[0].connector_id, rows[1].connector_id);
    assert_eq!(rows[0].conveyed_item_ids, rows[1].conveyed_item_ids);
    assert!(rows.iter().any(|row| row.direction == ItemFlowDirection::Forward));
    assert!(rows.iter().any(|row| row.direction == ItemFlowDirection::Reverse));
}
