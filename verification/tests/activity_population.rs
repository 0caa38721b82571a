use workspace_model::activity_population::{
    activity_population, ActivityEdgeFacts, ActivityEdgeSlot, ActivityEndpoint, ActivityNodeFacts,
};

fn node(id: u128, pins: &[u128]) -> ActivityNodeFacts {
    ActivityNodeFacts { id, pins: pins.to_vec() }
}

#[test]
fn activity_nodes_fill_rows_of_four() {
    let nodes = vec![node(1, &[]), node(2, &[20, 21]), node(3, &[]), node(4, &[]), node(5, &[])];
    let p = activity_population(&nodes, &Vec::new());
    assert_eq!(p.places, vec![(100, 100), (320, 100), (540, 100), (760, 100), (100, 260)]);
    assert!(p.edges.is_empty());
}

#[test]
fn activity_edges_attach_pins_to_their_actions() {
    let nodes = vec![node(1, &[]), node(2, &[20, 21]), node(3, &[])];
    let edges = vec![
        ActivityEdgeFacts { source: ActivityEndpoint::Node(1), target: ActivityEndpoint::Pin(21) },
        ActivityEdgeFacts { source: ActivityEndpoint::Pin(99), target: ActivityEndpoint::Node(1) },
        ActivityEdgeFacts { source: ActivityEndpoint::Node(3), target: ActivityEndpoint::Node(2) },
        ActivityEdgeFacts { source: ActivityEndpoint::Node(7), target: ActivityEndpoint::Node(2) },
    ];
    let p = activity_population(&nodes, &edges);
    assert_eq!(
        p.edges,
        vec![
            ActivityEdgeSlot { edge: 0, source: 0, target: 1 },
            ActivityEdgeSlot { edge: 2, source: 2, target: 1 },
        ]
    );
}
