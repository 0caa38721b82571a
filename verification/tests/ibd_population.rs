use workspace_model::ibd_population::{
    ibd_population, ConnectorEndRecord, ConnectorRecord, ContextFeature, EndSlot,
};
use workspace_model::model_build::ElementId;
use workspace_model::model_script::{ElementKind, RelationshipKind};

fn feature(id: u128, kind: ElementKind, type_children: &[(u128, ElementKind)]) -> ContextFeature {
    ContextFeature {
        id: ElementId(id),
        kind,
        type_children: type_children.iter().map(|(c, k)| (ElementId(*c), *k)).collect(),
    }
}

fn end(path: &[u128], role: u128, port: Option<u128>) -> ConnectorEndRecord {
    ConnectorEndRecord {
        property_path: path.iter().map(|p| ElementId(*p)).collect(),
        role: ElementId(role),
        port: port.map(ElementId),
    }
}

fn connector(context: u128, source: ConnectorEndRecord, target: ConnectorEndRecord) -> ConnectorRecord {
    ConnectorRecord { kind: RelationshipKind::Connector, context: Some(ElementId(context)), source, target }
}

#[test]
fn ibd_boxes_wrap_rows_and_ports_alternate_sides() {
    let features = vec![
        feature(10, ElementKind::PartProperty, &[]),
        feature(11, ElementKind::ReferenceProperty, &[(90, ElementKind::ProxyPort), (91, ElementKind::ValueProperty)]),
        feature(12, ElementKind::PartProperty, &[(92, ElementKind::FullPort), (93, ElementKind::ProxyPort), (94, ElementKind::ProxyPort)]),
        feature(13, ElementKind::ProxyPort, &[]),
        feature(14, ElementKind::ValueProperty, &[]),
        feature(15, ElementKind::PartProperty, &[]),
    ];
    let p = ibd_population(ElementId(1), &features, &Vec::new());
    let places: Vec<(usize, u128, u128, u128)> = p.boxes.iter().map(|b| (b.feature, b.x, b.y, b.height)).collect();
    assert_eq!(places, vec![(0, 120, 120, 100), (1, 360, 120, 100), (2, 600, 120, 108), (5, 120, 308, 100)]);
    let ports: Vec<(u128, bool, usize)> = p.boxes[2].ports.iter().map(|s| (s.port.0, s.right_side, s.row)).collect();
    assert_eq!(ports, vec![(92, true, 0), (93, false, 0), (94, true, 1)]);
    assert_eq!(p.boxes[1].ports.len(), 1);
    assert_eq!(p.boundary_ports, vec![3]);
    assert!(p.connectors.is_empty());
}

#[test]
fn ibd_connectors_of_the_context_join_presented_ends() {
    let features = vec![
        feature(10, ElementKind::PartProperty, &[(90, ElementKind::ProxyPort)]),
        feature(11, ElementKind::PartProperty, &[]),
        feature(13, ElementKind::ProxyPort, &[]),
    ];
    let relationships = vec![
        connector(1, end(&[10], 10, Some(90)), end(&[], 13, Some(13))),
        connector(2, end(&[10], 10, None), end(&[11], 11, None)),
        connector(1, end(&[11], 11, None), end(&[10], 10, None)),
        connector(1, end(&[11], 11, Some(90)), end(&[10], 10, None)),
        ConnectorRecord { kind: RelationshipKind::ItemFlow, context: Some(ElementId(1)), source: end(&[10], 10, None), target: end(&[11], 11, None) },
    ];
    let p = ibd_population(ElementId(1), &features, &relationships);
    let edges: Vec<(usize, EndSlot, EndSlot)> = p.connectors.iter().map(|c| (c.relationship, c.source, c.target)).collect();
    assert_eq!(
        edges,
        vec![
            (0, EndSlot::Port(0, 0), EndSlot::Boundary(0)),
            (2, EndSlot::Property(1), EndSlot::Property(0)),
        ]
    );
}
