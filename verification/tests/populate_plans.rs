use workspace_model::model_build::ElementId;
use workspace_model::model_script::{ElementKind, RelationshipKind};
use workspace_model::populate::{
    populate_plan, BindingEndRecord, EdgePlan, NodeEnd, RelationshipRecord, ScopeChild,
};

fn child(n: u128, kind: ElementKind, parameters: &[u128]) -> ScopeChild {
    ScopeChild { id: ElementId(n), kind, parameters: parameters.iter().map(|&p| ElementId(p)).collect() }
}

fn rel(kind: RelationshipKind, s: u128, t: u128) -> RelationshipRecord {
    RelationshipRecord { kind, source: ElementId(s), target: ElementId(t), binding: None }
}

fn end(node: usize, parameter: Option<usize>) -> NodeEnd {
    NodeEnd { node, parameter }
}

#[test]
fn bdd_population_places_blocks_on_a_four_column_grid() {
    let children = vec![
        child(1, ElementKind::Block, &[]),
        child(2, ElementKind::PartProperty, &[]),
        child(3, ElementKind::Block, &[]),
        child(4, ElementKind::Requirement, &[]),
        child(5, ElementKind::Block, &[]),
        child(6, ElementKind::Block, &[]),
    ];
    let relationships = vec![
        rel(RelationshipKind::Association, 1, 3),
        rel(RelationshipKind::Connector, 1, 3),
        rel(RelationshipKind::Generalization, 1, 99),
        rel(RelationshipKind::Dependency, 5, 1),
    ];
    let plan = populate_plan(&children, "bdd", &relationships).unwrap();
    let cells: Vec<(usize, usize, usize)> = plan.nodes.iter().map(|n| (n.child, n.column, n.row)).collect();
    assert_eq!(cells, vec![(0, 0, 0), (2, 1, 0), (3, 2, 0), (4, 3, 0), (5, 0, 1)]);
    assert_eq!(
        plan.edges,
        vec![
            EdgePlan { relationship: 0, source: end(0, None), target: end(1, None) },
            EdgePlan { relationship: 3, source: end(3, None), target: end(0, None) },
        ]
    );
    let use_case = populate_plan(&children, "use-case", &relationships).unwrap();
    assert!(use_case.nodes.is_empty() && use_case.edges.is_empty());
}

#[test]
fn parametric_population_binds_parameter_presentations() {
    let children = vec![
        child(10, ElementKind::ConstraintProperty, &[20, 21]),
        child(11, ElementKind::ValueProperty, &[]),
        child(12, ElementKind::Block, &[]),
    ];
    let binding = |role: u128, target_role: u128, parameter: Option<u128>| RelationshipRecord {
        kind: RelationshipKind::BindingConnector,
        source: ElementId(role),
        target: ElementId(target_role),
        binding: Some((
            BindingEndRecord { role: ElementId(role), parameter: None },
            BindingEndRecord { role: ElementId(target_role), parameter: parameter.map(ElementId) },
        )),
    };
    let relationships = vec![binding(11, 10, Some(21)), binding(11, 10, Some(99)), rel(RelationshipKind::Association, 10, 11)];
    let plan = populate_plan(&children, "parametric", &relationships).unwrap();
    assert_eq!(plan.nodes.len(), 2);
    assert_eq!(plan.edges, vec![EdgePlan { relationship: 0, source: end(1, None), target: end(0, Some(1)) }]);
    let broken = vec![rel(RelationshipKind::BindingConnector, 11, 10)];
    assert_eq!(
        populate_plan(&children, "parametric", &broken).err(),
        Some("BindingConnector has no semantic endpoint details".to_string())
    );
    assert!(populate_plan(&children, "bdd", &broken).unwrap().edges.is_empty());
}
