use workspace_model::state_population::{lifeline_columns, state_machine_population, StateRegion, StateVertex};

fn vertex(id: u128, regions: Vec<StateRegion>) -> StateVertex {
    StateVertex { id, regions }
}

fn region(vertices: Vec<StateVertex>, transitions: &[u128]) -> StateRegion {
    StateRegion { vertices, transitions: transitions.to_vec() }
}

#[test]
fn nested_regions_are_walked_depth_first() {
    let inner = region(vec![vertex(3, Vec::new()), vertex(4, Vec::new())], &[40]);
    let regions = vec![
        region(vec![vertex(1, vec![inner]), vertex(2, Vec::new())], &[10, 11]),
        region(vec![vertex(5, Vec::new())], &[]),
    ];
    let p = state_machine_population(&regions);
    assert_eq!(
        p.vertices,
        vec![(1, 100, 100), (3, 320, 100), (4, 540, 100), (2, 760, 100), (5, 100, 250)]
    );
    assert_eq!(p.transitions, vec![40, 10, 11]);
}

#[test]
fn empty_machine_adds_nothing() {
    let p = state_machine_population(&Vec::new());
    assert!(p.vertices.is_empty() && p.transitions.is_empty());
}

#[test]
fn lifelines_take_columns_in_order() {
    assert_eq!(lifeline_columns(&vec![7, 3, 9]), vec![(7, 140), (3, 360), (9, 580)]);
    assert!(lifeline_columns(&Vec::new()).is_empty());
}
