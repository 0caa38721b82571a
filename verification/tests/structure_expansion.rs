use workspace_model::expansion::{
    expansion_children, expansion_error_message, expansion_request, ExpansionError,
    ExpansionRequest, MAX_OCCURRENCES, MAX_PATH_DEPTH,
};
use workspace_model::history::HistoryState;
use workspace_model::model_script::ElementKind;
use workspace_model::occurrences::{property_visible, PropertyOccurrence};

fn presentation(id: &str, path: &[&str]) -> PropertyOccurrence {
    PropertyOccurrence {
        id: id.to_string(),
        property_path: path.iter().map(|s| s.to_string()).collect(),
        occurrence_path: Vec::new(),
        occurrence_name: None,
        collapsed: false,
        port_ids: Vec::new(),
    }
}

fn part(id: &str) -> (String, ElementKind) {
    (id.to_string(), ElementKind::PartProperty)
}

/// Expand or collapse presentation `id` as a view does, with `features`
/// standing for the features of each classifier by its last path element.
fn expand(
    ps: &mut Vec<PropertyOccurrence>,
    id: &str,
    expand: bool,
    features: &dyn Fn(&[String]) -> Vec<(String, ElementKind)>,
) -> Result<bool, ExpansionError> {
    match expansion_request(ps, &id.to_string(), expand)? {
        ExpansionRequest::Collapse(k) => {
            let changed = !ps[k].collapsed;
            ps[k].collapsed = true;
            Ok(changed)
        }
        ExpansionRequest::Expand(k) => {
            let fs = features(&ps[k].property_path);
            let paths = expansion_children(ps, k, &fs)?;
            let changed = ps[k].collapsed || !paths.is_empty();
            ps[k].collapsed = false;
            for (n, path) in paths.into_iter().enumerate() {
                let id = format!("{}/{}", ps[k].id, n);
                ps.push(PropertyOccurrence { id, property_path: path, ..presentation("", &[]) });
            }
            Ok(changed)
        }
    }
}

/// Vehicle (engine, rearEngine: Engine), Engine (pistons: Piston), Piston (rings: Ring).
fn vehicle_features(path: &[String]) -> Vec<(String, ElementKind)> {
    match path.last().map(|s| s.as_str()) {
        Some("engine") | Some("rearEngine") => vec![part("pistons")],
        Some("pistons") => vec![part("rings"), ("pistonPort".into(), ElementKind::ProxyPort)],
        _ => Vec::new(),
    }
}

fn vehicle() -> Vec<PropertyOccurrence> {
    vec![presentation("e1", &["engine"]), presentation("e2", &["rearEngine"])]
}

#[test]
fn vehicle_expansion_reuses_definitions_and_persists_contextual_occurrences() {
    let mut ps = vehicle();
    for id in ["e1", "e2"] {
        assert_eq!(expand(&mut ps, id, true, &vehicle_features), Ok(true));
    }
    let pistons: Vec<String> = ps
        .iter()
        .filter(|p| p.property_path.last().map(|s| s.as_str()) == Some("pistons"))
        .map(|p| p.id.clone())
        .collect();
    assert_eq!(pistons.len(), 2);
    for id in &pistons {
        assert_eq!(expand(&mut ps, id, true, &vehicle_features), Ok(true));
    }
    assert_eq!(ps.len(), 6);
    assert!(ps.iter().any(|p| p.property_path == ["rearEngine", "pistons", "rings"]));
    let expanded = format!("{:?}", ps);
    for id in ["e1", "e2"] {
        assert_eq!(expand(&mut ps, id, true, &vehicle_features), Ok(false));
    }
    assert_eq!(format!("{:?}", ps), expanded);
    assert_eq!(expand(&mut ps, "e1", false, &vehicle_features), Ok(true));
    assert_eq!(ps.iter().filter(|p| property_visible(&ps, p)).count(), 4);
    assert_eq!(expand(&mut ps, "e1", true, &vehicle_features), Ok(true));
    assert_eq!(format!("{:?}", ps), expanded);
}

#[test]
fn expansion_is_one_transaction_with_noop_rejection_and_legacy_defaults() {
    let mut history: HistoryState<Vec<PropertyOccurrence>> = HistoryState::new();
    let mut current = vehicle();
    assert!(!current[0].collapsed);
    let edit = |history: &mut HistoryState<Vec<PropertyOccurrence>>,
                    current: &mut Vec<PropertyOccurrence>,
                    id: &str|
     -> Result<bool, ExpansionError> {
        let mut candidate = current.clone();
        let changed = expand(&mut candidate, id, true, &vehicle_features)?;
        Ok(history.apply_structural_specification(current, candidate, changed))
    };
    assert_eq!(edit(&mut history, &mut current, "e1"), Ok(true));
    assert_eq!(history.undo_len(), 1);
    assert_eq!(edit(&mut history, &mut current, "e1"), Ok(false));
    assert_eq!(history.undo_len(), 1);
    assert!(history.undo_states(&mut current));
    assert_eq!(edit(&mut history, &mut current, "missing"), Err(ExpansionError::NotFound));
    assert!(history.redo_states(&mut current));
    assert_eq!(current.len(), 3);
}

#[test]
fn recursive_types_allow_bounded_lazy_expansion_without_semantic_cycles() {
    // Engine has a part `nested` typed by Engine itself.
    let nested = |_: &[String]| vec![part("nested")];
    let mut ps = vec![presentation("root", &["engine"])];
    let mut current = "root".to_string();
    for _ in 1..MAX_PATH_DEPTH {
        assert_eq!(expand(&mut ps, &current, true, &nested), Ok(true));
        current = ps
            .iter()
            .filter(|p| p.property_path.last().map(|s| s.as_str()) == Some("nested"))
            .max_by_key(|p| p.property_path.len())
            .unwrap()
            .id
            .clone();
    }
    assert_eq!(
        ps.iter().find(|p| p.id == current).unwrap().property_path.len(),
        MAX_PATH_DEPTH
    );
    assert_eq!(expand(&mut ps, &current, true, &nested), Err(ExpansionError::TooDeep));
    assert!(ps.len() < 100);
    assert_eq!(ps.len(), MAX_PATH_DEPTH);
}

#[test]
fn expansion_adds_only_missing_structural_children_in_feature_order() {
    let ps = vec![presentation("a", &["x"]), presentation("b", &["x", "p2"])];
    let fs = vec![
        part("p1"),
        ("port".to_string(), ElementKind::FullPort),
        part("p2"),
        ("r".to_string(), ElementKind::ReferenceProperty),
        part("p1"),
        ("v".to_string(), ElementKind::ValueProperty),
    ];
    let paths = expansion_children(&ps, 0, &fs).unwrap();
    assert_eq!(paths, vec![vec!["x".to_string(), "p1".into()], vec!["x".to_string(), "r".into()]]);
    assert_eq!(expansion_children(&ps, 1, &fs).unwrap().len(), 3);
}

#[test]
fn expansion_requests_and_limits() {
    let ps = vec![presentation("a", &["x"]), presentation("a", &["y"])];
    assert_eq!(expansion_request(&ps, &"a".to_string(), true), Ok(ExpansionRequest::Expand(0)));
    assert_eq!(expansion_request(&ps, &"a".to_string(), false), Ok(ExpansionRequest::Collapse(0)));
    assert_eq!(expansion_request(&ps, &"z".to_string(), false), Err(ExpansionError::NotFound));
    let deep: Vec<String> = (0..MAX_PATH_DEPTH).map(|i| i.to_string()).collect();
    let ps = vec![PropertyOccurrence { property_path: deep, ..presentation("d", &[]) }];
    assert_eq!(expansion_request(&ps, &"d".to_string(), true), Err(ExpansionError::TooDeep));
    assert_eq!(expansion_request(&ps, &"d".to_string(), false), Ok(ExpansionRequest::Collapse(0)));

    let many: Vec<PropertyOccurrence> =
        (0..MAX_OCCURRENCES - 1).map(|i| presentation(&i.to_string(), &["x"])).collect();
    assert_eq!(expansion_children(&many, 0, &[part("c")]).unwrap().len(), 1);
    assert_eq!(
        expansion_children(&many, 0, &[part("c"), part("d")]),
        Err(ExpansionError::TooMany)
    );
    // A repeated feature counts toward the limit each time.
    assert_eq!(
        expansion_children(&many, 0, &[part("c"), part("c")]),
        Err(ExpansionError::TooMany)
    );
}

#[test]
fn expansion_messages() {
    assert_eq!(expansion_error_message(ExpansionError::NotFound), "IBD property occurrence not found");
    assert_eq!(
        expansion_error_message(ExpansionError::TooDeep),
        "Expansion is limited to 32 levels. Open the type-level IBD to continue; the model is unchanged."
    );
    assert_eq!(
        expansion_error_message(ExpansionError::TooMany),
        "This view is limited to 4096 property occurrences. Open a type-level IBD for further detail."
    );
}
