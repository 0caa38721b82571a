use workspace_model::allocation::{
    allocation_error_message, validate, AllocationError, PropertyDefinition,
};
use workspace_model::features::Multiplicity;
use workspace_model::ids::parse_element_id;
use workspace_model::occurrences::{
    coverage, groups_error_message, is_descendant, parse_groups, property_visible, range_at,
    ranges_equal, same_prefix, GroupsError, OccurrenceRange, PropertyOccurrence,
};
use workspace_model::regrouping::{regroup, Regrouping};

const P: &str = "00000000-0000-4000-8000-000000000001";
const C: &str = "00000000-0000-4000-8000-000000000002";
const Q: &str = "00000000-0000-4000-8000-000000000003";

fn presentation(id: &str, path: &[&str], ports: &[&str]) -> PropertyOccurrence {
    PropertyOccurrence {
        id: id.to_string(),
        property_path: path.iter().map(|s| s.to_string()).collect(),
        occurrence_path: Vec::new(),
        occurrence_name: None,
        collapsed: false,
        port_ids: ports.iter().map(|s| s.to_string()).collect(),
    }
}

fn fixture() -> Vec<PropertyOccurrence> {
    vec![
        presentation("part", &[P], &["port-1"]),
        presentation("child", &[P, C], &["port-2"]),
        presentation("other", &[Q], &[]),
    ]
}

fn definitions() -> Vec<PropertyDefinition> {
    vec![
        PropertyDefinition {
            id: parse_element_id(P).unwrap(),
            name: "part".into(),
            multiplicity: Some(Multiplicity { lower: 4, upper: Some(4) }),
            notation: "4".into(),
        },
        PropertyDefinition {
            id: parse_element_id(C).unwrap(),
            name: "channels".into(),
            multiplicity: Some(Multiplicity { lower: 2, upper: Some(2) }),
            notation: "2".into(),
        },
        PropertyDefinition {
            id: parse_element_id(Q).unwrap(),
            name: "other".into(),
            multiplicity: None,
            notation: "1".into(),
        },
    ]
}

fn range(first: u32, count: u32) -> Option<OccurrenceRange> {
    Some(OccurrenceRange { first, count })
}

/// What the editor does with a regrouping: rename in place, or drop the
/// removed presentations and append the copies.
fn apply(ps: &[PropertyOccurrence], r: Regrouping) -> Vec<PropertyOccurrence> {
    match r {
        Regrouping::Rename(names) => {
            let mut out = ps.to_vec();
            for (k, name) in names {
                out[k].occurrence_name = name;
            }
            out
        }
        Regrouping::Rebuild(plan) => {
            let mut out: Vec<PropertyOccurrence> = ps
                .iter()
                .enumerate()
                .filter(|(k, _)| !plan.removed.contains(k))
                .map(|(_, p)| p.clone())
                .collect();
            for g in plan.groups {
                out.extend(g.copies);
            }
            out
        }
    }
}

fn regrouped(ps: &[PropertyOccurrence], id: &str, text: Option<&str>) -> Vec<PropertyOccurrence> {
    apply(ps, regroup(&ps.to_vec(), &id.to_string(), text).unwrap())
}

fn find<'a>(ps: &'a [PropertyOccurrence], id: &str) -> &'a PropertyOccurrence {
    ps.iter().find(|p| p.id == id).unwrap()
}

#[test]
fn group_text_parsing() {
    let groups = parse_groups(Some("north = 1\nsouth = 1\neast = 1\nwest = 1")).unwrap();
    assert_eq!(groups.len(), 4);
    assert_eq!(groups[1], (Some("south".to_string()), range(2, 1)));
    assert_eq!(groups[3], (Some("west".to_string()), range(4, 1)));
    let pair = parse_groups(Some("  first pair = 2\n\nthird = 1 ")).unwrap();
    assert_eq!(pair, vec![(Some("first pair".into()), range(1, 2)), (Some("third".into()), range(3, 1))]);
    assert_eq!(parse_groups(None).unwrap(), vec![(None, None)]);
    assert_eq!(parse_groups(Some("a == 3")).unwrap(), vec![(Some("a =".into()), range(1, 3))]);
}

#[test]
fn group_text_rejections() {
    let invalid = groups_error_message(GroupsError::InvalidGroup);
    assert_eq!(parse_groups(Some("same = 1\nsame = 1")), Err(invalid.clone()));
    assert_eq!(parse_groups(Some("none = 0")), Err(invalid.clone()));
    assert_eq!(parse_groups(Some(" = 2")), Err(invalid));
    assert_eq!(
        parse_groups(Some("north")),
        Err("Use one occurrence group per line: display name = count".to_string())
    );
    assert_eq!(
        parse_groups(Some("north = many")),
        Err(groups_error_message(GroupsError::BadCount))
    );
    assert_eq!(parse_groups(Some("\n  \n")), Err(groups_error_message(GroupsError::NoGroups)));
    assert_eq!(
        parse_groups(Some("a = 4294967295\nb = 1")),
        Err(groups_error_message(GroupsError::RangeOverflow))
    );
    let many: String = (0..4097).map(|i| format!("g{i} = 1\n")).collect();
    assert_eq!(parse_groups(Some(&many)), Err(groups_error_message(GroupsError::TooManyGroups)));
}

#[test]
fn four_occurrences_keep_definitions_and_nested_ports_connectors_and_movement_distinct() {
    let ps = fixture();
    let r = regroup(&ps, &"part".to_string(), Some("north = 1\nsouth = 1\neast = 1\nwest = 1")).unwrap();
    let plan = match &r {
        Regrouping::Rebuild(plan) => plan.clone(),
        Regrouping::Rename(_) => panic!("expected a rebuild"),
    };
    assert_eq!(plan.removed, vec![0, 1]);
    assert_eq!(plan.removed_ids, vec!["part", "port-1", "child", "port-2"]);
    assert_eq!(plan.groups.len(), 4);
    assert!(plan.groups[0].keep_ids && !plan.groups[1].keep_ids);
    assert!(plan.groups.iter().all(|g| g.template == 0 && g.sources == vec![0, 1]));
    let view = apply(&ps, r);
    assert_eq!(view.len(), 9);
    let first = find(&view, "part");
    assert_eq!(first.occurrence_name.as_deref(), Some("north"));
    assert_eq!(range_at(first, 0), range(1, 1));
    assert_eq!(find(&view, "child").occurrence_path, vec![range(1, 1), None]);
    let south = view.iter().find(|p| p.occurrence_name.as_deref() == Some("south")).unwrap();
    assert_eq!(range_at(south, 0), range(2, 1));
    assert!(parse_element_id(&south.id).is_ok());
    assert!(parse_element_id(&south.port_ids[0]).is_ok());
    assert_ne!(south.port_ids[0], "port-1");
    assert!(validate(&view, &definitions()).is_ok());
    let report = coverage(&view, first, Multiplicity { lower: 4, upper: Some(4) }, "4".into());
    assert_eq!(report.displayed, Some(4));
    assert_eq!(report.status, "Complete population");
    let own_child = view
        .iter()
        .find(|p| is_descendant(&p.property_path, &first.property_path) && same_prefix(p, first, 1))
        .unwrap();
    assert_eq!(own_child.id, "child");

    let compact = regrouped(&view, "part", None);
    assert_eq!(compact.len(), 3);
    let part = find(&compact, "part");
    assert_eq!(part.occurrence_path, vec![None]);
    assert_eq!(part.occurrence_name, None);
    assert_eq!(find(&compact, "child").occurrence_path, vec![None, None]);
    let report = coverage(&compact, part, Multiplicity { lower: 4, upper: Some(4) }, "4".into());
    assert_eq!(report.displayed, None);
    assert_eq!(report.status, "Compact population");
}

#[test]
fn coverage_counts_distinct_ranges_and_invalid_edits_preserve_history() {
    let ps = fixture();
    let view = regrouped(&ps, "part", Some("first pair = 2\nthird = 1"));
    assert!(validate(&view, &definitions()).is_ok());
    let property = find(&view, "part").clone();
    let four = Multiplicity { lower: 4, upper: Some(4) };
    let report = coverage(&view, &property, four, "4".into());
    assert_eq!(report.displayed, Some(3));
    assert_eq!(report.status, "Partial population view");
    let mut repeated = view.clone();
    let mut symbol = property.clone();
    symbol.id = "repeated-symbol".into();
    symbol.port_ids.clear();
    repeated.push(symbol);
    assert_eq!(coverage(&repeated, &property, four, "4".into()).displayed, Some(3));

    let too_many = regrouped(&ps, "part", Some("too many = 5"));
    match validate(&too_many, &definitions()) {
        Err(e @ AllocationError::ExceedsMultiplicity { .. }) => assert_eq!(
            allocation_error_message(&e).unwrap(),
            "Occurrence allocation for 'part' exceeds multiplicity [4]; adjust its displayed groups first"
        ),
        other => panic!("unexpected {other:?}"),
    }
    for invalid in ["same = 1\nsame = 1", "none = 0"] {
        assert_eq!(
            regroup(&ps, &"part".to_string(), Some(invalid)).err(),
            Some(groups_error_message(GroupsError::InvalidGroup))
        );
    }
}

#[test]
fn regroup_rejections() {
    let ps = fixture();
    assert_eq!(
        regroup(&ps, &"missing".to_string(), None).err(),
        Some("IBD property occurrence not found".to_string())
    );
    let mut unresolved = ps.clone();
    unresolved.push(presentation("loose", &[], &[]));
    assert_eq!(
        regroup(&unresolved, &"loose".to_string(), None).err(),
        Some("Occurrence view requires a resolved property path".to_string())
    );
    let mut crowded: Vec<PropertyOccurrence> = (0..4095)
        .map(|i| presentation(&format!("x{i}"), &[Q], &[]))
        .collect();
    crowded.push(presentation("part", &[P], &[]));
    assert_eq!(
        regroup(&crowded, &"part".to_string(), Some("a = 1\nb = 1")).err(),
        Some("This view is limited to 4096 property occurrences".to_string())
    );
    assert!(regroup(&crowded, &"part".to_string(), Some("a = 1")).is_ok());
}

#[test]
fn unchanged_ranges_only_rename() {
    let ps = fixture();
    let view = regrouped(&ps, "part", Some("north = 1\nsouth = 1"));
    let r = regroup(&view, &"part".to_string(), Some("up = 1\ndown = 1")).unwrap();
    let names = match r {
        Regrouping::Rename(names) => names,
        Regrouping::Rebuild(_) => panic!("expected a rename"),
    };
    assert_eq!(names.len(), 2);
    let renamed = apply(&view, Regrouping::Rename(names));
    assert_eq!(renamed.len(), view.len());
    assert_eq!(find(&renamed, "part").occurrence_name.as_deref(), Some("up"));
    let other = renamed.iter().find(|p| range_at(p, 0) == range(2, 1) && p.property_path.len() == 1).unwrap();
    assert_eq!(other.occurrence_name.as_deref(), Some("down"));
    assert!(validate(&renamed, &definitions()).is_ok());
}

#[test]
fn allocation_faults_and_messages() {
    let defs = definitions();
    let mut ps = fixture();
    ps[0].occurrence_path = vec![range(1, 1), None];
    assert!(matches!(validate(&ps, &defs), Err(AllocationError::PathMismatch)));
    assert_eq!(
        allocation_error_message(&AllocationError::PathMismatch).unwrap(),
        "Occurrence selections must follow the semantic property path"
    );

    let mut ps = vec![presentation("bad", &["not-a-uuid"], &[])];
    ps[0].occurrence_path = vec![range(1, 1)];
    ps[0].occurrence_name = Some("a".into());
    match validate(&ps, &defs) {
        Err(e @ AllocationError::BadIdentity(_)) => assert!(allocation_error_message(&e).is_some()),
        other => panic!("unexpected {other:?}"),
    }

    let unknown = "00000000-0000-4000-8000-0000000000ff";
    let mut ps = vec![presentation("u", &[unknown], &[])];
    ps[0].occurrence_path = vec![range(1, 1)];
    match validate(&ps, &defs) {
        Err(e @ AllocationError::UnknownDefinition(id)) => {
            assert_eq!(id, parse_element_id(unknown).unwrap());
            assert!(allocation_error_message(&e).is_none());
        }
        other => panic!("unexpected {other:?}"),
    }

    let mut ps = fixture();
    ps[0].occurrence_path = vec![range(0, 1)];
    ps[0].occurrence_name = Some("zero".into());
    assert!(matches!(validate(&ps, &defs), Err(AllocationError::ExceedsMultiplicity { .. })));

    let mut ps = fixture();
    ps[0].occurrence_path = vec![range(1, 1)];
    ps[0].occurrence_name = Some("   ".into());
    assert!(matches!(validate(&ps, &defs), Err(AllocationError::MissingName)));
    assert_eq!(
        allocation_error_message(&AllocationError::MissingName).unwrap(),
        "Allocated occurrences require a display name"
    );

    let mut ps = fixture();
    ps[0].occurrence_path = vec![range(1, 1)];
    ps[0].occurrence_name = Some("a".into());
    let mut twin = ps[0].clone();
    twin.id = "twin".into();
    twin.occurrence_path = vec![range(2, 1)];
    ps.push(twin.clone());
    assert!(matches!(validate(&ps, &defs), Err(AllocationError::DuplicateName)));
    assert_eq!(
        allocation_error_message(&AllocationError::DuplicateName).unwrap(),
        "Different occurrence groups require distinct display names"
    );

    let last = ps.len() - 1;
    ps[last].occurrence_name = Some("b".into());
    ps[last].occurrence_path = vec![range(1, 2)];
    assert!(matches!(validate(&ps, &defs), Err(AllocationError::Overlap)));
    assert_eq!(
        allocation_error_message(&AllocationError::Overlap).unwrap(),
        "Occurrence groups overlap; repeating a symbol does not allocate another instance"
    );

    ps[last].occurrence_path = vec![range(2, 2)];
    assert!(validate(&ps, &defs).is_ok());
    ps[last].occurrence_name = Some("a".into());
    ps[last].occurrence_path = vec![range(1, 1)];
    assert!(validate(&ps, &defs).is_ok());
}

#[test]
fn occurrence_helpers() {
    let a = vec![range(1, 2), None];
    let b = vec![range(1, 2)];
    assert!(ranges_equal(&a, &b, 2));
    assert!(!ranges_equal(&a, &[range(1, 3)], 1));
    assert!(is_descendant(&["a".to_string(), "b".to_string()], &["a".to_string()]));
    assert!(!is_descendant(&["a".to_string()], &["a".to_string()]));
    let mut ps = fixture();
    assert!(property_visible(&ps, &ps[1].clone()));
    ps[0].collapsed = true;
    assert!(!property_visible(&ps, &ps[1].clone()));
    assert!(property_visible(&ps, &ps[0].clone()));
}
