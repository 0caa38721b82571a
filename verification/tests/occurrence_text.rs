use workspace_model::features::Multiplicity;
use workspace_model::group_text::{
    decimal_chars, groups_text, occurrence_index, occurrence_specification, DefinitionFacts,
};
use workspace_model::ids::element_id_text;
use workspace_model::model_build::ElementId;
use workspace_model::occurrences::{parse_groups, OccurrenceRange, PropertyOccurrence};

fn presentation(
    id: &str,
    path: &[&str],
    range: Option<(u32, u32)>,
    name: Option<&str>,
) -> PropertyOccurrence {
    PropertyOccurrence {
        id: id.to_string(),
        property_path: path.iter().map(|s| s.to_string()).collect(),
        occurrence_path: vec![range.map(|(first, count)| OccurrenceRange { first, count })],
        occurrence_name: name.map(|n| n.to_string()),
        collapsed: false,
        port_ids: Vec::new(),
    }
}

fn population() -> Vec<PropertyOccurrence> {
    vec![
        presentation("b", &["p"], Some((3, 1)), None),
        presentation("a", &["p"], Some((1, 2)), Some("north")),
        presentation("c", &["p"], Some((1, 2)), Some("duplicate")),
        presentation("d", &["q"], Some((5, 9)), Some("other")),
        presentation("e", &["p"], None, Some("compact")),
    ]
}

#[test]
fn group_text_lists_each_range_once_by_first_position() {
    let ps = population();
    assert_eq!(groups_text(&ps, &ps[0], "part"), "north = 2\npart = 1");
    assert_eq!(groups_text(&ps, &ps[3], "part"), "other = 9");
    let compact = vec![presentation("e", &["p"], None, None)];
    assert_eq!(groups_text(&compact, &compact[0], "part"), "");
}

#[test]
fn equal_first_positions_keep_caller_order() {
    let ps = vec![
        presentation("x", &["p"], Some((1, 3)), Some("wide")),
        presentation("y", &["p"], Some((1, 1)), Some("narrow")),
    ];
    assert_eq!(groups_text(&ps, &ps[1], "part"), "wide = 3\nnarrow = 1");
}

#[test]
fn group_text_parses_back_to_its_groups() {
    let ps = vec![
        presentation("x", &["p"], Some((4, 2)), Some("south")),
        presentation("y", &["p"], Some((1, 3)), Some("north")),
    ];
    let text = groups_text(&ps, &ps[0], "part");
    assert_eq!(text, "north = 3\nsouth = 2");
    let parsed = parse_groups(Some(text.as_str())).unwrap();
    assert_eq!(
        parsed,
        vec![
            (Some("north".to_string()), Some(OccurrenceRange { first: 1, count: 3 })),
            (Some("south".to_string()), Some(OccurrenceRange { first: 4, count: 2 })),
        ]
    );
}

#[test]
fn decimal_text_of_counts() {
    let text = |n: u32| decimal_chars(n).into_iter().collect::<String>();
    assert_eq!(text(0), "0");
    assert_eq!(text(7), "7");
    assert_eq!(text(4096), "4096");
    assert_eq!(text(u32::MAX), "4294967295");
}

#[test]
fn occurrence_specification_of_a_presentation() {
    let ps = population();
    assert_eq!(occurrence_index(&ps, &"a".to_string()), Ok(1));
    assert_eq!(
        occurrence_index(&ps, &"z".to_string()),
        Err("IBD occurrence not found".to_string())
    );
    let definition = DefinitionFacts {
        id: ElementId(0x11),
        name: "part".to_string(),
        type_id: Some(ElementId(0x22)),
        multiplicity: Some(Multiplicity { lower: 3, upper: Some(3) }),
    };
    let spec = occurrence_specification(&ps, 1, &definition, "3".to_string());
    assert_eq!(spec.groups, "north = 2\npart = 1");
    assert_eq!(spec.coverage.displayed, None);
    assert_eq!(spec.coverage.status, "Compact population");
    assert_eq!(spec.coverage.constraint, "3");
    assert_eq!(spec.definition_id, element_id_text(ElementId(0x11)));
    assert_eq!(spec.type_id, Some(element_id_text(ElementId(0x22))));

    let shown: Vec<PropertyOccurrence> = ps.into_iter().filter(|p| p.id != "e").collect();
    let untyped = DefinitionFacts { type_id: None, multiplicity: None, ..definition };
    let spec = occurrence_specification(&shown, 0, &untyped, "1".to_string());
    assert_eq!(spec.coverage.displayed, Some(3));
    assert_eq!(spec.coverage.status, "Exceeds definition");
    assert_eq!(spec.type_id, None);
}
