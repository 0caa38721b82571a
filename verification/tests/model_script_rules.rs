use workspace_model::ids::{
    element_id_text, parse_element_id, parse_path, parse_relationship, stable_script_diagram_id,
    RelationshipId,
};
use workspace_model::model_build::{
    is_behavior_operation, BuildOperationFamily, BuildReference, ElementId,
};
use workspace_model::model_script::{
    bdd_family_accepts, default_true, diag, extract_payload, external_reference, item,
    layout_and_route, presentation_family, preview_impl, relationship_presentable_on_family,
    screen_external_ids, script_external_token, CompiledScript, DiagramEngine, ElementKind,
    LayoutPlan, ModelScriptAction, ModelScriptPreview, RelationshipKind, ScriptDiagram,
};
use workspace_model::model_script::{element_reference, syntax_diagnostic};
use workspace_model::parametrics::diagram_context;
use workspace_model::script_compile::{
    compile_statements, ExternalRecord, PlanOperation, ProjectFacts, ScriptStatement,
};
use workspace_model::reconcile::{
    conflict_code, plan_failure_diagnostics, reconcile_element, reconcile_first_record,
    reconcile_relationship, ExistingRecord, PlanFailure, ScriptConflict,
};

#[test]
fn payload_is_raw_json_or_triple_quoted() {
    assert_eq!(extract_payload("  {\"a\": 1}\n").unwrap(), ("{\"a\": 1}".to_string(), 1));
    let source = "// vehicle\nmodelScript '''\n{\"x\": 2}\n'''\n";
    let (payload, line) = extract_payload(source).unwrap();
    assert_eq!(payload, "\n{\"x\": 2}\n");
    assert_eq!(line, 2);
    let doubled = "run()\nmodelScript(\"\"\"{\"y\": 3}\"\"\")";
    assert_eq!(extract_payload(doubled).unwrap(), ("{\"y\": 3}".to_string(), 2));
    assert_eq!(
        extract_payload("println 'hello'"),
        Err("script must be raw model-script JSON or modelScript triple-quoted JSON".to_string())
    );
}

#[test]
fn reference_tokens() {
    assert_eq!(script_external_token("ext:VEH"), "VEH");
    assert_eq!(script_external_token("handle:h1"), "h1");
    assert_eq!(script_external_token("VEH"), "VEH");
    assert_eq!(script_external_token("ext:handle:x"), "handle:x");
    match external_reference::<ElementId>("ext: VEH ", 3).unwrap() {
        BuildReference::External(e) => assert_eq!(e, "VEH"),
        BuildReference::Existing(_) => panic!("expected an External ID"),
    }
    match external_reference::<ElementId>(" ext:VEH", 3).unwrap() {
        BuildReference::External(e) => assert_eq!(e, "ext:VEH"),
        BuildReference::Existing(_) => panic!("expected an External ID"),
    }
    for bad in ["", "ext:  ", "$root", "qname:Model::Vehicle"] {
        let d = external_reference::<ElementId>(bad, 7).err().unwrap();
        assert_eq!(d.code, "REFERENCE_KIND_INVALID");
        assert_eq!(d.statement, Some(7));
        assert_eq!(
            d.reason,
            "specialized semantic references require an External ID or plan-local handle"
        );
    }
}

#[test]
fn diagram_families() {
    assert_eq!(presentation_family(" BDD "), Ok("bdd"));
    assert_eq!(presentation_family("Use_Case"), Ok("use-case"));
    assert_eq!(presentation_family("use case"), Ok("use-case"));
    assert_eq!(presentation_family("requirements"), Ok("requirement"));
    assert_eq!(presentation_family("State Machine"), Ok("state-machine"));
    assert_eq!(presentation_family("parametric"), Ok("parametric"));
    assert_eq!(
        presentation_family(" Gantt_Chart "),
        Err("unsupported diagram family: gantt-chart".to_string())
    );
    assert!(bdd_family_accepts("bdd", ElementKind::Block));
    assert!(!bdd_family_accepts("bdd", ElementKind::PartProperty));
    assert!(!bdd_family_accepts("bdd", ElementKind::Package));
    assert!(bdd_family_accepts("requirement", ElementKind::TestCase));
    assert!(bdd_family_accepts("use-case", ElementKind::Actor));
    assert!(!bdd_family_accepts("use-case", ElementKind::Block));
    assert!(bdd_family_accepts("package", ElementKind::Package));
    assert!(bdd_family_accepts("parametric", ElementKind::ConstraintProperty));
    assert!(!bdd_family_accepts("ibd", ElementKind::Block));
    assert!(relationship_presentable_on_family("package", RelationshipKind::PackageImport));
    assert!(!relationship_presentable_on_family("package", RelationshipKind::Association));
}

#[test]
fn layout_plan_per_family() {
    assert_eq!(
        layout_and_route("bdd", true, true),
        LayoutPlan { layout: Some(DiagramEngine::Bdd), route: Some(DiagramEngine::Bdd) }
    );
    assert_eq!(
        layout_and_route("sequence", false, true),
        LayoutPlan { layout: None, route: Some(DiagramEngine::Behavior) }
    );
    assert_eq!(
        layout_and_route("ibd", true, false),
        LayoutPlan { layout: Some(DiagramEngine::Ibd), route: None }
    );
    assert_eq!(layout_and_route("gantt", true, true), LayoutPlan { layout: None, route: None });
    assert!(default_true());
}

#[test]
fn stable_diagram_identities() {
    let a = stable_script_diagram_id("groovy:vehicle-example", "BDD_MAIN");
    assert_eq!(a, "f992e8aa-6b92-811c-9ce3-2b5b20bd2d1d");
    assert_eq!(a, stable_script_diagram_id("groovy:vehicle-example", "BDD_MAIN"));
    let b = stable_script_diagram_id("ns", "D1");
    assert_eq!(b, "9ee9c5f8-ffbd-8d55-bc52-cd65c0cb679c");
    assert_eq!(b.as_bytes()[14], b'8');
    assert!(parse_element_id(&b).is_ok());
}

#[test]
fn element_identity_text_round_trips() {
    let id = ElementId(0x0123_4567_89ab_cdef_0011_2233_4455_6677);
    let text = element_id_text(id);
    assert_eq!(text, "01234567-89ab-cdef-0011-223344556677");
    assert_eq!(parse_element_id(&text), Ok(id));
    assert!(parse_element_id("not-a-uuid").is_err());
    let path = parse_path(&[text.clone(), element_id_text(ElementId(5))]).unwrap();
    assert_eq!(path, vec![id, ElementId(5)]);
    assert!(parse_path(&[text, "x".to_string()]).is_err());
}

#[test]
fn external_id_screening() {
    let ids = vec![Some("A".to_string()), None, Some("  ".to_string()), Some("A".to_string()), Some("B".to_string())];
    let r = screen_external_ids("s.groovy", &ids);
    assert!(r[0].is_none() && r[1].is_none() && r[4].is_none());
    let blank = r[2].as_ref().unwrap();
    assert_eq!((blank.code.as_str(), blank.statement), ("EXTERNAL_ID_REQUIRED", Some(3)));
    let dup = r[3].as_ref().unwrap();
    assert_eq!((dup.code.as_str(), dup.statement), ("DUPLICATE_EXTERNAL_ID", Some(4)));
    assert_eq!(dup.script, "s.groovy");
    assert_eq!(dup.operation.as_deref(), Some("compile"));
}

fn diagram(external_id: &str, family: &str, name: &str) -> ScriptDiagram {
    ScriptDiagram {
        external_id: external_id.into(),
        family: family.into(),
        name: name.into(),
        owner: "$root".into(),
        context: None,
        semantic: None,
        populate: true,
        clean_layout: true,
        route: true,
    }
}

#[test]
fn preview_reports_statements_then_diagrams() {
    let compiled = CompiledScript {
        source_namespace: "groovy:vehicle-example".into(),
        operation_count: 2,
        items: vec![
            item(1, ModelScriptAction::Create, "Element::Block", Some("VEH"), Some("Vehicle"), "create through ModelBuildPlan"),
            item(2, ModelScriptAction::NoChange, "Element::Block", Some("ENG"), Some("Engine"), "stable identity already matches"),
        ],
        diagrams: vec![diagram("BDD_MAIN", "bdd", "Structure"), diagram("PAR", "parametric", "Mass")],
    };
    let p = preview_impl(Ok(compiled));
    assert_eq!(p.host, "systems-modeler-rust-model-script-v1");
    assert!(!p.applied);
    assert!(p.valid());
    assert_eq!(p.items.len(), 4);
    assert_eq!(p.items[2].statement, 3);
    assert_eq!(p.items[3].statement, 4);
    assert_eq!(p.items[3].operation, "Diagram::parametric");
    assert_eq!(p.items[3].external_id.as_deref(), Some("PAR"));
    assert_eq!(p.items[3].detail, "native presentation + populate/Clean Layout/route");

    let failed = ModelScriptPreview {
        host: "h".into(),
        applied: false,
        source_namespace: String::new(),
        items: Vec::new(),
        diagnostics: vec![diag("x.groovy", None, Some("parse".into()), None, "SCRIPT_SYNTAX", "bad")],
    };
    let same = preview_impl(Err(failed.diagnostics));
    assert!(!same.valid());
    assert_eq!(same.diagnostics[0].code, "SCRIPT_SYNTAX");

    let mut blocked = preview_impl(Ok(CompiledScript {
        source_namespace: "n".into(),
        operation_count: 0,
        items: vec![item(1, ModelScriptAction::Blocked, "Element::Block", None, None, "blocked")],
        diagrams: Vec::new(),
    }));
    assert!(!blocked.valid());
    blocked.items.clear();
    assert!(blocked.valid());
}

#[test]
fn wrong_kind_collisions_are_conflicts() {
    let other_kind = [ExistingRecord { same_kind: false, same_name: true }];
    assert_eq!(reconcile_element(&other_kind, false), Err(ScriptConflict::WrongKind));
    assert_eq!(reconcile_relationship(&[false], true), Err(ScriptConflict::WrongKind));
    assert_eq!(reconcile_first_record(Some(false)), Err(ScriptConflict::WrongKind));
}

#[test]
fn statement_reconciliation() {
    let same = ExistingRecord { same_kind: true, same_name: true };
    let renamed = ExistingRecord { same_kind: true, same_name: false };
    assert_eq!(reconcile_element(&[], true), Ok(ModelScriptAction::Create));
    assert_eq!(reconcile_element(&[same], false), Ok(ModelScriptAction::NoChange));
    assert_eq!(reconcile_element(&[same], true), Ok(ModelScriptAction::Update));
    assert_eq!(reconcile_element(&[renamed], false), Ok(ModelScriptAction::Update));
    assert_eq!(reconcile_element(&[same, same], false), Err(ScriptConflict::Ambiguous));
    assert_eq!(reconcile_relationship(&[], false), Ok(ModelScriptAction::Create));
    assert_eq!(reconcile_relationship(&[true], false), Ok(ModelScriptAction::NoChange));
    assert_eq!(reconcile_relationship(&[true], true), Ok(ModelScriptAction::Update));
    assert_eq!(reconcile_relationship(&[true, false], true), Err(ScriptConflict::Ambiguous));
    assert_eq!(reconcile_first_record(None), Ok(ModelScriptAction::Create));
    assert_eq!(reconcile_first_record(Some(true)), Ok(ModelScriptAction::Update));
}

#[test]
fn plan_failures_point_at_their_statements() {
    let items = vec![
        item(1, ModelScriptAction::Create, "Element::Block", Some("VEH"), Some("Vehicle"), "d"),
        item(2, ModelScriptAction::Create, "BindingConnector", Some("BIND"), Some("massBinding"), "d"),
        item(2, ModelScriptAction::Update, "again", Some("LATER"), None, "d"),
    ];
    let failures = vec![
        PlanFailure { operation: Some(1), code: "BINDING_INVALID".into(), message: "bad binding".into() },
        PlanFailure { operation: Some(9), code: "X".into(), message: "out of range".into() },
        PlanFailure { operation: None, code: "Y".into(), message: "global".into() },
    ];
    let ds = plan_failure_diagnostics("rollback.groovy", &failures, &[1, 2], &items);
    assert_eq!(ds.len(), 3);
    assert_eq!(ds[0].statement, Some(2));
    assert_eq!(ds[0].external_id.as_deref(), Some("BIND"));
    assert_eq!(ds[0].semantic_name.as_deref(), Some("massBinding"));
    assert_eq!((ds[0].code.as_str(), ds[0].reason.as_str()), ("BINDING_INVALID", "bad binding"));
    assert_eq!(ds[0].operation.as_deref(), Some("ModelBuildPlan"));
    assert_eq!(ds[0].script, "rollback.groovy");
    assert_eq!((ds[1].statement, ds[1].external_id.clone()), (None, None));
    assert_eq!((ds[2].statement, ds[2].semantic_name.clone()), (None, None));
}

#[test]
fn build_families_and_parametric_context() {
    assert!(!is_behavior_operation(&BuildOperationFamily::Project));
    assert!(is_behavior_operation(&BuildOperationFamily::Parametric));
    assert!(is_behavior_operation(&BuildOperationFamily::Activity));
    assert!(is_behavior_operation(&BuildOperationFamily::StateMachine));
    assert!(is_behavior_operation(&BuildOperationFamily::Sequence));
    assert_eq!(diagram_context("bdd", None), Err("diagram is not a Parametric Diagram".to_string()));
    assert_eq!(
        diagram_context("parametric", None),
        Err("Parametric Diagram has no semantic context".to_string())
    );
    let text = element_id_text(ElementId(77));
    assert_eq!(diagram_context("parametric", Some(&text)), Ok(ElementId(77)));
    assert!(diagram_context("parametric", Some("nope")).is_err());
}

#[test]
fn element_references() {
    let root = ElementId(1);
    let names = vec![
        (ElementId(2), "Model::Vehicle".to_string()),
        (ElementId(3), "Model::Engine".to_string()),
        (ElementId(4), "Model::Engine".to_string()),
    ];
    match element_reference(" $root ", root, &names, 1) {
        Ok(BuildReference::Existing(id)) => assert_eq!(id, root),
        _ => panic!("root"),
    }
    match element_reference("qname:Model::Vehicle", root, &names, 1) {
        Ok(BuildReference::Existing(id)) => assert_eq!(id, ElementId(2)),
        _ => panic!("qualified name"),
    }
    let missing = element_reference("qname:Model::Wheel", root, &names, 4).err().unwrap();
    assert_eq!(missing.code, "UNRESOLVED_REFERENCE");
    assert_eq!(missing.reason, "exact qualified name was not found: Model::Wheel");
    assert_eq!(missing.statement, Some(4));
    let ambiguous = element_reference("qname:Model::Engine", root, &names, 4).err().unwrap();
    assert_eq!(ambiguous.code, "AMBIGUOUS_REFERENCE");
    assert_eq!(ambiguous.reason, "exact qualified name is ambiguous: Model::Engine");
    match element_reference("  handle: h1 ", root, &names, 1) {
        Ok(BuildReference::External(e)) => assert_eq!(e, "h1"),
        _ => panic!("handle"),
    }
    let blank = element_reference("ext:", root, &names, 2).err().unwrap();
    assert_eq!((blank.code.as_str(), blank.reason.as_str()), ("UNRESOLVED_REFERENCE", "blank External ID reference"));
    assert_eq!(blank.operation.as_deref(), Some("reference"));
}

#[test]
fn syntax_diagnostics_point_at_script_lines() {
    let d = syntax_diagnostic("v.groovy", 2, 3, "expected value".into());
    assert_eq!(d.line, Some(4));
    assert_eq!((d.code.as_str(), d.reason.as_str()), ("SCRIPT_SYNTAX", "expected value"));
    assert_eq!(d.operation.as_deref(), Some("parse"));
    assert_eq!(syntax_diagnostic("v.groovy", 1, 0, String::new()).line, Some(1));
}

#[test]
fn relationship_ids_parse_or_name_the_text() {
    let text = "6f1c2a44-0b8e-4d1a-9c3f-2e5d7a9b1c0d";
    assert_eq!(
        parse_relationship(text),
        Ok(RelationshipId(0x6f1c2a44_0b8e_4d1a_9c3f_2e5d7a9b1c0d))
    );
    assert_eq!(
        parse_relationship("edge-7"),
        Err("invalid relationship id: edge-7".to_string())
    );
}

#[test]
fn wrong_kind_collision_is_blocked() {
    // A first script created "X" as a Package; the second asks for a Block.
    let project = ProjectFacts {
        root: ElementId(1),
        qualified_names: Vec::new(),
        elements: vec![ExternalRecord { external_id: "script-test::X".into(), kind: "Package".into(), name: "X".into() }],
        relationships: Vec::new(),
        activities: Vec::new(),
        state_machines: Vec::new(),
        interactions: Vec::new(),
        behavior_ids: Vec::new(),
        activity_ids: Vec::new(),
    };
    let wrong = vec![ScriptStatement::Element {
        external_id: "X".into(),
        kind: "Block".into(),
        name: "X".into(),
        owner: "$root".into(),
        type_ref: None,
        optional_fields: false,
    }];
    let ds = compile_statements("second.groovy", "script-test", &wrong, &project).unwrap_err();
    let preview = preview_impl(Err(ds));
    assert!(!preview.valid());
    assert!(!preview.applied);
    assert_eq!(preview.diagnostics[0].code, "WRONG_KIND_COLLISION");
    assert_eq!(preview.diagnostics[0].statement, Some(1));
    assert_eq!(preview.diagnostics[0].external_id.as_deref(), Some("X"));
    assert_eq!(preview.diagnostics[0].reason, "External ID identifies Package, not Block");
    assert_eq!(conflict_code(ScriptConflict::WrongKind), "WRONG_KIND_COLLISION");
    assert_eq!(reconcile_element(&[ExistingRecord { same_kind: false, same_name: true }], false), Err(ScriptConflict::WrongKind));
}

#[test]
fn exact_qualified_name_and_explicit_plan_local_handle_references_are_supported() {
    let existing = ElementId(7);
    let project = ProjectFacts {
        root: ElementId(1),
        qualified_names: vec![(existing, "Script Test::Existing".to_string())],
        elements: Vec::new(),
        relationships: Vec::new(),
        activities: Vec::new(),
        state_machines: Vec::new(),
        interactions: Vec::new(),
        behavior_ids: Vec::new(),
        activity_ids: Vec::new(),
    };
    let element = |ext: &str, kind: &str, name: &str, owner: &str| ScriptStatement::Element {
        external_id: ext.into(),
        kind: kind.into(),
        name: name.into(),
        owner: owner.into(),
        type_ref: None,
        optional_fields: false,
    };
    let statements = vec![
        element("BLOCK", "Block", "QualifiedChild", "qname:Script Test::Existing"),
        element("OP", "Operation", "run", "handle:BLOCK"),
    ];
    let plan = compile_statements("qname.groovy", "qname-test", &statements, &project).unwrap();
    match &plan.operations[0] {
        PlanOperation::CreateElement { owner: BuildReference::Existing(id), .. } => assert_eq!(*id, existing),
        other => panic!("{other:?}"),
    }
    match &plan.operations[1] {
        PlanOperation::CreateElement { external_id, owner: BuildReference::External(handle), .. } => {
            assert_eq!((external_id.as_str(), handle.as_str()), ("OP", "BLOCK"));
        }
        other => panic!("{other:?}"),
    }
}
