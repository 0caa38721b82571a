use workspace_model::model_build::{BuildReference, ElementId, MessageSignatureBuild, TriggerBuild};
use workspace_model::model_script::{preview_impl, CompiledScript, ModelScriptAction, ScriptDiagram};
use workspace_model::script_compile::{
    compile_statements, preview_statements, BehaviorFamily, BindingEndToken, EdgeEnd, EdgeTexts, ExternalRecord, PlanOperation,
    NodeKindBuild, NodeKindToken, ProjectFacts, RegionParent, SignatureToken, TriggerToken, VertexKindBuild,
    VertexKindToken,
    ScriptStatement,
};

fn empty_project() -> ProjectFacts {
    ProjectFacts { root: ElementId(1), qualified_names: Vec::new(), elements: Vec::new(), relationships: Vec::new(), activities: Vec::new(), state_machines: Vec::new(), interactions: Vec::new(), behavior_ids: Vec::new(), activity_ids: Vec::new() }
}

fn element(ext: &str, kind: &str, name: &str, owner: &str) -> ScriptStatement {
    ScriptStatement::Element {
        external_id: ext.into(),
        kind: kind.into(),
        name: name.into(),
        owner: owner.into(),
        type_ref: None,
        optional_fields: false,
    }
}

fn record(key: &str, kind: &str, name: &str) -> ExternalRecord {
    ExternalRecord { external_id: key.into(), kind: kind.into(), name: name.into() }
}

#[test]
fn duplicate_external_id_is_the_only_diagnostic() {
    let statements = vec![element("X", "Package", "A", "$root"), element("X", "Package", "B", "$root")];
    let ds = compile_statements("dup.groovy", "ns", &statements, &empty_project()).unwrap_err();
    assert_eq!(ds.len(), 1);
    let d = &ds[0];
    assert_eq!(d.code, "DUPLICATE_EXTERNAL_ID");
    assert_eq!(d.statement, Some(2));
    assert_eq!(d.external_id.as_deref(), Some("X"));
    assert_eq!(d.script, "dup.groovy");
    assert_eq!(d.operation.as_deref(), Some("compile"));
    assert_eq!(d.line, None);
    assert_eq!(d.reason, "External ID is duplicated in this script transaction");
}

#[test]
fn preview_of_a_two_element_script() {
    let statements = vec![element("P", "Package", "P", "$root"), element("B", "Block", "B", "ext:P")];
    let plan = compile_statements("t.groovy", "t", &statements, &empty_project()).unwrap();
    assert_eq!(plan.operations.len(), 2);
    assert_eq!(plan.plan_statements, vec![1, 2]);
    match &plan.operations[1] {
        PlanOperation::CreateElement { external_id, kind, owner: BuildReference::External(o), .. } => {
            assert_eq!((external_id.as_str(), kind.as_str(), o.as_str()), ("B", "Block", "P"));
        }
        other => panic!("{other:?}"),
    }
    let compiled = CompiledScript {
        source_namespace: "t".into(),
        operation_count: statements.len(),
        items: plan.items,
        diagrams: vec![ScriptDiagram {
            external_id: "D".into(),
            family: "BDD".into(),
            name: "D".into(),
            owner: "ext:P".into(),
            context: None,
            semantic: None,
            populate: true,
            clean_layout: true,
            route: true,
        }],
    };
    let p = preview_impl(Ok(compiled));
    assert!(p.valid() && !p.applied);
    assert_eq!(p.source_namespace, "t");
    let lines: Vec<(usize, ModelScriptAction, String)> =
        p.items.iter().map(|i| (i.statement, i.action, i.operation.clone())).collect();
    assert_eq!(
        lines,
        vec![
            (1, ModelScriptAction::Create, "Element::Package".to_string()),
            (2, ModelScriptAction::Create, "Element::Block".to_string()),
            (3, ModelScriptAction::Create, "Diagram::BDD".to_string()),
        ]
    );
}

#[test]
fn reconciliation_with_existing_records() {
    let mut project = empty_project();
    project.elements.push(record("ns::A", "Block", "Alpha"));
    project.relationships.push(record("ns::R", "Dependency", ""));
    project.relationships.push(record("ns::Q", "Dependency", ""));
    project.relationships.push(record("ns::Q", "Dependency", ""));
    let same = compile_statements("s", " ns ", &vec![element("A", "Block", "Alpha", "$root")], &project).unwrap();
    assert!(same.operations.is_empty());
    assert_eq!(same.items[0].action, ModelScriptAction::NoChange);
    assert_eq!(same.items[0].detail, "stable identity already matches");
    let renamed = compile_statements("s", "ns", &vec![element("A", "Block", "Beta", "$root")], &project).unwrap();
    assert_eq!(renamed.items[0].action, ModelScriptAction::Update);
    match &renamed.operations[0] {
        PlanOperation::UpdateElementFields { name, owner: Some(BuildReference::Existing(id)), .. } => {
            assert_eq!(name.as_deref(), Some("Beta"));
            assert_eq!(*id, ElementId(1));
        }
        other => panic!("{other:?}"),
    }
    let rel = |ext: &str, name: Option<&str>| ScriptStatement::Relationship {
        external_id: ext.into(),
        kind: "Dependency".into(),
        source: "ext:A".into(),
        target: "$root".into(),
        owner: None,
        name: name.map(str::to_owned),
        optional_fields: false,
    };
    let kept = compile_statements("s", "ns", &vec![rel("R", None)], &project).unwrap();
    assert_eq!(kept.items[0].action, ModelScriptAction::NoChange);
    assert_eq!(kept.items[0].detail, "stable identity already exists");
    let created = compile_statements("s", "ns", &vec![rel("N", Some("uses"))], &project).unwrap();
    assert_eq!(created.operations.len(), 2);
    assert_eq!(created.plan_statements, vec![1, 1]);
    let ambiguous = compile_statements("s", "ns", &vec![rel("Q", None)], &project).unwrap_err();
    assert_eq!(ambiguous[0].code, "AMBIGUOUS_REFERENCE");
    assert_eq!(ambiguous[0].reason, "multiple relationships have the same namespaced External ID");
    let blank = compile_statements("s", "  ", &vec![rel("Q", None)], &project).unwrap_err();
    assert_eq!(blank[0].code, "SOURCE_NAMESPACE_REQUIRED");
    assert_eq!(blank[0].statement, None);
}

#[test]
fn every_failing_statement_is_reported_and_deferred_ones_pass_through() {
    let statements = vec![
        element("A", "Package", "A", "qname:Nowhere"),
        ScriptStatement::Deferred { external_id: Some("ACT".into()) },
        element(" ", "Package", "B", "$root"),
        ScriptStatement::Deferred { external_id: None },
    ];
    let ds = compile_statements("m.groovy", "ns", &statements, &empty_project()).unwrap_err();
    assert_eq!(ds.len(), 2);
    assert_eq!((ds[0].code.as_str(), ds[0].statement, ds[0].script.as_str()), ("UNRESOLVED_REFERENCE", Some(1), "m.groovy"));
    assert_eq!(ds[0].reason, "exact qualified name was not found: Nowhere");
    assert_eq!((ds[1].code.as_str(), ds[1].statement), ("EXTERNAL_ID_REQUIRED", Some(3)));
    let ok = compile_statements("m.groovy", "ns", &statements[1..2].to_vec(), &empty_project()).unwrap();
    assert_eq!(ok.deferred, vec![1]);
    assert!(ok.items.is_empty());
}

fn path(parts: &[&str]) -> Vec<String> {
    parts.iter().map(|s| s.to_string()).collect()
}

fn connector(ext: &str, context: &str) -> ScriptStatement {
    ScriptStatement::Connector {
        external_id: ext.into(),
        context: context.into(),
        kind: "Assembly".into(),
        source_path: path(&["engine", "out"]),
        target_path: path(&["wheels", "in"]),
        name: "drive".into(),
    }
}

fn item_flow(ext: &str, on: &str, conveyed: &[&str]) -> ScriptStatement {
    ScriptStatement::ItemFlow {
        external_id: ext.into(),
        connector: on.into(),
        source_path: path(&["engine", "out"]),
        target_path: path(&["wheels", "in"]),
        conveyed_items: path(conveyed),
        name: "torque".into(),
    }
}

#[test]
fn connectors_and_item_flows_compile_in_order() {
    let statements = vec![connector("C", "ext:Vehicle"), item_flow("F", "ext:C", &["ext:Torque", "$root"])];
    let plan = compile_statements("flows.groovy", "ns", &statements, &empty_project()).unwrap();
    assert_eq!(plan.plan_statements, vec![1, 2]);
    match &plan.operations[0] {
        PlanOperation::CreateConnector { external_id, context: BuildReference::External(c), kind, source_path, target_path, name } => {
            assert_eq!((external_id.as_str(), c.as_str(), kind.as_str(), name.as_str()), ("C", "Vehicle", "Assembly", "drive"));
            assert_eq!(source_path, &path(&["engine", "out"]));
            assert_eq!(target_path, &path(&["wheels", "in"]));
        }
        other => panic!("{other:?}"),
    }
    match &plan.operations[1] {
        PlanOperation::CreateItemFlow { external_id, connector, conveyed_items, name, .. } => {
            assert_eq!((external_id.as_str(), connector.as_str(), name.as_str()), ("F", "C", "torque"));
            assert_eq!(conveyed_items.len(), 2);
            assert!(matches!(&conveyed_items[0], BuildReference::External(t) if t == "Torque"));
            assert!(matches!(&conveyed_items[1], BuildReference::Existing(ElementId(1))));
        }
        other => panic!("{other:?}"),
    }
    let lines: Vec<(usize, ModelScriptAction, String)> =
        plan.items.iter().map(|i| (i.statement, i.action, i.operation.clone())).collect();
    assert_eq!(
        lines,
        vec![
            (1, ModelScriptAction::Create, "Connector".to_string()),
            (2, ModelScriptAction::Create, "ItemFlow".to_string()),
        ]
    );
}

#[test]
fn existing_connector_is_updated_and_kind_collisions_refused() {
    let mut project = empty_project();
    project.relationships.push(record("ns::C", "Connector", "drive"));
    project.relationships.push(record("ns::F", "Association", "a"));
    let plan = compile_statements("u.groovy", "ns", &vec![connector("C", "$root")], &project).unwrap();
    assert!(matches!(&plan.operations[0], PlanOperation::UpdateConnectorFields { context: BuildReference::Existing(ElementId(1)), .. }));
    assert_eq!(plan.items[0].action, ModelScriptAction::Update);
    assert_eq!(plan.items[0].detail, "update through ModelBuildPlan");

    let ds = compile_statements("u.groovy", "ns", &vec![item_flow("F", "ext:C", &[])], &project).unwrap_err();
    assert_eq!(ds.len(), 1);
    assert_eq!(ds[0].code, "WRONG_KIND_COLLISION");
    assert_eq!(ds[0].operation.as_deref(), Some("item_flow"));
    assert_eq!(ds[0].reason, "External ID does not identify an ItemFlow");
    assert_eq!(ds[0].statement, Some(1));
    assert_eq!(ds[0].script, "u.groovy");

    let ds = compile_statements("u.groovy", "ns", &vec![connector("F", "$root")], &project).unwrap_err();
    assert_eq!(ds[0].reason, "External ID does not identify a Connector");
    assert_eq!(ds[0].operation.as_deref(), Some("connector"));
}

#[test]
fn item_flow_needs_an_external_connector_reference() {
    let ds = compile_statements("r.groovy", "ns", &vec![item_flow("F", "qname:Model::C", &[])], &empty_project()).unwrap_err();
    assert_eq!(ds[0].code, "REFERENCE_KIND_INVALID");
    assert_eq!(ds[0].operation.as_deref(), Some("reference"));
    assert_eq!(ds[0].external_id, None);
    // conveyed items are resolved before the connector reference
    let ds = compile_statements("r.groovy", "ns", &vec![item_flow("F", "$root", &["qname:Nope"])], &empty_project()).unwrap_err();
    assert_eq!(ds[0].code, "UNRESOLVED_REFERENCE");
    assert_eq!(ds[0].reason, "exact qualified name was not found: Nope");
}

#[test]
fn behavior_operations_follow_project_operations() {
    let mut project = empty_project();
    project.activities.push(record("ns::A", "Activity", "Drive"));
    project.state_machines.push(record("ns::SM", "StateMachine", "Modes"));
    let statements = vec![
        ScriptStatement::Activity { external_id: "A".into(), name: "Drive".into(), owner: "$root".into(), context: Some("ext:Car".into()) },
        ScriptStatement::Behavior { family: BehaviorFamily::StateMachine, external_id: "SM".into(), name: "Modes".into(), context: "ext:Car".into() },
        element("Car", "Block", "Car", "$root"),
        ScriptStatement::Behavior { family: BehaviorFamily::Interaction, external_id: "I".into(), name: "Start".into(), context: "ext:Car".into() },
        ScriptStatement::Activity { external_id: "B".into(), name: "Brake".into(), owner: "$root".into(), context: None },
    ];
    let plan = compile_statements("b.groovy", "ns", &statements, &project).unwrap();
    assert_eq!(plan.plan_statements, vec![3, 1, 2, 4, 5]);
    assert!(matches!(&plan.operations[0], PlanOperation::CreateElement { .. }));
    match &plan.operations[1] {
        PlanOperation::UpdateActivity { external_id, name, owner: BuildReference::Existing(ElementId(1)), context: Some(BuildReference::External(c)) } => {
            assert_eq!((external_id.as_str(), name, c.as_str()), ("A", &None, "Car"));
        }
        other => panic!("{other:?}"),
    }
    assert!(matches!(&plan.operations[2], PlanOperation::UpdateBehavior { family: BehaviorFamily::StateMachine, .. }));
    assert!(matches!(&plan.operations[3], PlanOperation::CreateBehavior { family: BehaviorFamily::Interaction, .. }));
    assert!(matches!(&plan.operations[4], PlanOperation::CreateActivity { context: None, .. }));
    let lines: Vec<(usize, ModelScriptAction, String, String)> =
        plan.items.iter().map(|i| (i.statement, i.action, i.operation.clone(), i.detail.clone())).collect();
    assert_eq!(
        lines,
        vec![
            (1, ModelScriptAction::Update, "Activity".to_string(), "update through unified candidate".to_string()),
            (2, ModelScriptAction::Update, "StateMachine".to_string(), "unified Behavior repository".to_string()),
            (3, ModelScriptAction::Create, "Element::Block".to_string(), "create through ModelBuildPlan".to_string()),
            (4, ModelScriptAction::Create, "Interaction".to_string(), "unified Behavior repository".to_string()),
            (5, ModelScriptAction::Create, "Activity".to_string(), "create through unified candidate".to_string()),
        ]
    );
}

#[test]
fn renamed_activity_carries_its_new_name() {
    let mut project = empty_project();
    project.activities.push(record("ns::A", "Activity", "Drive"));
    let statements = vec![ScriptStatement::Activity { external_id: "A".into(), name: "Cruise".into(), owner: "$root".into(), context: None }];
    let plan = compile_statements("b.groovy", "ns", &statements, &project).unwrap();
    assert!(matches!(&plan.operations[0], PlanOperation::UpdateActivity { name: Some(n), .. } if n == "Cruise"));
}

#[test]
fn regions_and_lifelines_need_their_parents_and_kinds() {
    let mut project = empty_project();
    project.behavior_ids.push(record("ns::R", "Region", "Main"));
    project.behavior_ids.push(record("ns::L", "Transition", "t"));
    let statements = vec![
        ScriptStatement::Region { external_id: "R".into(), name: "Main".into(), state_machine: Some("ext:SM".into()), state: None },
        ScriptStatement::Region { external_id: "R2".into(), name: "Inner".into(), state_machine: None, state: Some("ext:On".into()) },
        ScriptStatement::Lifeline { external_id: "L2".into(), interaction: "ext:I".into(), name: "driver".into(), represented_path: vec!["ext:Car".into()] },
    ];
    let plan = compile_statements("s.groovy", "ns", &statements, &project).unwrap();
    assert!(matches!(&plan.operations[0], PlanOperation::UpdateRegion { external_id, .. } if external_id == "R"));
    match &plan.operations[1] {
        PlanOperation::CreateRegion { external_id, parent: RegionParent::State(s), name } => {
            assert_eq!((external_id.as_str(), s.as_str(), name.as_str()), ("R2", "On", "Inner"));
        }
        other => panic!("{other:?}"),
    }
    match &plan.operations[2] {
        PlanOperation::CreateLifeline { interaction, represented_path, .. } => {
            assert_eq!(interaction, "I");
            assert!(matches!(&represented_path[..], [BuildReference::External(c)] if c == "Car"));
        }
        other => panic!("{other:?}"),
    }

    let bad = vec![
        ScriptStatement::Region { external_id: "R3".into(), name: "x".into(), state_machine: Some("ext:SM".into()), state: Some("ext:On".into()) },
        ScriptStatement::Lifeline { external_id: "L".into(), interaction: "ext:I".into(), name: "x".into(), represented_path: Vec::new() },
        ScriptStatement::Region { external_id: "R4".into(), name: "x".into(), state_machine: Some("$root".into()), state: None },
    ];
    let ds = compile_statements("s.groovy", "ns", &bad, &project).unwrap_err();
    let codes: Vec<(Option<usize>, String, Option<String>)> =
        ds.iter().map(|d| (d.statement, d.code.clone(), d.operation.clone())).collect();
    assert_eq!(
        codes,
        vec![
            (Some(1), "REGION_PARENT_INVALID".to_string(), Some("region".to_string())),
            (Some(2), "WRONG_KIND_COLLISION".to_string(), Some("lifeline".to_string())),
            (Some(3), "REFERENCE_KIND_INVALID".to_string(), Some("reference".to_string())),
        ]
    );
    assert_eq!(ds[1].reason, "External ID has another Behavior semantic kind");
}

#[test]
fn occurrences_and_invariants_sit_on_lifelines() {
    let mut project = empty_project();
    project.behavior_ids.push(record("ns::O", "Occurrence", ""));
    project.behavior_ids.push(record("ns::S", "Occurrence", ""));
    let on = |ext: &str, constraint: Option<&str>| ScriptStatement::OnLifeline {
        external_id: ext.into(),
        interaction: "ext:I".into(),
        lifeline: "handle:L".into(),
        order: 3,
        constraint: constraint.map(str::to_owned),
    };
    let plan = compile_statements("o.groovy", "ns", &vec![on("O", None), on("N", Some("speed > 0"))], &project).unwrap();
    assert!(matches!(&plan.operations[0], PlanOperation::UpdateOnLifeline { external_id, lifeline, order: 3, constraint: None }
        if external_id == "O" && lifeline == "L"));
    assert!(matches!(&plan.operations[1], PlanOperation::CreateOnLifeline { interaction, constraint: Some(c), .. }
        if interaction == "I" && c == "speed > 0"));
    let names: Vec<(ModelScriptAction, String, Option<String>)> =
        plan.items.iter().map(|i| (i.action, i.operation.clone(), i.semantic_name.clone())).collect();
    assert_eq!(
        names,
        vec![
            (ModelScriptAction::Update, "Occurrence".to_string(), None),
            (ModelScriptAction::Create, "StateInvariant".to_string(), None),
        ]
    );
    let ds = compile_statements("o.groovy", "ns", &vec![on("S", Some("x"))], &project).unwrap_err();
    assert_eq!((ds[0].code.as_str(), ds[0].operation.as_deref()), ("WRONG_KIND_COLLISION", Some("state_invariant")));
}

#[test]
fn executions_fragments_and_operands_compile() {
    let mut project = empty_project();
    project.behavior_ids.push(record("ns::X", "Execution", ""));
    project.behavior_ids.push(record("ns::F", "Operand", ""));
    let statements = vec![
        ScriptStatement::Execution {
            external_id: "X".into(),
            interaction: "ext:I".into(),
            lifeline: "ext:L".into(),
            start: "ext:S".into(),
            finish: "ext:E".into(),
            behavior: Some("ext:Act".into()),
        },
        ScriptStatement::CombinedFragment {
            external_id: "G".into(),
            interaction: "ext:I".into(),
            operator: "alt".into(),
            covered_lifelines: vec!["ext:L".into(), "handle:M".into()],
        },
        ScriptStatement::Operand { external_id: "O".into(), fragment: "ext:G".into(), guard: Some("ok".into()), start_order: 1, end_order: 4 },
    ];
    let plan = compile_statements("x.groovy", "ns", &statements, &project).unwrap();
    match &plan.operations[0] {
        PlanOperation::UpdateExecution { external_id, lifeline, start, finish, behavior: Some(BuildReference::External(b)) } => {
            assert_eq!((external_id.as_str(), lifeline.as_str(), start.as_str(), finish.as_str(), b.as_str()), ("X", "L", "S", "E", "Act"));
        }
        other => panic!("{other:?}"),
    }
    match &plan.operations[1] {
        PlanOperation::CreateFragment { interaction, operator, covered_lifelines, .. } => {
            assert_eq!((interaction.as_str(), operator.as_str()), ("I", "alt"));
            assert_eq!(covered_lifelines, &vec!["L".to_string(), "M".to_string()]);
        }
        other => panic!("{other:?}"),
    }
    assert!(matches!(&plan.operations[2], PlanOperation::CreateOperand { fragment, start_order: 1, end_order: 4, .. } if fragment == "G"));
    let shown: Vec<String> = plan.items.iter().map(|i| i.operation.clone()).collect();
    assert_eq!(shown, vec!["ExecutionSpecification", "CombinedFragment", "InteractionOperand"]);

    let bad = vec![
        ScriptStatement::CombinedFragment { external_id: "G2".into(), interaction: "ext:I".into(), operator: "alt".into(), covered_lifelines: vec!["qname:A::L".into()] },
        ScriptStatement::Operand { external_id: "X".into(), fragment: "ext:G".into(), guard: None, start_order: 0, end_order: 0 },
        ScriptStatement::Execution { external_id: "E2".into(), interaction: "ext:I".into(), lifeline: "ext:L".into(), start: "$root".into(), finish: "ext:E".into(), behavior: None },
    ];
    let ds = compile_statements("x.groovy", "ns", &bad, &project).unwrap_err();
    let codes: Vec<(String, Option<String>)> = ds.iter().map(|d| (d.code.clone(), d.operation.clone())).collect();
    assert_eq!(
        codes,
        vec![
            ("REFERENCE_KIND_INVALID".to_string(), Some("reference".to_string())),
            ("WRONG_KIND_COLLISION".to_string(), Some("operand".to_string())),
            ("REFERENCE_KIND_INVALID".to_string(), Some("reference".to_string())),
        ]
    );
}

#[test]
fn partitions_structured_nodes_and_edges_compile() {
    let mut project = empty_project();
    project.activity_ids.push(record("ns::E", "Edge", ""));
    project.activity_ids.push(record("ns::P", "Pin", ""));
    let texts = || EdgeTexts { guard: Some("[ok]".into()), weight: None, selection: None, transformation: Some("t".into()) };
    let statements = vec![
        ScriptStatement::ActivityPartition {
            external_id: "Part".into(),
            activity: "ext:A".into(),
            name: "Driver".into(),
            represented_element: Some("$root".into()),
            is_dimension: true,
            is_external: false,
        },
        ScriptStatement::StructuredActivityNode { external_id: "S".into(), activity: "ext:A".into(), name: "Loop".into(), kind: "loop".into(), parent: Some("ext:Outer".into()) },
        ScriptStatement::ActivityEdge {
            external_id: "E".into(),
            activity: "ext:A".into(),
            name: "flow".into(),
            kind: "control".into(),
            source: "ext:N1".into(),
            target: "ext:Pin2".into(),
            source_is_pin: false,
            target_is_pin: true,
            texts: texts(),
            interrupting_region: None,
        },
    ];
    let plan = compile_statements("a.groovy", "ns", &statements, &project).unwrap();
    assert!(matches!(&plan.operations[0], PlanOperation::CreatePartition { activity, represented_element: Some(BuildReference::Existing(ElementId(1))), is_dimension: true, is_external: false, .. } if activity == "A"));
    assert!(matches!(&plan.operations[1], PlanOperation::CreateStructuredNode { parent: Some(p), kind, .. } if p == "Outer" && kind == "loop"));
    match &plan.operations[2] {
        PlanOperation::UpdateEdge { external_id, source: EdgeEnd::Node(s), target: EdgeEnd::Pin(t), texts, interrupting_region: None, .. } => {
            assert_eq!((external_id.as_str(), s.as_str(), t.as_str()), ("E", "N1", "Pin2"));
            assert_eq!(texts.guard.as_deref(), Some("[ok]"));
            assert_eq!(texts.transformation.as_deref(), Some("t"));
        }
        other => panic!("{other:?}"),
    }
    let lines: Vec<(ModelScriptAction, String, String)> = plan.items.iter().map(|i| (i.action, i.operation.clone(), i.detail.clone())).collect();
    assert_eq!(lines[2], (ModelScriptAction::Update, "ActivityEdge".to_string(), "unified Activity repository".to_string()));

    let bad = vec![ScriptStatement::ActivityPartition {
        external_id: "P".into(),
        activity: "ext:A".into(),
        name: "x".into(),
        represented_element: None,
        is_dimension: false,
        is_external: false,
    }];
    let ds = compile_statements("a.groovy", "ns", &bad, &project).unwrap_err();
    assert_eq!((ds[0].code.as_str(), ds[0].operation.as_deref()), ("WRONG_KIND_COLLISION", Some("activity_partition")));
    assert_eq!(ds[0].reason, "External ID has another Activity semantic kind");
}

#[test]
fn transitions_and_bindings_compile() {
    let mut project = empty_project();
    project.behavior_ids.push(record("ns::T", "Transition", ""));
    project.relationships.push(record("ns::B", "BindingConnector", "b"));
    project.relationships.push(record("ns::C", "Connector", "c"));
    let statements = vec![
        ScriptStatement::Transition {
            external_id: "T".into(),
            region: "ext:R".into(),
            source: "ext:Off".into(),
            target: "ext:On".into(),
            kind: "External".into(),
            trigger: Some(TriggerToken::Signal("ext:Start".into())),
            guard: Some("ready".into()),
            effect: None,
        },
        ScriptStatement::Transition {
            external_id: "T2".into(),
            region: "ext:R".into(),
            source: "ext:On".into(),
            target: "ext:Off".into(),
            kind: "Local".into(),
            trigger: Some(TriggerToken::Time { expression: "5 s".into(), is_relative: true }),
            guard: None,
            effect: Some("stop".into()),
        },
        ScriptStatement::Binding {
            external_id: "B".into(),
            name: "b".into(),
            owner: "$root".into(),
            source: BindingEndToken { role: "ext:mass".into(), parameter: None },
            target: BindingEndToken { role: "ext:eq".into(), parameter: Some("ext:m".into()) },
        },
    ];
    let plan = compile_statements("t.groovy", "ns", &statements, &project).unwrap();
    match &plan.operations[0] {
        PlanOperation::UpdateTransition { external_id, source, target, trigger: Some(TriggerBuild::Signal(BuildReference::External(s))), guard, .. } => {
            assert_eq!((external_id.as_str(), source.as_str(), target.as_str(), s.as_str()), ("T", "Off", "On", "Start"));
            assert_eq!(guard.as_deref(), Some("ready"));
        }
        other => panic!("{other:?}"),
    }
    assert!(matches!(&plan.operations[1], PlanOperation::CreateTransition { region, trigger: Some(TriggerBuild::Time { is_relative: true, .. }), .. } if region == "R"));
    match &plan.operations[2] {
        PlanOperation::UpdateBinding { external_id, owner: BuildReference::Existing(ElementId(1)), target, .. } => {
            assert_eq!(external_id, "B");
            assert!(matches!(&target.parameter, Some(BuildReference::External(m)) if m == "m"));
        }
        other => panic!("{other:?}"),
    }
    let lines: Vec<(ModelScriptAction, String, String)> = plan.items.iter().map(|i| (i.action, i.operation.clone(), i.detail.clone())).collect();
    assert_eq!(lines[2], (ModelScriptAction::Update, "BindingConnector".to_string(), "native parametric build operation".to_string()));

    let bad = vec![ScriptStatement::Binding {
        external_id: "C".into(),
        name: "c".into(),
        owner: "$root".into(),
        source: BindingEndToken { role: "ext:a".into(), parameter: None },
        target: BindingEndToken { role: "ext:b".into(), parameter: None },
    }];
    let ds = compile_statements("t.groovy", "ns", &bad, &project).unwrap_err();
    assert_eq!(ds[0].reason, "External ID does not identify a BindingConnector");
    assert_eq!(ds[0].operation.as_deref(), Some("binding"));
}

#[test]
fn vertices_and_messages_compile() {
    let mut project = empty_project();
    project.behavior_ids.push(record("ns::M", "Message", ""));
    let statements = vec![
        ScriptStatement::Vertex {
            external_id: "On".into(),
            region: "ext:R".into(),
            name: "On".into(),
            vertex: VertexKindToken::State { entry: Some("warm up".into()), do_activity: None, exit: None, submachine: Some("ext:Sub".into()) },
        },
        ScriptStatement::Vertex { external_id: "Init".into(), region: "ext:R".into(), name: "".into(), vertex: VertexKindToken::Pseudostate("initial".into()) },
        ScriptStatement::Message {
            external_id: "M".into(),
            interaction: "ext:I".into(),
            name: "start".into(),
            sort: "synch_call".into(),
            send: Some("ext:S1".into()),
            receive: None,
            signature: Some(SignatureToken::Operation("$root".into())),
            arguments: vec!["1".into(), "fast".into()],
        },
    ];
    let plan = compile_statements("v.groovy", "ns", &statements, &project).unwrap();
    match &plan.operations[0] {
        PlanOperation::CreateVertex { region, kind: VertexKindBuild::State { entry, submachine, .. }, .. } => {
            assert_eq!((region.as_str(), entry.as_deref(), submachine.as_deref()), ("R", Some("warm up"), Some("Sub")));
        }
        other => panic!("{other:?}"),
    }
    assert!(matches!(&plan.operations[1], PlanOperation::CreateVertex { kind: VertexKindBuild::Pseudostate(p), .. } if p == "initial"));
    match &plan.operations[2] {
        PlanOperation::UpdateMessage { external_id, send, receive: None, signature: Some(MessageSignatureBuild::Operation(BuildReference::Existing(ElementId(1)))), arguments, .. } => {
            assert_eq!((external_id.as_str(), send.as_deref()), ("M", Some("S1")));
            assert_eq!(arguments, &vec!["1".to_string(), "fast".to_string()]);
        }
        other => panic!("{other:?}"),
    }
    let bad = vec![ScriptStatement::Vertex {
        external_id: "X".into(),
        region: "ext:R".into(),
        name: "x".into(),
        vertex: VertexKindToken::State { entry: None, do_activity: None, exit: None, submachine: Some("qname:A".into()) },
    }];
    let ds = compile_statements("v.groovy", "ns", &bad, &project).unwrap_err();
    assert_eq!(ds[0].code, "REFERENCE_KIND_INVALID");
}

#[test]
fn activity_nodes_resolve_their_kinds() {
    let mut project = empty_project();
    project.activity_ids.push(record("ns::N", "Node", ""));
    let node = |ext: &str, kind: NodeKindToken| ScriptStatement::ActivityNode {
        external_id: ext.into(),
        activity: "ext:A".into(),
        name: ext.into(),
        node: kind,
        partition: Some("ext:P".into()),
        structured_node: None,
    };
    let statements = vec![
        node("N", NodeKindToken::CallBehavior { activity: "ext:Sub".into() }),
        node("S", NodeKindToken::SendSignal { signal: "$root".into() }),
        node("D", NodeKindToken::Decision { decision_input: Some("x > 0".into()) }),
    ];
    let plan = compile_statements("n.groovy", "ns", &statements, &project).unwrap();
    assert!(matches!(&plan.operations[0], PlanOperation::UpdateNode { kind: NodeKindBuild::CallBehavior { activity }, partition: Some(p), .. }
        if activity == "Sub" && p == "P"));
    assert!(matches!(&plan.operations[1], PlanOperation::CreateNode { kind: NodeKindBuild::SendSignal { signal: BuildReference::Existing(ElementId(1)) }, .. }));
    assert!(matches!(&plan.operations[2], PlanOperation::CreateNode { kind: NodeKindBuild::Decision { decision_input: Some(d) }, .. } if d == "x > 0"));
    let ds = compile_statements("n.groovy", "ns", &vec![node("C", NodeKindToken::CallBehavior { activity: "$root".into() })], &project).unwrap_err();
    assert_eq!(ds[0].code, "REFERENCE_KIND_INVALID");
}

#[test]
fn pins_compile_on_their_actions() {
    let statements = vec![ScriptStatement::Pin {
        external_id: "In".into(),
        owner_action: "handle:Act".into(),
        name: "speed".into(),
        direction: "input".into(),
        type_ref: Some("$root".into()),
        multiplicity: "1".into(),
        is_ordered: false,
        is_unique: true,
        value: None,
        parameter: None,
    }];
    let plan = compile_statements("p.groovy", "ns", &statements, &empty_project()).unwrap();
    match &plan.operations[0] {
        PlanOperation::CreatePin { owner_action, fields, type_ref: Some(BuildReference::Existing(ElementId(1))), parameter: None, .. } => {
            assert_eq!((owner_action.as_str(), fields.direction.as_str(), fields.is_unique), ("Act", "input", true));
        }
        other => panic!("{other:?}"),
    }
    assert_eq!((plan.items[0].operation.as_str(), plan.items[0].action), ("Pin", ModelScriptAction::Create));
}

#[test]
fn previewing_statements_compiles_them_first() {
    let statements = vec![element("P", "Package", "P", "$root"), element("B", "Block", "B", "ext:P")];
    let diagram = ScriptDiagram {
        external_id: "D".into(),
        family: "BDD".into(),
        name: "D".into(),
        owner: "ext:P".into(),
        context: None,
        semantic: None,
        populate: true,
        clean_layout: true,
        route: true,
    };
    let p = preview_statements("t.groovy", "t", &statements, vec![diagram], &empty_project());
    assert!(p.valid() && !p.applied);
    let lines: Vec<(usize, ModelScriptAction, String)> =
        p.items.iter().map(|i| (i.statement, i.action, i.operation.clone())).collect();
    assert_eq!(
        lines,
        vec![
            (1, ModelScriptAction::Create, "Element::Package".to_string()),
            (2, ModelScriptAction::Create, "Element::Block".to_string()),
            (3, ModelScriptAction::Create, "Diagram::BDD".to_string()),
        ]
    );
    let failed = preview_statements("t.groovy", " ", &statements, Vec::new(), &empty_project());
    assert!(!failed.valid() && !failed.applied && failed.items.is_empty());
    assert_eq!(failed.diagnostics[0].code, "SOURCE_NAMESPACE_REQUIRED");
}
