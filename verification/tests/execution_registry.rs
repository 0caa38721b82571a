use workspace_model::execution_registry::{
    check_runtime_root, runtime_context, select_runtime_occurrence, ExecutionRegistry, RuntimeContext,
    Table,
};
use workspace_model::model_script::ElementKind;

#[test]
fn table_keeps_one_value_per_key() {
    let mut t: Table<u32> = Table::new();
    assert_eq!(t.get("a"), None);
    t.insert("a".into(), 1);
    t.insert("b".into(), 2);
    t.insert("a".into(), 3);
    assert_eq!(t.get("a"), Some(&3));
    assert_eq!(t.remove("a"), Some(3));
    assert_eq!(t.get("a"), None);
    assert_eq!(t.get("b"), Some(&2));
    assert_eq!(t.remove("zzz"), None);
}

#[test]
fn sessions_follow_the_model_they_started_from() {
    let mut r: ExecutionRegistry<String> = ExecutionRegistry::new();
    assert_eq!(
        r.current_session("d1"),
        Err("initialize this Parametric execution first".to_string())
    );
    r.record_start("d1".into(), 7, "model-v1".into());
    assert_eq!(r.current_session("d1"), Ok(7));
    assert_eq!(r.shown_session("d1", "model-v1"), Some(7));
    assert_eq!(r.shown_session("d1", "model-v2"), None);
    assert_eq!(r.steppable_session("d1", "model-v1"), Ok(7));
    assert_eq!(
        r.steppable_session("d1", "model-v2"),
        Err("Parametric model changed; initialize execution again".to_string())
    );
    assert_eq!(r.invalidate("d1"), Some(7));
    assert_eq!(r.shown_session("d1", "model-v1"), None);
    assert_eq!(r.invalidate("d1"), None);
}

#[test]
fn configuring_a_runtime_stops_the_running_execution() {
    let mut r: ExecutionRegistry<String> = ExecutionRegistry::new();
    r.record_start("d1".into(), 1, "f".into());
    r.record_start("d2".into(), 2, "g".into());
    assert_eq!(r.configure("d1".into(), "vehicle.engine".into()), Some(1));
    assert_eq!(r.selection("d1").map(String::as_str), Some("vehicle.engine"));
    assert!(r.current_session("d1").is_err());
    assert_eq!(r.current_session("d2"), Ok(2));
    assert_eq!(r.selection("d2"), None);
}

#[test]
fn runtime_occurrence_choice() {
    let one = vec!["vehicle.engine".to_string()];
    let two = vec!["vehicle.front".to_string(), "vehicle.rear".to_string()];
    assert_eq!(select_runtime_occurrence(None, &one, "Engine"), Ok(Some("vehicle.engine".into())));
    assert_eq!(select_runtime_occurrence(None, &two, "Engine"), Ok(None));
    assert_eq!(select_runtime_occurrence(Some("vehicle.rear"), &two, "Engine"), Ok(Some("vehicle.rear".into())));
    assert_eq!(
        select_runtime_occurrence(Some("vehicle.side"), &two, "Engine"),
        Err("Parametric runtime occurrence 'vehicle.side' is not compatible with context 'Engine'. Compatible occurrence(s): vehicle.front, vehicle.rear.".into())
    );
    assert_eq!(
        select_runtime_occurrence(Some("x"), &[], "Engine"),
        Err("Parametric runtime occurrence 'x' is not compatible with context 'Engine'. Compatible occurrence(s): none.".into())
    );
}

#[test]
fn runtime_contexts_and_roots() {
    assert_eq!(
        runtime_context(ElementKind::ConstraintBlock, "Newton", "ConstraintBlock", false),
        Ok(RuntimeContext::Definition)
    );
    assert_eq!(
        runtime_context(ElementKind::ConstraintBlock, "Newton", "ConstraintBlock", true),
        Err("ConstraintBlock 'Newton' is a reusable definition and cannot select a runtime occurrence."
            .to_string())
    );
    assert_eq!(
        runtime_context(ElementKind::Block, "Vehicle", "Block", true),
        Ok(RuntimeContext::InStructure)
    );
    assert_eq!(
        runtime_context(ElementKind::AssociationBlock, "Link", "AssociationBlock", false),
        Ok(RuntimeContext::InStructure)
    );
    assert_eq!(
        runtime_context(ElementKind::Package, "Pkg", "Package", false),
        Err("Parametric context 'Pkg' (Package) is not an executable structural classifier."
            .to_string())
    );
    for kind in [
        ElementKind::Block,
        ElementKind::AssociationBlock,
        ElementKind::PartProperty,
        ElementKind::InstanceSpecification,
    ] {
        assert_eq!(check_runtime_root(kind, "r", "k"), Ok(()));
    }
    assert_eq!(
        check_runtime_root(ElementKind::ValueProperty, "speed", "ValueProperty"),
        Err("Parametric runtime root 'speed' (ValueProperty) is not a structural execution root."
            .to_string())
    );
}
