use workspace_model::model_build::ElementId;
use workspace_model::model_script::{diag, preview_impl, CompiledScript, ModelScriptPreview, ScriptDiagram};
use workspace_model::script_compile::{compile_statements, ProjectFacts, ScriptStatement};
use workspace_model::workspace_state::{
    clone_states, commit_candidate, ActivityWorkspaceState, Locked, WorkspaceState,
};

type Workspace = WorkspaceState<String, Vec<u32>, Vec<u32>, String, Vec<u32>, Option<String>, String>;
type Activity = ActivityWorkspaceState<String, Vec<u32>>;

fn locked<T>(value: T) -> Locked<T> {
    Locked { value, poisoned: false }
}

fn workspace(tag: &str) -> (Workspace, Activity) {
    (
        WorkspaceState {
            project: locked(format!("{tag} project")),
            diagrams: locked(vec![1]),
            ibd_diagrams: locked(vec![2]),
            behavior: locked(format!("{tag} behavior")),
            behavior_diagrams: locked(vec![3]),
            current_file: locked(Some(format!("{tag}.smproj"))),
            reqif_exchange: locked(format!("{tag} reqif")),
        },
        ActivityWorkspaceState { repository: locked(format!("{tag} activities")), diagrams: locked(vec![4]) },
    )
}

#[test]
fn copies_are_fresh_and_equal() {
    let (w, a) = workspace("live");
    let (cw, ca) = clone_states(&w, &a).unwrap();
    assert_eq!(cw.project.value, "live project");
    assert_eq!(cw.current_file.value.as_deref(), Some("live.smproj"));
    assert_eq!(ca.diagrams.value, vec![4]);
    assert!(!cw.project.poisoned && !ca.repository.poisoned);
}

#[test]
fn copy_reports_the_first_poisoned_lock() {
    let (mut w, mut a) = workspace("live");
    a.diagrams.poisoned = true;
    assert_eq!(clone_states(&w, &a).err(), Some("Activity diagram lock poisoned".to_string()));
    w.current_file.poisoned = true;
    assert_eq!(clone_states(&w, &a).err(), Some("project path lock poisoned".to_string()));
    w.ibd_diagrams.poisoned = true;
    assert_eq!(clone_states(&w, &a).err(), Some("IBD lock poisoned".to_string()));
}

#[test]
fn commit_publishes_everything_but_the_file_and_exchange() {
    let (mut w, mut a) = workspace("live");
    let (mut cw, mut ca) = clone_states(&w, &a).unwrap();
    cw.project.value = "edited project".into();
    cw.ibd_diagrams.value.push(9);
    cw.current_file.value = None;
    cw.reqif_exchange.value = "edited reqif".into();
    ca.repository.value = "edited activities".into();
    assert!(commit_candidate(&mut w, &mut a, &cw, &ca).is_ok());
    assert_eq!(w.project.value, "edited project");
    assert_eq!(w.ibd_diagrams.value, vec![2, 9]);
    assert_eq!(a.repository.value, "edited activities");
    assert_eq!(w.current_file.value.as_deref(), Some("live.smproj"));
    assert_eq!(w.reqif_exchange.value, "live reqif");
}

#[test]
fn poisoned_lock_leaves_live_workspace_unchanged() {
    let (mut w, mut a) = workspace("live");
    let (mut cw, ca) = workspace("candidate");
    a.diagrams.poisoned = true;
    assert_eq!(
        commit_candidate(&mut w, &mut a, &cw, &ca).err(),
        Some("Activity diagram lock poisoned".to_string())
    );
    assert_eq!(w.project.value, "live project");
    assert_eq!(a.repository.value, "live activities");
    cw.behavior.poisoned = true;
    assert_eq!(
        commit_candidate(&mut w, &mut a, &cw, &ca).err(),
        Some("candidate behavior lock poisoned".to_string())
    );
    assert_eq!(w.behavior.value, "live behavior");
}

fn snapshot(w: &Workspace, a: &Activity) -> (String, Vec<u32>, String) {
    (w.project.value.clone(), w.diagrams.value.clone(), a.repository.value.clone())
}

#[test]
fn dry_run_is_non_mutating_and_apply_is_atomic() {
    let (mut w, mut a) = workspace("live");
    let before = snapshot(&w, &a);
    let element = |ext: &str, kind: &str, owner: &str| ScriptStatement::Element {
        external_id: ext.into(),
        kind: kind.into(),
        name: "Vehicle".into(),
        owner: owner.into(),
        type_ref: None,
        optional_fields: false,
    };
    let statements = vec![element("PKG", "Package", "$root"), element("VEH", "Block", "ext:PKG")];
    let facts = ProjectFacts { root: ElementId(1), qualified_names: Vec::new(), elements: Vec::new(), relationships: Vec::new(), activities: Vec::new(), state_machines: Vec::new(), interactions: Vec::new(), behavior_ids: Vec::new(), activity_ids: Vec::new() };
    let plan = compile_statements("test.groovy", "script-test", &statements, &facts).unwrap();
    assert_eq!(plan.operations.len(), 2);
    let compiled = CompiledScript {
        source_namespace: "script-test".into(),
        operation_count: statements.len(),
        items: plan.items,
        diagrams: vec![ScriptDiagram {
            external_id: "BDD".into(),
            family: "bdd".into(),
            name: "Vehicle Structure".into(),
            owner: "ext:PKG".into(),
            context: None,
            semantic: None,
            populate: false,
            clean_layout: false,
            route: false,
        }],
    };
    let preview = preview_impl(Ok(compiled));
    assert!(preview.valid(), "{:?}", preview.diagnostics);
    assert_eq!(snapshot(&w, &a), before);
    let (mut cw, ca) = clone_states(&w, &a).unwrap();
    cw.project.value = "live project + Vehicle".into();
    cw.diagrams.value.push(5);
    assert!(commit_candidate(&mut w, &mut a, &cw, &ca).is_ok());
    assert_eq!(w.project.value, "live project + Vehicle");
    assert_eq!(w.diagrams.value, vec![1, 5]);
}

#[test]
fn late_invalid_binding_leaves_live_workspace_unchanged() {
    let (w, a) = workspace("live");
    let before = snapshot(&w, &a);
    let failed = ModelScriptPreview {
        host: "h".into(),
        applied: false,
        source_namespace: "rollback".into(),
        items: Vec::new(),
        diagnostics: vec![diag(
            "rollback.groovy",
            Some(3),
            Some("binding".into()),
            Some("BAD".into()),
            "UNRESOLVED_REFERENCE",
            "External ID was not found: DOES_NOT_EXIST",
        )],
    };
    let preview = preview_impl(Err(failed.diagnostics));
    assert!(!preview.valid());
    assert_eq!(snapshot(&w, &a), before);
}
