use workspace_model::history::HistoryState;
use workspace_model::ids::element_id_text;
use workspace_model::model_build::ElementId;
use workspace_model::model_script::ElementKind;
use workspace_model::navigation::{
    context_diagram, context_source, owner_step, type_ibd_name, ContextDiagram, ContextSource,
    ElementFacts,
};

const ROOT: ElementId = ElementId(1);
const PACKAGE: ElementId = ElementId(2);
const VEHICLE: ElementId = ElementId(3);
const ENGINE: ElementId = ElementId(4);
const PART: ElementId = ElementId(5);
const UNTYPED: ElementId = ElementId(6);
const INNER: ElementId = ElementId(7);
const NESTED: ElementId = ElementId(8);

fn facts(id: ElementId) -> ElementFacts {
    let (kind, name, type_id, owner_id) = match id {
        ROOT => (ElementKind::Model, "Model", None, None),
        PACKAGE => (ElementKind::Package, "Definitions", None, Some(ROOT)),
        VEHICLE => (ElementKind::Block, "Vehicle", None, Some(ROOT)),
        ENGINE => (ElementKind::Block, "Engine", None, Some(PACKAGE)),
        PART => (ElementKind::PartProperty, "engine", Some(ENGINE), Some(VEHICLE)),
        UNTYPED => (ElementKind::ReferenceProperty, "driver", None, Some(VEHICLE)),
        INNER => (ElementKind::Block, "Inner", None, Some(VEHICLE)),
        NESTED => (ElementKind::Block, "Orphan", None, None),
        _ => panic!("unknown element"),
    };
    ElementFacts { id, kind, name: name.to_string(), type_id, owner_id }
}

/// Open the type-level diagram for `selected`: the existing diagram's
/// position, or the context, owner and name of a new one.
fn open(
    selected: ElementId,
    contexts: &Vec<String>,
) -> Result<Result<usize, (ElementId, ElementId, String)>, String> {
    let selected = facts(selected);
    let context = match context_source(&selected)? {
        ContextSource::Selected => selected,
        ContextSource::TypeOf(t) => facts(t),
    };
    match context_diagram(&context, contexts)? {
        ContextDiagram::Reuse(k) => Ok(Ok(k)),
        ContextDiagram::Create(mut owner) => {
            while let Some(next) = owner_step(&facts(owner))? {
                owner = next;
            }
            Ok(Err((context.id, owner, type_ibd_name(&context.name))))
        }
    }
}

#[test]
fn type_navigation_reuses_definition_and_diagram_with_one_history_entry() {
    let mut history: HistoryState<Vec<String>> = HistoryState::new();
    let mut contexts: Vec<String> = Vec::new();
    let created = open(PART, &contexts).unwrap();
    assert_eq!(created, Err((ENGINE, PACKAGE, "Engine Internal Structure".to_string())));
    let mut candidate = contexts.clone();
    candidate.push(element_id_text(ENGINE));
    assert!(history.apply_structural_specification(&mut contexts, candidate, true));
    assert_eq!(contexts[0], element_id_text(ENGINE));
    assert_eq!(history.undo_len(), 1);
    assert_eq!(open(ENGINE, &contexts), Ok(Ok(0)));
    let unchanged = contexts.clone();
    assert!(!history.apply_structural_specification(&mut contexts, unchanged, false));
    assert_eq!(history.undo_len(), 1);
    assert!(history.undo_states(&mut contexts));
    assert_eq!(
        open(ROOT, &contexts),
        Err("Select a Block or a Block-typed part/reference property".to_string())
    );
    assert!(history.redo_states(&mut contexts));
    assert_eq!(contexts, vec![element_id_text(ENGINE)]);
}

#[test]
fn type_navigation_refusals_and_owner_search() {
    let none: Vec<String> = Vec::new();
    assert_eq!(open(UNTYPED, &none), Err("The selected property has no type".to_string()));
    assert_eq!(open(NESTED, &none), Err("Block has no repository owner".to_string()));
    // The owner of Inner is the block Vehicle, whose owner is the model.
    assert_eq!(open(INNER, &none), Ok(Err((INNER, ROOT, "Inner Internal Structure".to_string()))));
    let orphan_owner = ElementFacts { owner_id: None, ..facts(VEHICLE) };
    assert_eq!(owner_step(&orphan_owner), Err("No package owner for type IBD".to_string()));
    assert_eq!(owner_step(&facts(PACKAGE)), Ok(None));
    assert_eq!(owner_step(&facts(VEHICLE)), Ok(Some(ROOT)));
}

#[test]
fn type_navigation_reuses_the_first_diagram_of_a_context() {
    let contexts = vec![
        element_id_text(VEHICLE),
        element_id_text(ENGINE),
        element_id_text(ENGINE),
    ];
    assert_eq!(context_diagram(&facts(ENGINE), &contexts), Ok(ContextDiagram::Reuse(1)));
    assert_eq!(context_diagram(&facts(INNER), &contexts), Ok(ContextDiagram::Create(VEHICLE)));
    let association = ElementFacts { kind: ElementKind::AssociationBlock, ..facts(INNER) };
    assert_eq!(context_diagram(&association, &contexts), Ok(ContextDiagram::Create(VEHICLE)));
    assert_eq!(context_source(&facts(PART)), Ok(ContextSource::TypeOf(ENGINE)));
    assert_eq!(context_source(&facts(ENGINE)), Ok(ContextSource::Selected));
    assert_eq!(type_ibd_name(""), " Internal Structure");
}
