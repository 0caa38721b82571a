use workspace_model::model_build::{build_order, BuildOperationFamily, ElementId};
use workspace_model::model_script::ElementKind;
use workspace_model::navigation::{repository_owner, ElementFacts};

#[test]
fn project_requests_before_behavior_requests_are_accepted() {
    assert_eq!(build_order(&[BuildOperationFamily::Project, BuildOperationFamily::Project, BuildOperationFamily::Activity, BuildOperationFamily::Parametric]), Ok(2));
    assert_eq!(build_order(&[BuildOperationFamily::Project, BuildOperationFamily::Project]), Ok(2));
    assert_eq!(build_order(&[]), Ok(0));
    assert_eq!(build_order(&[BuildOperationFamily::StateMachine, BuildOperationFamily::Sequence]), Ok(0));
}

#[test]
fn project_request_after_a_behavior_request_is_refused() {
    let (code, message) = build_order(&[BuildOperationFamily::Project, BuildOperationFamily::Activity, BuildOperationFamily::Project]).unwrap_err();
    assert_eq!(code, "BUILD_ORDER_INVALID");
    assert_eq!(
        message,
        "unified plans require ordinary Project operations before specialized repository operations"
    );
}

fn facts(id: u128, kind: ElementKind, owner: Option<u128>) -> ElementFacts {
    ElementFacts { id: ElementId(id), kind, name: String::new(), type_id: None, owner_id: owner.map(ElementId) }
}

#[test]
fn repository_owner_is_the_first_package_up_the_chain() {
    let chain = [facts(2, ElementKind::Block, Some(3)), facts(3, ElementKind::Package, Some(1))];
    assert_eq!(repository_owner(&chain), Ok(Some(ElementId(3))));
    let chain = [facts(3, ElementKind::Block, Some(4))];
    assert_eq!(repository_owner(&chain), Ok(None));
    assert_eq!(repository_owner(&[]), Ok(None));
    let chain = [facts(2, ElementKind::Block, None)];
    assert_eq!(repository_owner(&chain), Err("No package owner for type IBD".to_string()));
}
