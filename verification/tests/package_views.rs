use workspace_model::model_script::ElementKind;
use workspace_model::package_diagrams::{
    check_package_owner, check_presented_package, package_diagram_error_message,
    package_diagram_name, package_placement, DiagramEntry, PackageDiagramError,
    PACKAGE_NODE_HEIGHT, PACKAGE_NODE_MIN_Y, PACKAGE_NODE_WIDTH,
};

fn entry(id: &str, family: &str, nodes: &[&str]) -> DiagramEntry {
    DiagramEntry {
        id: id.to_string(),
        family: family.to_string(),
        node_element_ids: nodes.iter().map(|s| s.to_string()).collect(),
    }
}

#[test]
fn package_diagram_names_are_trimmed_and_bounded() {
    assert_eq!(package_diagram_name("  Overview \n"), Ok("Overview".to_string()));
    assert_eq!(package_diagram_name(" \t "), Err(PackageDiagramError::EmptyName));
    assert_eq!(package_diagram_name(""), Err(PackageDiagramError::EmptyName));
    let exact: String = "é".repeat(256);
    assert_eq!(package_diagram_name(&format!(" {exact} ")), Ok(exact.clone()));
    assert_eq!(
        package_diagram_name(&format!("{exact}x")),
        Err(PackageDiagramError::NameTooLong)
    );
}

#[test]
fn package_diagram_owner_and_element_kinds() {
    assert_eq!(check_package_owner(ElementKind::Model), Ok(()));
    assert_eq!(check_package_owner(ElementKind::Package), Ok(()));
    assert_eq!(check_package_owner(ElementKind::Block), Err(PackageDiagramError::OwnerKind));
    assert_eq!(check_presented_package(ElementKind::Package), Ok(()));
    assert_eq!(check_presented_package(ElementKind::Model), Err(PackageDiagramError::NotAPackage));
}

#[test]
fn package_placement_rules() {
    let diagrams = vec![
        entry("d1", "bdd", &[]),
        entry("d2", "package", &["p1"]),
        entry("d2", "bdd", &[]),
    ];
    assert_eq!(package_placement(&diagrams, "d2", "p2"), Ok(1));
    assert_eq!(
        package_placement(&diagrams, "d2", "p1"),
        Err(PackageDiagramError::AlreadyPresented)
    );
    assert_eq!(
        package_placement(&diagrams, "d1", "p2"),
        Err(PackageDiagramError::NotPackageFamily)
    );
    assert_eq!(
        package_placement(&diagrams, "missing", "p2"),
        Err(PackageDiagramError::DiagramNotFound)
    );
}

#[test]
fn package_diagram_messages() {
    let cases = [
        (PackageDiagramError::EmptyName, "Package Diagram name cannot be empty"),
        (PackageDiagramError::NameTooLong, "Package Diagram name cannot exceed 256 characters"),
        (PackageDiagramError::OwnerKind, "Package Diagram owner must be a Model or Package"),
        (
            PackageDiagramError::NotAPackage,
            "Package Diagrams can present existing Package elements only",
        ),
        (PackageDiagramError::DiagramNotFound, "Package Diagram not found"),
        (PackageDiagramError::NotPackageFamily, "target diagram is not a Package Diagram"),
        (
            PackageDiagramError::AlreadyPresented,
            "this Package is already presented on the Package Diagram",
        ),
    ];
    for (error, message) in cases {
        assert_eq!(package_diagram_error_message(error), message);
    }
}

#[test]
fn package_diagram_contract_stays_presentation_only() {
    assert_eq!(PACKAGE_NODE_WIDTH, 220);
    assert_eq!(PACKAGE_NODE_HEIGHT, 120);
    assert_eq!(PACKAGE_NODE_MIN_Y, 42);
}
