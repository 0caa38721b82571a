//! Package diagrams: presentation-only views that show existing packages.
//! No package relationship is modeled here.

use vstd::prelude::*;
use crate::model_script::ElementKind;
use crate::text::{chars_eq, chars_of, string_from_chars, strs, trim, trimmed};

verus! {

/// Longest package diagram name, in characters.
pub const MAX_PACKAGE_DIAGRAM_NAME: usize = 256;

/// Width of the node that presents a package.
pub const PACKAGE_NODE_WIDTH: u32 = 220;

/// Height of the node that presents a package.
pub const PACKAGE_NODE_HEIGHT: u32 = 120;

/// Lowest vertical position of a package node (below the diagram's title).
pub const PACKAGE_NODE_MIN_Y: u32 = 42;

/// Why a package diagram edit is refused.
#[derive(Debug, Clone, Copy, PartialEq, Eq, Structural)]
pub enum PackageDiagramError {
    /// The name is blank.
    EmptyName,
    /// The trimmed name is longer than [`MAX_PACKAGE_DIAGRAM_NAME`] characters.
    NameTooLong,
    /// The owner is neither a model nor a package.
    OwnerKind,
    /// The element to present is not a package.
    NotAPackage,
    /// No diagram has the identity.
    DiagramNotFound,
    /// The diagram is of another family.
    NotPackageFamily,
    /// The package is on the diagram already.
    AlreadyPresented,
}

/// The message shown for each refusal.
pub open spec fn package_diagram_error_text(e: PackageDiagramError) -> Seq<char> {
    match e {
        PackageDiagramError::EmptyName => "Package Diagram name cannot be empty"@,
        PackageDiagramError::NameTooLong => "Package Diagram name cannot exceed 256 characters"@,
        PackageDiagramError::OwnerKind => "Package Diagram owner must be a Model or Package"@,
        PackageDiagramError::NotAPackage => "Package Diagrams can present existing Package elements only"@,
        PackageDiagramError::DiagramNotFound => "Package Diagram not found"@,
        PackageDiagramError::NotPackageFamily => "target diagram is not a Package Diagram"@,
        PackageDiagramError::AlreadyPresented => "this Package is already presented on the Package Diagram"@,
    }
}

/// The message shown for a refusal.
pub fn package_diagram_error_message(e: PackageDiagramError) -> (r: String)
    ensures
        r@ == package_diagram_error_text(e),
{
    match e {
        PackageDiagramError::EmptyName => "Package Diagram name cannot be empty".to_string(),
        PackageDiagramError::NameTooLong => "Package Diagram name cannot exceed 256 characters".to_string(),
        PackageDiagramError::OwnerKind => "Package Diagram owner must be a Model or Package".to_string(),
        PackageDiagramError::NotAPackage =>
            "Package Diagrams can present existing Package elements only".to_string(),
        PackageDiagramError::DiagramNotFound => "Package Diagram not found".to_string(),
        PackageDiagramError::NotPackageFamily => "target diagram is not a Package Diagram".to_string(),
        PackageDiagramError::AlreadyPresented =>
            "this Package is already presented on the Package Diagram".to_string(),
    }
}

/// The name a new package diagram gets from the typed `name`: the name with
/// surrounding whitespace removed, which must be nonempty and at most
/// [`MAX_PACKAGE_DIAGRAM_NAME`] characters long.
pub open spec fn package_diagram_name_spec(name: Seq<char>) -> Result<Seq<char>, PackageDiagramError> {
    if trim(name).len() == 0 {
        Err(PackageDiagramError::EmptyName)
    } else if trim(name).len() > MAX_PACKAGE_DIAGRAM_NAME {
        Err(PackageDiagramError::NameTooLong)
    } else {
        Ok(trim(name))
    }
}

/// The name of a new package diagram typed as `name`.
pub fn package_diagram_name(name: &str) -> (r: Result<String, PackageDiagramError>)
    ensures
        match r {
            Ok(s) => package_diagram_name_spec(name@) == Ok::<Seq<char>, PackageDiagramError>(s@),
            Err(e) => package_diagram_name_spec(name@) == Err::<Seq<char>, PackageDiagramError>(e),
        },
{
    let t = trimmed(chars_of(name).as_slice());
    if t.len() == 0 {
        Err(PackageDiagramError::EmptyName)
    } else if t.len() > MAX_PACKAGE_DIAGRAM_NAME {
        Err(PackageDiagramError::NameTooLong)
    } else {
        Ok(string_from_chars(t.as_slice()))
    }
}

/// A package diagram may be owned by a model or a package.
pub fn check_package_owner(kind: ElementKind) -> (r: Result<(), PackageDiagramError>)
    ensures
        r is Ok <==> (kind == ElementKind::Model || kind == ElementKind::Package),
        r matches Err(e) ==> e == PackageDiagramError::OwnerKind,
{
    match kind {
        ElementKind::Model | ElementKind::Package => Ok(()),
        _ => Err(PackageDiagramError::OwnerKind),
    }
}

/// A package diagram presents packages only.
pub fn check_presented_package(kind: ElementKind) -> (r: Result<(), PackageDiagramError>)
    ensures
        r is Ok <==> kind == ElementKind::Package,
        r matches Err(e) ==> e == PackageDiagramError::NotAPackage,
{
    match kind {
        ElementKind::Package => Ok(()),
        _ => Err(PackageDiagramError::NotAPackage),
    }
}

/// What a placement reads of a diagram: its identity, its family, and the
/// elements its nodes present.
#[derive(Debug, Clone)]
pub struct DiagramEntry {
    pub id: String,
    pub family: String,
    pub node_element_ids: Vec<String>,
}

/// The first position from `k` on of a diagram with identity `id`.
pub open spec fn diagram_position(ds: Seq<DiagramEntry>, id: Seq<char>, k: int) -> Option<int>
    decreases ds.len() - k,
{
    if k < 0 || k >= ds.len() {
        None
    } else if ds[k].id@ == id {
        Some(k)
    } else {
        diagram_position(ds, id, k + 1)
    }
}

/// Where the package `element_id` may be placed: on the first diagram with
/// identity `diagram_id`, which must be a package diagram that does not show
/// the package yet.
pub open spec fn package_placement_spec(
    ds: Seq<DiagramEntry>,
    diagram_id: Seq<char>,
    element_id: Seq<char>,
) -> Result<usize, PackageDiagramError> {
    match diagram_position(ds, diagram_id, 0) {
        None => Err(PackageDiagramError::DiagramNotFound),
        Some(k) => if ds[k].family@ != "package"@ {
            Err(PackageDiagramError::NotPackageFamily)
        } else if strs(ds[k].node_element_ids@).contains(element_id) {
            Err(PackageDiagramError::AlreadyPresented)
        } else {
            Ok(k as usize)
        },
    }
}

fn presents(ids: &Vec<String>, element_id: &str) -> (r: bool)
    ensures
        r == strs(ids@).contains(element_id@),
{
    let target = chars_of(element_id);
    let mut k: usize = 0;
    while k < ids.len()
        invariant
            k <= ids@.len(),
            target@ == element_id@,
            forall|j: int| 0 <= j < k ==> strs(ids@)[j] != element_id@,
        decreases ids.len() - k,
    {
        if chars_eq(chars_of(ids[k].as_str()).as_slice(), target.as_slice()) {
            assert(strs(ids@)[k as int] == element_id@);
            return true;
        }
        k = k + 1;
    }
    false
}

/// The position of the diagram on which the package `element_id` is placed,
/// or why it cannot be.
pub fn package_placement(diagrams: &Vec<DiagramEntry>, diagram_id: &str, element_id: &str) -> (r:
    Result<usize, PackageDiagramError>)
    ensures
        r == package_placement_spec(diagrams@, diagram_id@, element_id@),
        r matches Ok(k) ==> k < diagrams@.len(),
{
    let wanted = chars_of(diagram_id);
    let mut k: usize = 0;
    while k < diagrams.len()
        invariant
            k <= diagrams@.len(),
            wanted@ == diagram_id@,
            diagram_position(diagrams@, diagram_id@, 0) == diagram_position(
                diagrams@,
                diagram_id@,
                k as int,
            ),
        decreases diagrams.len() - k,
    {
        if chars_eq(chars_of(diagrams[k].id.as_str()).as_slice(), wanted.as_slice()) {
            if !chars_eq(chars_of(diagrams[k].family.as_str()).as_slice(), chars_of("package").as_slice()) {
                return Err(PackageDiagramError::NotPackageFamily);
            }
            if presents(&diagrams[k].node_element_ids, element_id) {
                return Err(PackageDiagramError::AlreadyPresented);
            }
            return Ok(k);
        }
        k = k + 1;
    }
    Err(PackageDiagramError::DiagramNotFound)
}

} // verus!
