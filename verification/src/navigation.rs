//! Opening the type-level internal block diagram of a block, or of the block
//! that types a selected part or reference property: which element is the
//! context, whether an existing diagram is reused, and which package owns a
//! new one. Each decision reads the facts of one element at a time.

use vstd::prelude::*;
use crate::ids::{element_id_text, uuid_text_spec};
use crate::model_build::ElementId;
use crate::model_script::ElementKind;
use crate::text::{strs, string_from_chars, push_text, chars_of};

verus! {

/// What the navigation reads of one element.
#[derive(Debug, Clone)]
pub struct ElementFacts {
    pub id: ElementId,
    pub kind: ElementKind,
    pub name: String,
    pub type_id: Option<ElementId>,
    pub owner_id: Option<ElementId>,
}

/// Where the context of a type-level diagram comes from.
#[derive(Debug, Clone, Copy, PartialEq, Eq, Structural)]
pub enum ContextSource {
    /// The selected element is the context.
    Selected,
    /// The type of the selected property is the context.
    TypeOf(ElementId),
}

/// The context of the type-level diagram for a selected element: the type of
/// a part or reference property (which must have one), else the element.
pub open spec fn context_source_spec(selected: ElementFacts) -> Result<ContextSource, Seq<char>> {
    if selected.kind == ElementKind::PartProperty || selected.kind == ElementKind::ReferenceProperty {
        match selected.type_id {
            Some(t) => Ok(ContextSource::TypeOf(t)),
            None => Err("The selected property has no type"@),
        }
    } else {
        Ok(ContextSource::Selected)
    }
}

/// Which element is the context of the type-level diagram for `selected`.
pub fn context_source(selected: &ElementFacts) -> (r: Result<ContextSource, String>)
    ensures
        match (r, context_source_spec(*selected)) {
            (Ok(a), Ok(b)) => a == b,
            (Err(m), Err(t)) => m@ == t,
            _ => false,
        },
{
    match selected.kind {
        ElementKind::PartProperty | ElementKind::ReferenceProperty => match selected.type_id {
            Some(t) => Ok(ContextSource::TypeOf(t)),
            None => Err("The selected property has no type".to_string()),
        },
        _ => Ok(ContextSource::Selected),
    }
}

/// What opening the diagram of a context does.
#[derive(Debug, Clone, Copy, PartialEq, Eq, Structural)]
pub enum ContextDiagram {
    /// Show the existing diagram at this position.
    Reuse(usize),
    /// Create a new diagram; its owner is found from this element up.
    Create(ElementId),
}

/// The first position from `k` on of a diagram whose context is `id`.
pub open spec fn context_diagram_position(contexts: Seq<Seq<char>>, id: ElementId, k: int) -> Option<int>
    decreases contexts.len() - k,
{
    if k < 0 || k >= contexts.len() {
        None
    } else if contexts[k] == uuid_text_spec(id.0) {
        Some(k)
    } else {
        context_diagram_position(contexts, id, k + 1)
    }
}

/// What opening the type-level diagram of `context` does, given the context
/// identities (as text) of the existing diagrams: the context must be a block
/// or association block; the first diagram of that context is reused; else a
/// new one is created and its owner is sought from the context's owner up.
pub open spec fn context_diagram_spec(context: ElementFacts, contexts: Seq<Seq<char>>) -> Result<
    ContextDiagram,
    Seq<char>,
> {
    if !(context.kind == ElementKind::Block || context.kind == ElementKind::AssociationBlock) {
        Err("Select a Block or a Block-typed part/reference property"@)
    } else {
        match context_diagram_position(contexts, context.id, 0) {
            Some(k) => Ok(ContextDiagram::Reuse(k as usize)),
            None => match context.owner_id {
                Some(o) => Ok(ContextDiagram::Create(o)),
                None => Err("Block has no repository owner"@),
            },
        }
    }
}

/// Decide how the type-level diagram of `context` is opened, given the
/// context identities of the existing internal block diagrams.
pub fn context_diagram(context: &ElementFacts, diagram_contexts: &Vec<String>) -> (r: Result<
    ContextDiagram,
    String,
>)
    ensures
        match (r, context_diagram_spec(*context, strs(diagram_contexts@))) {
            (Ok(a), Ok(b)) => a == b,
            (Err(m), Err(t)) => m@ == t,
            _ => false,
        },
        r matches Ok(ContextDiagram::Reuse(k)) ==> k < diagram_contexts@.len(),
{
    match context.kind {
        ElementKind::Block | ElementKind::AssociationBlock => {},
        _ => {
            return Err("Select a Block or a Block-typed part/reference property".to_string());
        },
    }
    let text = element_id_text(context.id);
    let ghost cs = strs(diagram_contexts@);
    let mut k: usize = 0;
    while k < diagram_contexts.len()
        invariant
            k <= diagram_contexts@.len(),
            cs == strs(diagram_contexts@),
            text@ == uuid_text_spec(context.id.0),
            context.kind == ElementKind::Block || context.kind == ElementKind::AssociationBlock,
            context_diagram_position(cs, context.id, 0) == context_diagram_position(cs, context.id, k as int),
        decreases diagram_contexts.len() - k,
    {
        if diagram_contexts[k] == text {
            assert(cs[k as int] == uuid_text_spec(context.id.0));
            return Ok(ContextDiagram::Reuse(k));
        }
        assert(cs[k as int] != uuid_text_spec(context.id.0));
        k = k + 1;
    }
    match context.owner_id {
        Some(o) => Ok(ContextDiagram::Create(o)),
        None => Err("Block has no repository owner".to_string()),
    }
}

/// One step of the search for the repository owner of a new diagram: a model
/// or package is the owner; otherwise the search goes on with its owner,
/// which must exist.
pub open spec fn owner_step_spec(candidate: ElementFacts) -> Result<Option<ElementId>, Seq<char>> {
    if candidate.kind == ElementKind::Model || candidate.kind == ElementKind::Package {
        Ok(None)
    } else {
        match candidate.owner_id {
            Some(o) => Ok(Some(o)),
            None => Err("No package owner for type IBD"@),
        }
    }
}

/// Whether `candidate` owns the new diagram (`Ok(None)`), or which element
/// the search goes on with.
pub fn owner_step(candidate: &ElementFacts) -> (r: Result<Option<ElementId>, String>)
    ensures
        match (r, owner_step_spec(*candidate)) {
            (Ok(a), Ok(b)) => a == b,
            (Err(m), Err(t)) => m@ == t,
            _ => false,
        },
{
    match candidate.kind {
        ElementKind::Model | ElementKind::Package => Ok(None),
        _ => match candidate.owner_id {
            Some(o) => Ok(Some(o)),
            None => Err("No package owner for type IBD".to_string()),
        },
    }
}

/// The name of the type-level diagram of a block named `block_name`.
pub fn type_ibd_name(block_name: &str) -> (r: String)
    ensures
        r@ == block_name@ + " Internal Structure"@,
{
    let mut v = chars_of(block_name);
    push_text(&mut v, " Internal Structure");
    string_from_chars(v.as_slice())
}

/// The search for the repository owner along `chain` from position `k`:
/// `chain` holds the facts of the context's owner, then of that element's
/// owner, and so on. The first model or package owns the new diagram; an
/// element before it without an owner refuses; a chain that ends before
/// either gives `None` (the next ancestor is needed).
pub open spec fn owner_search(chain: Seq<ElementFacts>, k: int) -> Result<Option<ElementId>, Seq<char>>
    decreases chain.len() - k,
{
    if k < 0 || k >= chain.len() {
        Ok(None)
    } else {
        match owner_step_spec(chain[k]) {
            Ok(None) => Ok(Some(chain[k].id)),
            Ok(Some(_)) => owner_search(chain, k + 1),
            Err(m) => Err(m),
        }
    }
}

/// The repository owner of a new type-level diagram, read along the owner
/// chain `chain` (see [`owner_search`]).
pub fn repository_owner(chain: &[ElementFacts]) -> (r: Result<Option<ElementId>, String>)
    ensures
        match (r, owner_search(chain@, 0)) {
            (Ok(a), Ok(b)) => a == b,
            (Err(m), Err(t)) => m@ == t,
            _ => false,
        },
        r matches Ok(None) ==> chain@.len() == 0 || chain@.last().owner_id is Some,
{
    let mut k: usize = 0;
    while k < chain.len()
        invariant
            k <= chain@.len(),
            owner_search(chain@, 0) == owner_search(chain@, k as int),
            k > 0 ==> chain@[k - 1].owner_id is Some,
        decreases chain.len() - k,
    {
        match owner_step(&chain[k]) {
            Ok(None) => {
                return Ok(Some(chain[k].id));
            },
            Ok(Some(_)) => {},
            Err(m) => {
                return Err(m);
            },
        }
        k = k + 1;
    }
    Ok(None)
}

/// Opening the type-level diagram from a part or a reference property that
/// has a type opens the diagram of that type; any element that is neither
/// is its own context.
pub proof fn lemma_typed_property_opens_its_type(selected: ElementFacts)
    ensures
        (selected.kind == ElementKind::PartProperty || selected.kind == ElementKind::ReferenceProperty)
            && selected.type_id is Some ==> context_source_spec(selected) == Ok::<ContextSource, Seq<char>>(
            ContextSource::TypeOf(selected.type_id.unwrap())),
        !(selected.kind == ElementKind::PartProperty || selected.kind == ElementKind::ReferenceProperty)
            ==> context_source_spec(selected) == Ok::<ContextSource, Seq<char>>(ContextSource::Selected),
        context_source_spec(selected) matches Ok(ContextSource::TypeOf(t)) ==> selected.type_id == Some(t),
{
}

} // verus!
