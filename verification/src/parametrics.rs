//! Parametric diagrams: the diagram's semantic context and the report of an
//! explicit evaluation.

use vstd::prelude::*;
use crate::ids::{parse_element_id, uuid_parse};
use crate::model_build::ElementId;
use crate::text::{chars_eq, chars_of};

verus! {

/// What an explicit evaluation of a parametric diagram changed.
#[derive(Debug, Clone)]
pub struct ParametricEvaluationSnapshot {
    pub evaluated_constraints: usize,
    pub changed_values: usize,
    pub updates: Vec<ParametricValueSnapshot>,
}

/// One value an evaluation changed.
#[derive(Debug, Clone)]
pub struct ParametricValueSnapshot {
    pub element_id: String,
    pub previous_value: Option<String>,
    pub value: String,
}

/// The semantic context of a diagram of `family` whose context is recorded as
/// `semantic_context_id`: only a parametric diagram with a context has one.
pub fn diagram_context(family: &str, semantic_context_id: Option<&str>) -> (r: Result<
    ElementId,
    String,
>)
    ensures
        family@ != "parametric"@ ==> (r is Err && r->Err_0@ == "diagram is not a Parametric Diagram"@),
        family@ == "parametric"@ && semantic_context_id is None ==> (r is Err && r->Err_0@
            == "Parametric Diagram has no semantic context"@),
        family@ == "parametric"@ && semantic_context_id is Some ==> match r {
            Ok(id) => uuid_parse(semantic_context_id->0@) == Ok::<u128, Seq<char>>(id.0),
            Err(m) => uuid_parse(semantic_context_id->0@) == Err::<u128, Seq<char>>(m@),
        },
{
    if !chars_eq(chars_of(family).as_slice(), chars_of("parametric").as_slice()) {
        return Err("diagram is not a Parametric Diagram".to_owned());
    }
    match semantic_context_id {
        None => Err("Parametric Diagram has no semantic context".to_owned()),
        Some(id) => parse_element_id(id),
    }
}

} // verus!
