//! How the statements of a model script are reconciled with what their
//! namespaced External IDs already name in the project, and how failures of
//! the build plan are reported against the statements that caused them.

use vstd::prelude::*;
use crate::model_script::{ModelScriptAction, ModelScriptDiagnostic, ModelScriptPreviewItem};
use crate::text::opt_str;

verus! {

/// One record the project holds under a statement's namespaced External ID:
/// whether it has the statement's kind and the statement's name.
#[derive(Debug, Clone, Copy)]
pub struct ExistingRecord {
    pub same_kind: bool,
    pub same_name: bool,
}

/// Why a statement cannot be reconciled with what its External ID names.
#[derive(Debug, Clone, Copy, PartialEq, Eq, Structural)]
pub enum ScriptConflict {
    /// Several records share the namespaced External ID.
    Ambiguous,
    /// The External ID names a record of another kind.
    WrongKind,
}

/// The diagnostic code a conflict is reported with.
pub open spec fn conflict_code_text(c: ScriptConflict) -> Seq<char> {
    match c {
        ScriptConflict::Ambiguous => "AMBIGUOUS_REFERENCE"@,
        ScriptConflict::WrongKind => "WRONG_KIND_COLLISION"@,
    }
}

/// The diagnostic code of a conflict.
pub fn conflict_code(c: ScriptConflict) -> (r: &'static str)
    ensures
        r@ == conflict_code_text(c),
{
    match c {
        ScriptConflict::Ambiguous => "AMBIGUOUS_REFERENCE",
        ScriptConflict::WrongKind => "WRONG_KIND_COLLISION",
    }
}

/// An element statement: ambiguous with several records, a kind collision
/// with one of another kind, no change when the one record already has the
/// name and no optional field is given, an update otherwise, and a creation
/// when nothing has the External ID.
pub open spec fn element_reconciliation(existing: Seq<ExistingRecord>, optional_fields: bool) -> Result<
    ModelScriptAction,
    ScriptConflict,
> {
    if existing.len() > 1 {
        Err(ScriptConflict::Ambiguous)
    } else if existing.len() == 1 {
        if !existing[0].same_kind {
            Err(ScriptConflict::WrongKind)
        } else if existing[0].same_name && !optional_fields {
            Ok(ModelScriptAction::NoChange)
        } else {
            Ok(ModelScriptAction::Update)
        }
    } else {
        Ok(ModelScriptAction::Create)
    }
}

/// Reconcile an element statement.
pub fn reconcile_element(existing: &[ExistingRecord], optional_fields: bool) -> (r: Result<
    ModelScriptAction,
    ScriptConflict,
>)
    ensures
        r == element_reconciliation(existing@, optional_fields),
{
    if existing.len() > 1 {
        Err(ScriptConflict::Ambiguous)
    } else if existing.len() == 1 {
        if !existing[0].same_kind {
            Err(ScriptConflict::WrongKind)
        } else if existing[0].same_name && !optional_fields {
            Ok(ModelScriptAction::NoChange)
        } else {
            Ok(ModelScriptAction::Update)
        }
    } else {
        Ok(ModelScriptAction::Create)
    }
}

/// A relationship statement: as an element statement, except that the name
/// is one of the optional fields.
pub open spec fn relationship_reconciliation(same_kinds: Seq<bool>, any_fields: bool) -> Result<
    ModelScriptAction,
    ScriptConflict,
> {
    if same_kinds.len() > 1 {
        Err(ScriptConflict::Ambiguous)
    } else if same_kinds.len() == 1 {
        if !same_kinds[0] {
            Err(ScriptConflict::WrongKind)
        } else if !any_fields {
            Ok(ModelScriptAction::NoChange)
        } else {
            Ok(ModelScriptAction::Update)
        }
    } else {
        Ok(ModelScriptAction::Create)
    }
}

/// Reconcile a relationship statement; `same_kinds` says for each record with
/// the External ID whether it has the statement's kind.
pub fn reconcile_relationship(same_kinds: &[bool], any_fields: bool) -> (r: Result<
    ModelScriptAction,
    ScriptConflict,
>)
    ensures
        r == relationship_reconciliation(same_kinds@, any_fields),
{
    if same_kinds.len() > 1 {
        Err(ScriptConflict::Ambiguous)
    } else if same_kinds.len() == 1 {
        if !same_kinds[0] {
            Err(ScriptConflict::WrongKind)
        } else if !any_fields {
            Ok(ModelScriptAction::NoChange)
        } else {
            Ok(ModelScriptAction::Update)
        }
    } else {
        Ok(ModelScriptAction::Create)
    }
}

/// A connector, binding, activity, state machine or interaction statement,
/// reconciled with the first record its External ID names (`None` when there
/// is none; otherwise whether that record has the statement's kind).
pub open spec fn first_record_reconciliation(first_same_kind: Option<bool>) -> Result<
    ModelScriptAction,
    ScriptConflict,
> {
    match first_same_kind {
        None => Ok(ModelScriptAction::Create),
        Some(true) => Ok(ModelScriptAction::Update),
        Some(false) => Err(ScriptConflict::WrongKind),
    }
}

/// Reconcile a statement with the first record its External ID names.
pub fn reconcile_first_record(first_same_kind: Option<bool>) -> (r: Result<ModelScriptAction, ScriptConflict>)
    ensures
        r == first_record_reconciliation(first_same_kind),
{
    match first_same_kind {
        None => Ok(ModelScriptAction::Create),
        Some(same) => if same {
            Ok(ModelScriptAction::Update)
        } else {
            Err(ScriptConflict::WrongKind)
        },
    }
}

/// A failure the build plan reports: the index of the plan operation that
/// failed (if known), its code and its message.
#[derive(Debug, Clone)]
pub struct PlanFailure {
    pub operation: Option<usize>,
    pub code: String,
    pub message: String,
}

/// The script statement that produced plan operation `operation`.
pub open spec fn failed_statement(operation: Option<usize>, plan_statements: Seq<usize>) -> Option<usize> {
    match operation {
        Some(i) => if i < plan_statements.len() {
            Some(plan_statements[i as int])
        } else {
            None
        },
        None => None,
    }
}

/// The first preview line, from `k` on, of statement `statement`.
pub open spec fn first_item_of(items: Seq<ModelScriptPreviewItem>, statement: usize, k: int) -> Option<int>
    decreases items.len() - k,
{
    if k < 0 || k >= items.len() {
        None
    } else if items[k].statement == statement {
        Some(k)
    } else {
        first_item_of(items, statement, k + 1)
    }
}

/// `d` reports the plan failure `f` of script `script`: against the statement
/// that produced the failed operation, with that statement's External ID and
/// semantic name as its first preview line shows them.
pub open spec fn failure_diagnostic(
    script: Seq<char>,
    f: PlanFailure,
    plan_statements: Seq<usize>,
    items: Seq<ModelScriptPreviewItem>,
    d: ModelScriptDiagnostic,
) -> bool {
    let statement = failed_statement(f.operation, plan_statements);
    &&& d.script@ == script
    &&& d.line is None
    &&& d.statement == statement
    &&& opt_str(d.operation) == Some("ModelBuildPlan"@)
    &&& d.code@ == f.code@
    &&& d.reason@ == f.message@
    &&& match statement {
        Some(st) => match first_item_of(items, st, 0) {
            Some(k) => opt_str(d.external_id) == opt_str(items[k].external_id) && opt_str(
                d.semantic_name,
            ) == opt_str(items[k].semantic_name),
            None => d.external_id is None && d.semantic_name is None,
        },
        None => d.external_id is None && d.semantic_name is None,
    }
}

fn copy_opt(s: &Option<String>) -> (r: Option<String>)
    ensures
        opt_str(r) == opt_str(*s),
{
    match s {
        Some(x) => Some(x.clone()),
        None => None,
    }
}

/// The first preview line of statement `statement`.
fn find_item(items: &[ModelScriptPreviewItem], statement: usize) -> (r: Option<usize>)
    ensures
        match r {
            Some(k) => k < items@.len() && first_item_of(items@, statement, 0) == Some(k as int),
            None => first_item_of(items@, statement, 0) is None,
        },
{
    let mut k: usize = 0;
    while k < items.len()
        invariant
            k <= items@.len(),
            first_item_of(items@, statement, 0) == first_item_of(items@, statement, k as int),
        decreases items.len() - k,
    {
        if items[k].statement == statement {
            return Some(k);
        }
        k = k + 1;
    }
    None
}

/// The diagnostics a failed build plan is reported with, one per failure.
pub fn plan_failure_diagnostics(
    script: &str,
    failures: &[PlanFailure],
    plan_statements: &[usize],
    items: &[ModelScriptPreviewItem],
) -> (ds: Vec<ModelScriptDiagnostic>)
    ensures
        ds@.len() == failures@.len(),
        forall|k: int|
            0 <= k < failures@.len() ==> failure_diagnostic(
                script@,
                failures@[k],
                plan_statements@,
                items@,
                #[trigger] ds@[k],
            ),
{
    let mut ds: Vec<ModelScriptDiagnostic> = Vec::new();
    let mut k: usize = 0;
    while k < failures.len()
        invariant
            k <= failures@.len(),
            ds@.len() == k,
            forall|j: int|
                0 <= j < k ==> failure_diagnostic(
                    script@,
                    failures@[j],
                    plan_statements@,
                    items@,
                    #[trigger] ds@[j],
                ),
        decreases failures.len() - k,
    {
        let f = &failures[k];
        let statement = match f.operation {
            Some(i) => if i < plan_statements.len() {
                Some(plan_statements[i])
            } else {
                None
            },
            None => None,
        };
        let (external_id, semantic_name) = match statement {
            Some(st) => match find_item(items, st) {
                Some(x) => (copy_opt(&items[x].external_id), copy_opt(&items[x].semantic_name)),
                None => (None, None),
            },
            None => (None, None),
        };
        let d = ModelScriptDiagnostic {
            script: script.to_owned(),
            line: None,
            statement,
            operation: Some("ModelBuildPlan".to_owned()),
            external_id,
            semantic_name,
            code: f.code.clone(),
            reason: f.message.clone(),
        };
        ds.push(d);
        k = k + 1;
    }
    ds
}

} // verus!
