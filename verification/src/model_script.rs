//! Model-script host rules: the preview a script run reports, how script
//! references and diagram families are read, which diagram family presents
//! which kinds, and how the statements of a script are screened.

use vstd::prelude::*;
use crate::model_build::{BuildReference, ElementId};
use crate::text::{
    ascii_lower, chars_eq, chars_of, find_chars, find_from, has_prefix, lines, opt_str, push_text, rfind,
    rfind_chars, slice_copy, split_lines, starts_with, string_from_chars, trim, trimmed, views,
};

verus! {

/// What a script statement does to the model.
#[derive(Debug, Clone, Copy, PartialEq, Eq, Structural)]
pub enum ModelScriptAction {
    Create,
    Update,
    NoChange,
    Blocked,
}

/// One line of a script preview.
#[derive(Debug, Clone)]
pub struct ModelScriptPreviewItem {
    pub statement: usize,
    pub action: ModelScriptAction,
    pub operation: String,
    pub external_id: Option<String>,
    pub semantic_name: Option<String>,
    pub detail: String,
}

/// One problem a script run found.
#[derive(Debug, Clone)]
pub struct ModelScriptDiagnostic {
    pub script: String,
    pub line: Option<usize>,
    pub statement: Option<usize>,
    pub operation: Option<String>,
    pub external_id: Option<String>,
    pub semantic_name: Option<String>,
    pub code: String,
    pub reason: String,
}

/// The report of a script preview or application.
#[derive(Debug, Clone)]
pub struct ModelScriptPreview {
    pub host: String,
    pub applied: bool,
    pub source_namespace: String,
    pub items: Vec<ModelScriptPreviewItem>,
    pub diagnostics: Vec<ModelScriptDiagnostic>,
}

/// A preview is valid when it has no diagnostic and no blocked statement.
pub open spec fn preview_valid(p: ModelScriptPreview) -> bool {
    p.diagnostics@.len() == 0 && forall|i: int|
        0 <= i < p.items@.len() ==> (#[trigger] p.items@[i]).action != ModelScriptAction::Blocked
}

impl ModelScriptPreview {
    /// Whether the run found no diagnostic and no blocked statement.
    pub fn valid(&self) -> (r: bool)
        ensures
            r == preview_valid(*self),
    {
        if self.diagnostics.len() != 0 {
            return false;
        }
        let mut i: usize = 0;
        while i < self.items.len()
            invariant
                i <= self.items@.len(),
                self.diagnostics@.len() == 0,
                forall|j: int|
                    0 <= j < i ==> (#[trigger] self.items@[j]).action
                        != ModelScriptAction::Blocked,
            decreases self.items.len() - i,
        {
            if self.items[i].action == ModelScriptAction::Blocked {
                return false;
            }
            i = i + 1;
        }
        true
    }
}

/// The default of the `populate`, `clean_layout` and `route` switches of a
/// script diagram.
pub fn default_true() -> (r: bool)
    ensures
        r,
{
    true
}

/// A diagnostic with no line and no semantic name.
pub fn diag(
    script: &str,
    statement: Option<usize>,
    operation: Option<String>,
    external_id: Option<String>,
    code: &str,
    reason: &str,
) -> (d: ModelScriptDiagnostic)
    ensures
        d.script@ == script@,
        d.line is None,
        d.statement == statement,
        opt_str(d.operation) == opt_str(operation),
        opt_str(d.external_id) == opt_str(external_id),
        d.semantic_name is None,
        d.code@ == code@,
        d.reason@ == reason@,
{
    ModelScriptDiagnostic {
        script: script.to_owned(),
        line: None,
        statement,
        operation,
        external_id,
        semantic_name: None,
        code: code.to_owned(),
        reason: reason.to_owned(),
    }
}

/// The contents of an optional string slice.
pub open spec fn opt_str_ref(s: Option<&str>) -> Option<Seq<char>> {
    match s {
        Some(x) => Some(x@),
        None => None,
    }
}

fn owned(s: Option<&str>) -> (r: Option<String>)
    ensures
        opt_str(r) == opt_str_ref(s),
{
    match s {
        Some(x) => Some(x.to_owned()),
        None => None,
    }
}

/// A preview line.
pub fn item(
    statement: usize,
    action: ModelScriptAction,
    operation: &str,
    external_id: Option<&str>,
    semantic_name: Option<&str>,
    detail: &str,
) -> (i: ModelScriptPreviewItem)
    ensures
        i.statement == statement,
        i.action == action,
        i.operation@ == operation@,
        opt_str(i.external_id) == opt_str_ref(external_id),
        opt_str(i.semantic_name) == opt_str_ref(semantic_name),
        i.detail@ == detail@,
{
    ModelScriptPreviewItem {
        statement,
        action,
        operation: operation.to_owned(),
        external_id: owned(external_id),
        semantic_name: owned(semantic_name),
        detail: detail.to_owned(),
    }
}

/// A reference token without its `ext:` or `handle:` marker.
pub open spec fn external_token_spec(t: Seq<char>) -> Seq<char> {
    if has_prefix(t, "ext:"@) {
        t.skip(4)
    } else if has_prefix(t, "handle:"@) {
        t.skip(7)
    } else {
        t
    }
}

proof fn lemma_literal_lengths()
    ensures
        "ext:"@.len() == 4,
        "handle:"@.len() == 7,
        "qname:"@.len() == 6,
{
    reveal_strlit("ext:");
    reveal_strlit("handle:");
    reveal_strlit("qname:");
}

/// Strip the `ext:` or `handle:` marker of a reference token.
pub fn script_external_token(token: &str) -> (r: String)
    ensures
        r@ == external_token_spec(token@),
{
    proof {
        lemma_literal_lengths();
    }
    let t = chars_of(token);
    let ext = chars_of("ext:");
    let handle = chars_of("handle:");
    if starts_with(t.as_slice(), ext.as_slice()) {
        string_from_chars(slice_copy(t.as_slice(), 4, t.len()).as_slice())
    } else if starts_with(t.as_slice(), handle.as_slice()) {
        string_from_chars(slice_copy(t.as_slice(), 7, t.len()).as_slice())
    } else {
        string_from_chars(t.as_slice())
    }
}

/// The syntax diagnostic of a script whose JSON payload starts on line
/// `base_line` and fails to parse at payload line `error_line` with `message`.
pub fn syntax_diagnostic(script: &str, base_line: usize, error_line: usize, message: String) -> (d:
    ModelScriptDiagnostic)
    requires
        base_line + error_line <= usize::MAX,
    ensures
        d.script@ == script@,
        d.line == Some((if error_line >= 1 { base_line + error_line - 1 } else { base_line as int }) as usize),
        d.statement is None,
        opt_str(d.operation) == Some("parse"@),
        d.external_id is None,
        d.semantic_name is None,
        d.code@ == "SCRIPT_SYNTAX"@,
        d.reason@ == message@,
{
    let offset: usize = if error_line >= 1 { error_line - 1 } else { 0 };
    ModelScriptDiagnostic {
        script: script.to_owned(),
        line: Some(base_line + offset),
        statement: None,
        operation: Some("parse".to_owned()),
        external_id: None,
        semantic_name: None,
        code: "SCRIPT_SYNTAX".to_owned(),
        reason: message,
    }
}

/// Whether a token names a specialized semantic element by External ID or
/// plan-local handle (not the root and not a qualified name).
pub open spec fn external_reference_ok(token: Seq<char>) -> bool {
    let e = trim(external_token_spec(token));
    e.len() > 0 && e != "$root"@ && !has_prefix(e, "qname:"@)
}

/// Read a reference to a specialized semantic element (activity, state
/// machine, interaction and the like), which only an External ID or a
/// plan-local handle can name.
pub fn external_reference<T>(token: &str, statement: usize) -> (r: Result<
    BuildReference<T>,
    ModelScriptDiagnostic,
>)
    ensures
        match r {
            Ok(BuildReference::External(e)) => external_reference_ok(token@) && e@ == trim(
                external_token_spec(token@),
            ),
            Ok(BuildReference::Existing(_)) => false,
            Err(d) => !external_reference_ok(token@) && d.script@ == Seq::<char>::empty()
                && d.statement == Some(statement) && opt_str(d.operation) == Some("reference"@)
                && d.external_id is None && d.line is None && d.semantic_name is None
                && d.code@ == "REFERENCE_KIND_INVALID"@ && d.reason@
                == "specialized semantic references require an External ID or plan-local handle"@,
        },
{
    let stripped = script_external_token(token);
    let e = trimmed(chars_of(stripped.as_str()).as_slice());
    if e.len() == 0 || chars_eq(e.as_slice(), chars_of("$root").as_slice()) || starts_with(
        e.as_slice(),
        chars_of("qname:").as_slice(),
    ) {
        proof {
            reveal_strlit("");
        }
        return Err(
            diag(
                "",
                Some(statement),
                Some("reference".to_owned()),
                None,
                "REFERENCE_KIND_INVALID",
                "specialized semantic references require an External ID or plan-local handle",
            ),
        );
    }
    Ok(BuildReference::External(string_from_chars(e.as_slice())))
}


/// The elements among `names` (each element with its qualified name) whose
/// qualified name is `q`, in order.
pub open spec fn qualified_matches(names: Seq<(ElementId, String)>, q: Seq<char>) -> Seq<ElementId>
    decreases names.len(),
{
    if names.len() == 0 {
        Seq::empty()
    } else if names.last().1@ == q {
        qualified_matches(names.drop_last(), q).push(names.last().0)
    } else {
        qualified_matches(names.drop_last(), q)
    }
}

/// `d` is the reference diagnostic of statement `statement` with `code` and `reason`.
pub open spec fn reference_diagnostic(d: ModelScriptDiagnostic, statement: usize, code: Seq<char>, reason: Seq<char>) -> bool {
    &&& d.script@ == Seq::<char>::empty()
    &&& d.statement == Some(statement)
    &&& opt_str(d.operation) == Some("reference"@)
    &&& d.external_id is None
    &&& d.line is None
    &&& d.semantic_name is None
    &&& d.code@ == code
    &&& d.reason@ == reason
}

/// What an element reference token resolves to: `$root` is the root element,
/// `qname:` a unique element with that exact qualified name, anything else an
/// External ID or plan-local handle (with its `ext:`/`handle:` marker removed).
pub open spec fn element_reference_outcome(
    token: Seq<char>,
    root: ElementId,
    names: Seq<(ElementId, String)>,
    statement: usize,
    r: Result<BuildReference<ElementId>, ModelScriptDiagnostic>,
) -> bool {
    let t = trim(token);
    if t == "$root"@ {
        r == Ok::<BuildReference<ElementId>, ModelScriptDiagnostic>(BuildReference::Existing(root))
    } else if has_prefix(t, "qname:"@) {
        let q = t.skip(6);
        let m = qualified_matches(names, q);
        if m.len() == 1 {
            r == Ok::<BuildReference<ElementId>, ModelScriptDiagnostic>(BuildReference::Existing(m[0]))
        } else if m.len() == 0 {
            r matches Err(d) && reference_diagnostic(
                d,
                statement,
                "UNRESOLVED_REFERENCE"@,
                "exact qualified name was not found: "@ + q,
            )
        } else {
            r matches Err(d) && reference_diagnostic(
                d,
                statement,
                "AMBIGUOUS_REFERENCE"@,
                "exact qualified name is ambiguous: "@ + q,
            )
        }
    } else {
        let e = trim(external_token_spec(t));
        if e.len() == 0 {
            r matches Err(d) && reference_diagnostic(
                d,
                statement,
                "UNRESOLVED_REFERENCE"@,
                "blank External ID reference"@,
            )
        } else {
            r matches Ok(BuildReference::External(x)) && x@ == e
        }
    }
}

/// The elements of `names` whose qualified name is `q`.
fn matching_names(names: &[(ElementId, String)], q: &Vec<char>) -> (m: Vec<ElementId>)
    ensures
        m@ == qualified_matches(names@, q@),
{
    let mut m: Vec<ElementId> = Vec::new();
    let mut k: usize = 0;
    while k < names.len()
        invariant
            k <= names@.len(),
            m@ == qualified_matches(names@.take(k as int), q@),
        decreases names.len() - k,
    {
        assert(names@.take(k + 1).drop_last() =~= names@.take(k as int));
        if chars_eq(chars_of(names[k].1.as_str()).as_slice(), q.as_slice()) {
            m.push(names[k].0);
        }
        k = k + 1;
    }
    assert(names@.take(names@.len() as int) =~= names@);
    m
}

/// A reference diagnostic of statement `statement`.
fn reference_failure(statement: usize, code: &str, reason: String) -> (d: ModelScriptDiagnostic)
    ensures
        reference_diagnostic(d, statement, code@, reason@),
{
    let d = ModelScriptDiagnostic {
        script: String::new(),
        line: None,
        statement: Some(statement),
        operation: Some("reference".to_owned()),
        external_id: None,
        semantic_name: None,
        code: code.to_owned(),
        reason,
    };
    assert(d.script@ == Seq::<char>::empty());
    d
}

/// Resolve an element reference of statement `statement` against the root
/// element `root` and the qualified names `names` of the project's elements.
pub fn element_reference(
    token: &str,
    root: ElementId,
    names: &[(ElementId, String)],
    statement: usize,
) -> (r: Result<BuildReference<ElementId>, ModelScriptDiagnostic>)
    ensures
        element_reference_outcome(token@, root, names@, statement, r),
{
    proof {
        lemma_literal_lengths();
    }
    let t = trimmed(chars_of(token).as_slice());
    if chars_eq(t.as_slice(), chars_of("$root").as_slice()) {
        return Ok(BuildReference::Existing(root));
    }
    if starts_with(t.as_slice(), chars_of("qname:").as_slice()) {
        let q = slice_copy(t.as_slice(), 6, t.len());
        let m = matching_names(names, &q);
        if m.len() == 1 {
            return Ok(BuildReference::Existing(m[0]));
        }
        let mut reason: Vec<char> = Vec::new();
        if m.len() == 0 {
            push_text(&mut reason, "exact qualified name was not found: ");
        } else {
            push_text(&mut reason, "exact qualified name is ambiguous: ");
        }
        let ghost head = reason@;
        let mut k: usize = 0;
        while k < q.len()
            invariant
                k <= q@.len(),
                reason@ == head + q@.take(k as int),
            decreases q.len() - k,
        {
            assert(q@.take(k + 1) =~= q@.take(k as int).push(q@[k as int]));
            reason.push(q[k]);
            k = k + 1;
        }
        assert(q@.take(q@.len() as int) =~= q@);
        let code = if m.len() == 0 {
            "UNRESOLVED_REFERENCE"
        } else {
            "AMBIGUOUS_REFERENCE"
        };
        return Err(reference_failure(statement, code, string_from_chars(reason.as_slice())));
    }
    let stripped = script_external_token(string_from_chars(t.as_slice()).as_str());
    let e = trimmed(chars_of(stripped.as_str()).as_slice());
    if e.len() == 0 {
        return Err(reference_failure(statement, "UNRESOLVED_REFERENCE", "blank External ID reference".to_owned()));
    }
    Ok(BuildReference::External(string_from_chars(e.as_slice())))
}

/// A diagram family name as typed, normalized: trimmed, ASCII lower case, and
/// `_` read as `-`.
pub open spec fn family_key(value: Seq<char>) -> Seq<char> {
    trim(value).map_values(|c: char| if ascii_lower(c) == '_' { '-' } else { ascii_lower(c) })
}

/// The diagram family a normalized name denotes.
pub open spec fn family_of_key(k: Seq<char>) -> Option<Seq<char>> {
    if k == "bdd"@ {
        Some("bdd"@)
    } else if k == "ibd"@ {
        Some("ibd"@)
    } else if k == "requirement"@ || k == "requirements"@ {
        Some("requirement"@)
    } else if k == "use-case"@ || k == "usecase"@ || k == "use case"@ {
        Some("use-case"@)
    } else if k == "package"@ {
        Some("package"@)
    } else if k == "activity"@ {
        Some("activity"@)
    } else if k == "state-machine"@ || k == "statemachine"@ || k == "state machine"@ {
        Some("state-machine"@)
    } else if k == "sequence"@ {
        Some("sequence"@)
    } else if k == "parametric"@ {
        Some("parametric"@)
    } else {
        None
    }
}

fn lower_key(v: &[char]) -> (r: Vec<char>)
    ensures
        r@ == v@.map_values(|c: char| if ascii_lower(c) == '_' { '-' } else { ascii_lower(c) }),
{
    let mut r: Vec<char> = Vec::new();
    let mut k: usize = 0;
    while k < v.len()
        invariant
            k <= v@.len(),
            r@ == v@.take(k as int).map_values(
                |c: char| if ascii_lower(c) == '_' { '-' } else { ascii_lower(c) },
            ),
        decreases v.len() - k,
    {
        let c = v[k];
        let l = if 'A' <= c && c <= 'Z' {
            ((c as u8) + 32) as char
        } else {
            c
        };
        let m = if l == '_' { '-' } else { l };
        r.push(m);
        assert(v@.take(k + 1) =~= v@.take(k as int).push(c));
        assert(r@ =~= v@.take(k + 1).map_values(
            |c: char| if ascii_lower(c) == '_' { '-' } else { ascii_lower(c) },
        ));
        k = k + 1;
    }
    assert(v@.take(v@.len() as int) =~= v@);
    r
}

fn is_key(k: &Vec<char>, lit: &str) -> (r: bool)
    ensures
        r == (k@ == lit@),
{
    chars_eq(k.as_slice(), chars_of(lit).as_slice())
}

/// The diagram family a script names, or an error naming the normalized text.
pub fn presentation_family(value: &str) -> (r: Result<&'static str, String>)
    ensures
        match r {
            Ok(f) => family_of_key(family_key(value@)) == Some(f@),
            Err(m) => family_of_key(family_key(value@)) is None && m@
                == "unsupported diagram family: "@ + family_key(value@),
        },
{
    let k = lower_key(trimmed(chars_of(value).as_slice()).as_slice());
    if is_key(&k, "bdd") {
        Ok("bdd")
    } else if is_key(&k, "ibd") {
        Ok("ibd")
    } else if is_key(&k, "requirement") || is_key(&k, "requirements") {
        Ok("requirement")
    } else if is_key(&k, "use-case") || is_key(&k, "usecase") || is_key(&k, "use case") {
        Ok("use-case")
    } else if is_key(&k, "package") {
        Ok("package")
    } else if is_key(&k, "activity") {
        Ok("activity")
    } else if is_key(&k, "state-machine") || is_key(&k, "statemachine") || is_key(
        &k,
        "state machine",
    ) {
        Ok("state-machine")
    } else if is_key(&k, "sequence") {
        Ok("sequence")
    } else if is_key(&k, "parametric") {
        Ok("parametric")
    } else {
        let mut m = "unsupported diagram family: ".to_owned();
        m.append(string_from_chars(k.as_slice()).as_str());
        Err(m)
    }
}

/// Kinds of semantic elements the presentation rules distinguish; every other
/// kind is `Other`.
#[derive(Debug, Clone, Copy, PartialEq, Eq, Structural)]
pub enum ElementKind {
    Model,
    Package,
    Block,
    AssociationBlock,
    InterfaceBlock,
    ConstraintBlock,
    ValueType,
    PrimitiveType,
    QuantityKind,
    Unit,
    PartProperty,
    ReferenceProperty,
    ValueProperty,
    FlowProperty,
    ConstraintProperty,
    ConstraintParameter,
    ProxyPort,
    FullPort,
    Operation,
    Parameter,
    Reception,
    EnumerationLiteral,
    Slot,
    InstanceSpecification,
    Requirement,
    TestCase,
    Actor,
    UseCase,
    Other,
}

/// Kinds of relationships the presentation rules distinguish; every other kind
/// is `Other`.
#[derive(Debug, Clone, Copy, PartialEq, Eq, Structural)]
pub enum RelationshipKind {
    Association,
    Generalization,
    Dependency,
    PackageImport,
    ElementImport,
    Include,
    Extend,
    Connector,
    ItemFlow,
    BindingConnector,
    Other,
}

/// Features, ports, behavioral features, literals and slots: kinds that are
/// never a node of their own on a BDD or package diagram.
pub open spec fn is_owned_feature_kind(kind: ElementKind) -> bool {
    kind == ElementKind::PartProperty || kind == ElementKind::ReferenceProperty || kind
        == ElementKind::ValueProperty || kind == ElementKind::FlowProperty || kind
        == ElementKind::ConstraintProperty || kind == ElementKind::ConstraintParameter || kind
        == ElementKind::ProxyPort || kind == ElementKind::FullPort || kind
        == ElementKind::Operation || kind == ElementKind::Parameter || kind
        == ElementKind::Reception || kind == ElementKind::EnumerationLiteral || kind
        == ElementKind::Slot
}

/// Whether a populated diagram of a BDD-like family shows an element of `kind`.
pub open spec fn family_accepts_spec(family: Seq<char>, kind: ElementKind) -> bool {
    if family == "bdd"@ {
        !(kind == ElementKind::Model || kind == ElementKind::Package || is_owned_feature_kind(kind))
    } else if family == "requirement"@ {
        kind == ElementKind::Requirement || kind == ElementKind::TestCase || kind
            == ElementKind::Block || kind == ElementKind::AssociationBlock || kind
            == ElementKind::InterfaceBlock || kind == ElementKind::ConstraintBlock
    } else if family == "use-case"@ {
        kind == ElementKind::Actor || kind == ElementKind::UseCase
    } else if family == "package"@ {
        !is_owned_feature_kind(kind)
    } else if family == "parametric"@ {
        kind == ElementKind::ConstraintProperty || kind == ElementKind::ValueProperty
    } else {
        false
    }
}

fn owned_feature_kind(kind: ElementKind) -> (r: bool)
    ensures
        r == is_owned_feature_kind(kind),
{
    match kind {
        ElementKind::PartProperty | ElementKind::ReferenceProperty | ElementKind::ValueProperty
        | ElementKind::FlowProperty | ElementKind::ConstraintProperty
        | ElementKind::ConstraintParameter | ElementKind::ProxyPort | ElementKind::FullPort
        | ElementKind::Operation | ElementKind::Parameter | ElementKind::Reception
        | ElementKind::EnumerationLiteral | ElementKind::Slot => true,
        _ => false,
    }
}

/// Whether a populated diagram of `family` shows an element of `kind`.
pub fn bdd_family_accepts(family: &str, kind: ElementKind) -> (r: bool)
    ensures
        r == family_accepts_spec(family@, kind),
{
    let f = chars_of(family);
    if is_key(&f, "bdd") {
        !(kind == ElementKind::Model || kind == ElementKind::Package || owned_feature_kind(kind))
    } else if is_key(&f, "requirement") {
        match kind {
            ElementKind::Requirement | ElementKind::TestCase | ElementKind::Block
            | ElementKind::AssociationBlock | ElementKind::InterfaceBlock
            | ElementKind::ConstraintBlock => true,
            _ => false,
        }
    } else if is_key(&f, "use-case") {
        kind == ElementKind::Actor || kind == ElementKind::UseCase
    } else if is_key(&f, "package") {
        !owned_feature_kind(kind)
    } else if is_key(&f, "parametric") {
        kind == ElementKind::ConstraintProperty || kind == ElementKind::ValueProperty
    } else {
        false
    }
}

/// Whether a populated diagram of `family` shows a relationship of `kind`.
pub open spec fn relationship_presentable_spec(family: Seq<char>, kind: RelationshipKind) -> bool {
    if family == "package"@ {
        kind == RelationshipKind::PackageImport || kind == RelationshipKind::ElementImport || kind
            == RelationshipKind::Dependency
    } else if family == "use-case"@ {
        kind == RelationshipKind::Association || kind == RelationshipKind::Include || kind
            == RelationshipKind::Extend || kind == RelationshipKind::Generalization
    } else if family == "parametric"@ {
        kind == RelationshipKind::BindingConnector
    } else {
        !(kind == RelationshipKind::Connector || kind == RelationshipKind::ItemFlow || kind
            == RelationshipKind::BindingConnector)
    }
}

/// Whether a populated diagram of `family` shows a relationship of `kind`.
pub fn relationship_presentable_on_family(family: &str, kind: RelationshipKind) -> (r: bool)
    ensures
        r == relationship_presentable_spec(family@, kind),
{
    let f = chars_of(family);
    if is_key(&f, "package") {
        kind == RelationshipKind::PackageImport || kind == RelationshipKind::ElementImport || kind
            == RelationshipKind::Dependency
    } else if is_key(&f, "use-case") {
        kind == RelationshipKind::Association || kind == RelationshipKind::Include || kind
            == RelationshipKind::Extend || kind == RelationshipKind::Generalization
    } else if is_key(&f, "parametric") {
        kind == RelationshipKind::BindingConnector
    } else {
        !(kind == RelationshipKind::Connector || kind == RelationshipKind::ItemFlow || kind
            == RelationshipKind::BindingConnector)
    }
}


/// The layout and routing service that serves a diagram family.
#[derive(Debug, Clone, Copy, PartialEq, Eq, Structural)]
pub enum DiagramEngine {
    /// BDD-style diagrams: BDD, requirement, use case and package.
    Bdd,
    Parametric,
    Ibd,
    Activity,
    /// State machine and sequence diagrams.
    Behavior,
}

/// Which service lays out and which routes a new script diagram.
#[derive(Debug, Clone, Copy, PartialEq, Eq, Structural)]
pub struct LayoutPlan {
    pub layout: Option<DiagramEngine>,
    pub route: Option<DiagramEngine>,
}

/// The service for a (normalized) diagram family.
pub open spec fn engine_of(family: Seq<char>) -> Option<DiagramEngine> {
    if family == "bdd"@ || family == "requirement"@ || family == "use-case"@ || family
        == "package"@ {
        Some(DiagramEngine::Bdd)
    } else if family == "parametric"@ {
        Some(DiagramEngine::Parametric)
    } else if family == "ibd"@ {
        Some(DiagramEngine::Ibd)
    } else if family == "activity"@ {
        Some(DiagramEngine::Activity)
    } else if family == "state-machine"@ || family == "sequence"@ {
        Some(DiagramEngine::Behavior)
    } else {
        None
    }
}

fn engine_for(f: &Vec<char>) -> (r: Option<DiagramEngine>)
    ensures
        r == engine_of(f@),
{
    if is_key(f, "bdd") || is_key(f, "requirement") || is_key(f, "use-case") || is_key(
        f,
        "package",
    ) {
        Some(DiagramEngine::Bdd)
    } else if is_key(f, "parametric") {
        Some(DiagramEngine::Parametric)
    } else if is_key(f, "ibd") {
        Some(DiagramEngine::Ibd)
    } else if is_key(f, "activity") {
        Some(DiagramEngine::Activity)
    } else if is_key(f, "state-machine") || is_key(f, "sequence") {
        Some(DiagramEngine::Behavior)
    } else {
        None
    }
}

/// Plan the Clean Layout and routing of a new script diagram of `family`:
/// each is asked for by its switch and done by the family's service.
pub fn layout_and_route(family: &str, clean_layout: bool, route: bool) -> (p: LayoutPlan)
    ensures
        p.layout == (if clean_layout { engine_of(family@) } else { None }),
        p.route == (if route { engine_of(family@) } else { None }),
{
    let engine = engine_for(&chars_of(family));
    LayoutPlan {
        layout: if clean_layout { engine } else { None },
        route: if route { engine } else { None },
    }
}

/// A diagram a script asks for.
#[derive(Debug, Clone)]
pub struct ScriptDiagram {
    pub external_id: String,
    pub family: String,
    pub name: String,
    pub owner: String,
    pub context: Option<String>,
    /// External ID of the activity, state machine or interaction that a
    /// specialized diagram presents.
    pub semantic: Option<String>,
    pub populate: bool,
    pub clean_layout: bool,
    pub route: bool,
}

/// A compiled script, as far as its preview reports it.
#[derive(Debug, Clone)]
pub struct CompiledScript {
    pub source_namespace: String,
    /// Number of model statements (diagram statements are numbered after them).
    pub operation_count: usize,
    pub items: Vec<ModelScriptPreviewItem>,
    pub diagrams: Vec<ScriptDiagram>,
}

/// The identity of the preview host.
pub open spec fn script_host() -> Seq<char> {
    "systems-modeler-rust-model-script-v1"@
}

/// The preview line announcing diagram number `offset` of a compiled script.
pub open spec fn diagram_item_ok(
    it: ModelScriptPreviewItem,
    operation_count: int,
    offset: int,
    d: ScriptDiagram,
) -> bool {
    &&& it.statement == operation_count + offset + 1
    &&& it.action == ModelScriptAction::Create
    &&& it.operation@ == "Diagram::"@ + d.family@
    &&& opt_str(it.external_id) == Some(d.external_id@)
    &&& opt_str(it.semantic_name) == Some(d.name@)
    &&& it.detail@ == "native presentation + populate/Clean Layout/route"@
}

/// The preview of a script run, which is never applied: a compiled script
/// reports its statement lines followed by one `Create` line per diagram; a
/// failed run reports its diagnostics and nothing else.
pub fn preview_impl(candidate: Result<CompiledScript, Vec<ModelScriptDiagnostic>>) -> (p: ModelScriptPreview)
    requires
        candidate matches Ok(c) ==> c.operation_count + c.diagrams@.len() < usize::MAX,
    ensures
        p.host@ == script_host(),
        !p.applied,
        match candidate {
            Err(diagnostics) => {
                &&& p.source_namespace@ == Seq::<char>::empty()
                &&& p.items@.len() == 0
                &&& p.diagnostics@ == diagnostics@
            },
            Ok(c) => {
                &&& p.source_namespace@ == c.source_namespace@
                &&& p.diagnostics@.len() == 0
                &&& p.items@.len() == c.items@.len() + c.diagrams@.len()
                &&& p.items@.take(c.items@.len() as int) == c.items@
                &&& forall|k: int|
                    0 <= k < c.diagrams@.len() ==> diagram_item_ok(
                        #[trigger] p.items@[c.items@.len() + k],
                        c.operation_count as int,
                        k,
                        c.diagrams@[k],
                    )
            },
        },
{
    match candidate {
        Err(diagnostics) => ModelScriptPreview {
            host: "systems-modeler-rust-model-script-v1".to_owned(),
            applied: false,
            source_namespace: String::new(),
            items: Vec::new(),
            diagnostics,
        },
        Ok(c) => {
            let mut items = c.items;
            let ghost base = items@;
            let mut k: usize = 0;
            while k < c.diagrams.len()
                invariant
                    k <= c.diagrams@.len(),
                    c.operation_count + c.diagrams@.len() < usize::MAX,
                    items@.len() == base.len() + k,
                    items@.take(base.len() as int) == base,
                    forall|j: int|
                        0 <= j < k ==> diagram_item_ok(
                            #[trigger] items@[base.len() + j],
                            c.operation_count as int,
                            j,
                            c.diagrams@[j],
                        ),
                decreases c.diagrams.len() - k,
            {
                let d = &c.diagrams[k];
                let mut operation = "Diagram::".to_owned();
                operation.append(d.family.as_str());
                let line = item(
                    c.operation_count + k + 1,
                    ModelScriptAction::Create,
                    operation.as_str(),
                    Some(d.external_id.as_str()),
                    Some(d.name.as_str()),
                    "native presentation + populate/Clean Layout/route",
                );
                let ghost before = items@;
                items.push(line);
                assert(items@.take(base.len() as int) =~= before.take(base.len() as int));
                assert forall|j: int| 0 <= j < k + 1 implies diagram_item_ok(
                    #[trigger] items@[base.len() + j],
                    c.operation_count as int,
                    j,
                    c.diagrams@[j],
                ) by {
                    if j < k {
                        assert(items@[base.len() + j] == before[base.len() + j]);
                    }
                }
                k = k + 1;
            }
            ModelScriptPreview {
                host: "systems-modeler-rust-model-script-v1".to_owned(),
                applied: false,
                source_namespace: c.source_namespace,
                items,
                diagnostics: Vec::new(),
            }
        },
    }
}

/// Whether statement `i` of a script (with the given External IDs) repeats
/// the External ID of an earlier statement.
pub open spec fn repeats_earlier(ids: Seq<Option<String>>, i: int) -> bool {
    exists|j: int|
        0 <= j < i && (#[trigger] ids[j]) is Some && ids[j]->0@ == ids[i]->0@
}

/// The screening diagnostic of statement `i`, whose External ID is `ids[i]`:
/// a blank ID is required, a repeated one is a duplicate, anything else passes.
pub open spec fn screening_code(ids: Seq<Option<String>>, i: int) -> Option<Seq<char>> {
    match ids[i] {
        None => None,
        Some(e) => if trim(e@).len() == 0 {
            Some("EXTERNAL_ID_REQUIRED"@)
        } else if repeats_earlier(ids, i) {
            Some("DUPLICATE_EXTERNAL_ID"@)
        } else {
            None
        },
    }
}

/// The reason a screening diagnostic with `code` gives.
pub open spec fn screening_reason(code: Seq<char>) -> Seq<char> {
    if code == "EXTERNAL_ID_REQUIRED"@ {
        "External ID must not be blank"@
    } else {
        "External ID is duplicated in this script transaction"@
    }
}

/// Screen the External IDs of a script's statements (`None` for a statement
/// without one) before anything is compiled: statement `i + 1` gets a
/// diagnostic exactly when its ID is blank or repeats an earlier one.
pub fn screen_external_ids(script_name: &str, ids: &[Option<String>]) -> (r: Vec<
    Option<ModelScriptDiagnostic>,
>)
    requires
        ids@.len() < usize::MAX,
    ensures
        r@.len() == ids@.len(),
        forall|i: int|
            0 <= i < ids@.len() ==> match (#[trigger] r@[i], screening_code(ids@, i)) {
                (None, None) => true,
                (Some(d), Some(code)) => d.code@ == code && d.script@ == script_name@
                    && d.statement == Some((i + 1) as usize) && opt_str(d.operation) == Some(
                    "compile"@,
                ) && opt_str(d.external_id) == opt_str(ids@[i]) && d.line is None
                        && d.semantic_name is None && d.reason@ == screening_reason(code),
                _ => false,
            },
{
    let mut r: Vec<Option<ModelScriptDiagnostic>> = Vec::new();
    let mut i: usize = 0;
    while i < ids.len()
        invariant
            i <= ids@.len() < usize::MAX,
            r@.len() == i,
            forall|k: int|
                0 <= k < i ==> match (#[trigger] r@[k], screening_code(ids@, k)) {
                    (None, None) => true,
                    (Some(d), Some(code)) => d.code@ == code && d.script@ == script_name@
                        && d.statement == Some((k + 1) as usize) && opt_str(d.operation)
                        == Some("compile"@) && opt_str(d.external_id) == opt_str(ids@[k]) && d.line is None
                        && d.semantic_name is None && d.reason@ == screening_reason(code),
                    _ => false,
                },
        decreases ids.len() - i,
    {
        proof {
            reveal_strlit("EXTERNAL_ID_REQUIRED");
            reveal_strlit("DUPLICATE_EXTERNAL_ID");
        }
        let outcome = match &ids[i] {
            None => None,
            Some(e) => {
                let blank = trimmed(chars_of(e.as_str()).as_slice()).len() == 0;
                if blank {
                    Some(
                        diag(
                            script_name,
                            Some(i + 1),
                            Some("compile".to_owned()),
                            Some(e.clone()),
                            "EXTERNAL_ID_REQUIRED",
                            "External ID must not be blank",
                        ),
                    )
                } else {
                    let mut repeated = false;
                    let mut j: usize = 0;
                    while j < i
                        invariant
                            j <= i < ids@.len(),
                            ids@[i as int] == Some(*e),
                            repeated == exists|w: int|
                                0 <= w < j && (#[trigger] ids@[w]) is Some && ids@[w]->0@
                                    == e@,
                        decreases i - j,
                    {
                        match &ids[j] {
                            Some(x) => {
                                if *x == *e {
                                    repeated = true;
                                }
                            },
                            None => {},
                        }
                        j = j + 1;
                    }
                    if repeated {
                        Some(
                            diag(
                                script_name,
                                Some(i + 1),
                                Some("compile".to_owned()),
                                Some(e.clone()),
                                "DUPLICATE_EXTERNAL_ID",
                                "External ID is duplicated in this script transaction",
                            ),
                        )
                    } else {
                        None
                    }
                }
            },
        };
        r.push(outcome);
        i = i + 1;
    }
    r
}

/// The payload between the first `quote` after the first `modelScript` and the
/// last `quote` after it, with the number of lines before the payload.
pub open spec fn quoted_payload(source: Seq<char>, quote: Seq<char>) -> Option<(Seq<char>, int)> {
    let call = find_from(source, "modelScript"@, 0);
    if call < 0 {
        None
    } else {
        let after = call + "modelScript"@.len();
        let open = find_from(source.skip(after), quote, 0);
        if open < 0 {
            None
        } else {
            let start = after + open + quote.len();
            let rest = source.skip(start);
            let close = rfind(rest, quote);
            if close < 0 {
                None
            } else {
                Some((rest.take(close), lines(source.take(start)).len() as int))
            }
        }
    }
}

/// Three single quotes.
pub open spec fn single_quotes() -> Seq<char> {
    seq!['\'', '\'', '\'']
}

/// Three double quotes.
pub open spec fn double_quotes() -> Seq<char> {
    seq!['"', '"', '"']
}

/// The JSON payload of a script and the line it starts on: the trimmed source
/// itself when it is raw JSON, else the text inside `modelScript('''...''')`
/// or `modelScript("""...""")`.
pub open spec fn extract_payload_spec(source: Seq<char>) -> Option<(Seq<char>, int)> {
    let t = trim(source);
    if t.len() > 0 && t[0] == '{' {
        Some((t, 1))
    } else {
        match quoted_payload(source, single_quotes()) {
            Some(r) => Some(r),
            None => quoted_payload(source, double_quotes()),
        }
    }
}

proof fn lemma_call_length()
    ensures
        "modelScript"@.len() == 11,
{
    reveal_strlit("modelScript");
}

fn quoted(source: &Vec<char>, q: &Vec<char>) -> (r: Option<(Vec<char>, usize)>)
    requires
        q@.len() == 3,
    ensures
        match (r, quoted_payload(source@, q@)) {
            (Some((p, line)), Some((sp, sline))) => p@ == sp && line == sline,
            (None, None) => true,
            _ => false,
        },
{
    proof {
        lemma_call_length();
    }
    let call = match find_chars(source.as_slice(), chars_of("modelScript").as_slice()) {
        None => {
            return None;
        },
        Some(c) => c,
    };
    assert(call + 11 <= source@.len());
    assert(source@.len() == source.len());
    let after = call + 11;
    let tail = slice_copy(source.as_slice(), after, source.len());
    assert(tail@ =~= source@.skip(after as int));
    let open = match find_chars(tail.as_slice(), q.as_slice()) {
        None => {
            return None;
        },
        Some(o) => o,
    };
    let start = after + open + 3;
    let rest = slice_copy(source.as_slice(), start, source.len());
    assert(rest@ =~= source@.skip(start as int));
    let close = match rfind_chars(rest.as_slice(), q.as_slice()) {
        None => {
            return None;
        },
        Some(c) => c,
    };
    let payload = slice_copy(rest.as_slice(), 0, close);
    assert(payload@ =~= rest@.take(close as int));
    let head = slice_copy(source.as_slice(), 0, start);
    assert(head@ =~= source@.take(start as int));
    let head_lines = split_lines(head.as_slice());
    assert(views(head_lines@).len() == head_lines@.len());
    Some((payload, head_lines.len()))
}

/// The JSON payload of a script source and the line it starts on.
pub fn extract_payload(source: &str) -> (r: Result<(String, usize), String>)
    ensures
        match (r, extract_payload_spec(source@)) {
            (Ok((p, line)), Some((sp, sline))) => p@ == sp && line == sline,
            (Err(m), None) => m@
                == "script must be raw model-script JSON or modelScript triple-quoted JSON"@,
            _ => false,
        },
{
    let chars = chars_of(source);
    let t = trimmed(chars.as_slice());
    if t.len() > 0 && t[0] == '{' {
        return Ok((string_from_chars(t.as_slice()), 1));
    }
    let singles: Vec<char> = vec!['\'', '\'', '\''];
    let doubles: Vec<char> = vec!['"', '"', '"'];
    assert(singles@ =~= single_quotes());
    assert(doubles@ =~= double_quotes());
    match quoted(&chars, &singles) {
        Some((p, line)) => {
            return Ok((string_from_chars(p.as_slice()), line));
        },
        None => {},
    }
    match quoted(&chars, &doubles) {
        Some((p, line)) => Ok((string_from_chars(p.as_slice()), line)),
        None => Err(
            "script must be raw model-script JSON or modelScript triple-quoted JSON".to_owned(),
        ),
    }
}

/// Which element kinds each BDD-like family shows when populated: a BDD
/// everything but models, packages and owned features; a requirement
/// diagram requirements, test cases and blocks; a use-case diagram actors
/// and use cases; a package diagram everything but owned features; a
/// parametric diagram constraint and value properties; no other family.
pub proof fn lemma_family_kinds(kind: ElementKind, family: Seq<char>)
    ensures
        family_accepts_spec("bdd"@, kind) <==> (kind != ElementKind::Model && kind != ElementKind::Package
            && !is_owned_feature_kind(kind)),
        family_accepts_spec("requirement"@, kind) <==> (kind == ElementKind::Requirement || kind == ElementKind::TestCase
            || kind == ElementKind::Block || kind == ElementKind::AssociationBlock || kind == ElementKind::InterfaceBlock
            || kind == ElementKind::ConstraintBlock),
        family_accepts_spec("use-case"@, kind) <==> (kind == ElementKind::Actor || kind == ElementKind::UseCase),
        family_accepts_spec("package"@, kind) <==> !is_owned_feature_kind(kind),
        family_accepts_spec("parametric"@, kind) <==> (kind == ElementKind::ConstraintProperty || kind
            == ElementKind::ValueProperty),
        family != "bdd"@ && family != "requirement"@ && family != "use-case"@ && family != "package"@ && family
            != "parametric"@ ==> !family_accepts_spec(family, kind),
        is_owned_feature_kind(kind) <==> (kind == ElementKind::PartProperty || kind == ElementKind::ReferenceProperty
            || kind == ElementKind::ValueProperty || kind == ElementKind::FlowProperty || kind
            == ElementKind::ConstraintProperty || kind == ElementKind::ConstraintParameter || kind
            == ElementKind::ProxyPort || kind == ElementKind::FullPort || kind == ElementKind::Operation || kind
            == ElementKind::Parameter || kind == ElementKind::Reception || kind == ElementKind::EnumerationLiteral
            || kind == ElementKind::Slot),
{
    reveal_strlit("bdd");
    reveal_strlit("requirement");
    reveal_strlit("use-case");
    reveal_strlit("package");
    reveal_strlit("parametric");
    assert("bdd"@.len() == 3 && "requirement"@.len() == 11 && "use-case"@.len() == 8 && "package"@.len() == 7
        && "parametric"@.len() == 10);
    assert("requirement"@ != "bdd"@);
    assert("use-case"@ != "bdd"@ && "use-case"@ != "requirement"@);
    assert("package"@ != "bdd"@ && "package"@ != "requirement"@ && "package"@ != "use-case"@);
    assert("parametric"@ != "bdd"@ && "parametric"@ != "requirement"@ && "parametric"@ != "use-case"@
        && "parametric"@ != "package"@);
}

/// Every diagram family a script can name is laid out and routed by a
/// service: BDD-like families by the BDD service, and the parametric, IBD,
/// activity and behavior families each by their own.
pub proof fn lemma_every_family_has_an_engine(key: Seq<char>)
    ensures
        family_of_key(key) matches Some(f) ==> engine_of(f) is Some,
        engine_of("bdd"@) == Some(DiagramEngine::Bdd),
        engine_of("requirement"@) == Some(DiagramEngine::Bdd),
        engine_of("use-case"@) == Some(DiagramEngine::Bdd),
        engine_of("package"@) == Some(DiagramEngine::Bdd),
        engine_of("parametric"@) == Some(DiagramEngine::Parametric),
        engine_of("ibd"@) == Some(DiagramEngine::Ibd),
        engine_of("activity"@) == Some(DiagramEngine::Activity),
        engine_of("state-machine"@) == Some(DiagramEngine::Behavior),
        engine_of("sequence"@) == Some(DiagramEngine::Behavior),
{
    reveal_strlit("bdd");
    reveal_strlit("requirement");
    reveal_strlit("use-case");
    reveal_strlit("package");
    reveal_strlit("parametric");
    reveal_strlit("ibd");
    reveal_strlit("activity");
    reveal_strlit("state-machine");
    reveal_strlit("sequence");
    assert("bdd"@.len() == 3 && "bdd"@[0] == 'b');
    assert("requirement"@.len() == 11 && "requirement"@[0] == 'r');
    assert("use-case"@.len() == 8 && "use-case"@[0] == 'u');
    assert("package"@.len() == 7 && "package"@[0] == 'p');
    assert("parametric"@.len() == 10 && "parametric"@[0] == 'p');
    assert("ibd"@.len() == 3 && "ibd"@[0] == 'i');
    assert("activity"@.len() == 8 && "activity"@[0] == 'a');
    assert("state-machine"@.len() == 13 && "state-machine"@[0] == 's');
    assert("sequence"@.len() == 8 && "sequence"@[0] == 's');
    assert("requirement"@ != "bdd"@);
    assert("use-case"@ != "bdd"@);
    assert("use-case"@ != "requirement"@);
    assert("package"@ != "bdd"@);
    assert("package"@ != "requirement"@);
    assert("package"@ != "use-case"@);
    assert("parametric"@ != "bdd"@);
    assert("parametric"@ != "requirement"@);
    assert("parametric"@ != "use-case"@);
    assert("parametric"@ != "package"@);
    assert("ibd"@[0] != "bdd"@[0]);
    assert("ibd"@ != "bdd"@);
    assert("ibd"@ != "requirement"@);
    assert("ibd"@ != "use-case"@);
    assert("ibd"@ != "package"@);
    assert("ibd"@ != "parametric"@);
    assert("activity"@ != "bdd"@);
    assert("activity"@ != "requirement"@);
    assert("activity"@[0] != "use-case"@[0]);
    assert("activity"@ != "use-case"@);
    assert("activity"@ != "package"@);
    assert("activity"@ != "parametric"@);
    assert("activity"@ != "ibd"@);
    assert("state-machine"@ != "bdd"@);
    assert("state-machine"@ != "requirement"@);
    assert("state-machine"@ != "use-case"@);
    assert("state-machine"@ != "package"@);
    assert("state-machine"@ != "parametric"@);
    assert("state-machine"@ != "ibd"@);
    assert("state-machine"@ != "activity"@);
    assert("sequence"@ != "bdd"@);
    assert("sequence"@ != "requirement"@);
    assert("sequence"@[0] != "use-case"@[0]);
    assert("sequence"@ != "use-case"@);
    assert("sequence"@ != "package"@);
    assert("sequence"@ != "parametric"@);
    assert("sequence"@ != "ibd"@);
    assert("sequence"@[0] != "activity"@[0]);
    assert("sequence"@ != "activity"@);
    assert("sequence"@ != "state-machine"@);
}

} // verus!
