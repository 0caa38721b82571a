//! Compiling the statements of a model script into build-plan operations and
//! preview lines, reconciling each statement with what its namespaced
//! External ID already names: project statements (elements, relationships,
//! connectors, item flows) against the project, behavior statements
//! (activities and what they hold, state machines, interactions and what they
//! hold) against the behavior stores, bindings against the project's
//! relationships. Project operations come first in the plan, then behavior
//! and parametric ones. What is read is given as plain facts: the project's
//! root, the qualified name of each element, and the External ID, kind and
//! name of each element, relationship and behavior element.

use vstd::prelude::*;
use crate::model_build::{BindingEndpointBuild, BuildReference, ElementId, MessageSignatureBuild, TriggerBuild};
use crate::model_script::{
    ModelScriptAction, ModelScriptDiagnostic, ModelScriptPreviewItem, diag, element_reference,
    element_reference_outcome, external_token_spec, item, qualified_matches, screening_code,
    screening_reason, screen_external_ids, external_reference, external_reference_ok, CompiledScript,
    ModelScriptPreview, ScriptDiagram, diagram_item_ok, preview_impl, script_host,
};
use crate::text::{chars_eq, chars_of, has_prefix, opt_str, push_text, string_from_chars, strs, trim, trimmed};

verus! {

/// A resolved element reference.
pub enum RefView {
    Existing(ElementId),
    External(Seq<char>),
}

pub open spec fn ref_view(r: BuildReference<ElementId>) -> RefView {
    match r {
        BuildReference::Existing(id) => RefView::Existing(id),
        BuildReference::External(e) => RefView::External(e@),
    }
}

pub open spec fn opt_ref_view(r: Option<BuildReference<ElementId>>) -> Option<RefView> {
    match r {
        Some(x) => Some(ref_view(x)),
        None => None,
    }
}

/// The content of a diagnostic.
pub struct DiagView {
    pub script: Seq<char>,
    pub line: Option<usize>,
    pub statement: Option<usize>,
    pub operation: Option<Seq<char>>,
    pub external_id: Option<Seq<char>>,
    pub semantic_name: Option<Seq<char>>,
    pub code: Seq<char>,
    pub reason: Seq<char>,
}

pub open spec fn diag_view(d: ModelScriptDiagnostic) -> DiagView {
    DiagView {
        script: d.script@,
        line: d.line,
        statement: d.statement,
        operation: opt_str(d.operation),
        external_id: opt_str(d.external_id),
        semantic_name: opt_str(d.semantic_name),
        code: d.code@,
        reason: d.reason@,
    }
}

/// A diagnostic without line or semantic name.
pub open spec fn diag_of(
    script: Seq<char>,
    statement: Option<usize>,
    operation: Seq<char>,
    external_id: Option<Seq<char>>,
    code: Seq<char>,
    reason: Seq<char>,
) -> DiagView {
    DiagView {
        script,
        line: None,
        statement,
        operation: Some(operation),
        external_id,
        semantic_name: None,
        code,
        reason,
    }
}

/// The content of a preview line.
pub struct ItemView {
    pub statement: usize,
    pub action: ModelScriptAction,
    pub operation: Seq<char>,
    pub external_id: Option<Seq<char>>,
    pub semantic_name: Option<Seq<char>>,
    pub detail: Seq<char>,
}

pub open spec fn item_view(i: ModelScriptPreviewItem) -> ItemView {
    ItemView {
        statement: i.statement,
        action: i.action,
        operation: i.operation@,
        external_id: opt_str(i.external_id),
        semantic_name: opt_str(i.semantic_name),
        detail: i.detail@,
    }
}

/// What an element reference token resolves to (see `element_reference`).
pub open spec fn ref_spec(
    token: Seq<char>,
    root: ElementId,
    names: Seq<(ElementId, String)>,
    statement: usize,
) -> Result<RefView, DiagView> {
    let t = trim(token);
    if t == "$root"@ {
        Ok(RefView::Existing(root))
    } else if has_prefix(t, "qname:"@) {
        let q = t.skip(6);
        let m = qualified_matches(names, q);
        if m.len() == 1 {
            Ok(RefView::Existing(m[0]))
        } else if m.len() == 0 {
            Err(diag_of(Seq::empty(), Some(statement), "reference"@, None, "UNRESOLVED_REFERENCE"@,
                "exact qualified name was not found: "@ + q))
        } else {
            Err(diag_of(Seq::empty(), Some(statement), "reference"@, None, "AMBIGUOUS_REFERENCE"@,
                "exact qualified name is ambiguous: "@ + q))
        }
    } else {
        let e = trim(external_token_spec(t));
        if e.len() == 0 {
            Err(diag_of(Seq::empty(), Some(statement), "reference"@, None, "UNRESOLVED_REFERENCE"@,
                "blank External ID reference"@))
        } else {
            Ok(RefView::External(e))
        }
    }
}

/// What an optional reference token resolves to.
pub open spec fn opt_ref_spec(
    token: Option<Seq<char>>,
    root: ElementId,
    names: Seq<(ElementId, String)>,
    statement: usize,
) -> Result<Option<RefView>, DiagView> {
    match token {
        None => Ok(None),
        Some(t) => match ref_spec(t, root, names, statement) {
            Ok(r) => Ok(Some(r)),
            Err(d) => Err(d),
        },
    }
}

pub open spec fn ref_result_view(r: Result<BuildReference<ElementId>, ModelScriptDiagnostic>) -> Result<
    RefView,
    DiagView,
> {
    match r {
        Ok(x) => Ok(ref_view(x)),
        Err(d) => Err(diag_view(d)),
    }
}

/// One element or relationship the project holds: its namespaced External
/// ID, its kind (as the kind's name is written) and its name.
#[derive(Debug, Clone)]
pub struct ExternalRecord {
    pub external_id: String,
    pub kind: String,
    pub name: String,
}

/// What compiling reads of the project.
#[derive(Debug, Clone)]
pub struct ProjectFacts {
    pub root: ElementId,
    /// Each element with its qualified name.
    pub qualified_names: Vec<(ElementId, String)>,
    pub elements: Vec<ExternalRecord>,
    pub relationships: Vec<ExternalRecord>,
    /// The activities, state machines and interactions of the behavior
    /// repositories (their kind is not read).
    pub activities: Vec<ExternalRecord>,
    pub state_machines: Vec<ExternalRecord>,
    pub interactions: Vec<ExternalRecord>,
    /// The other semantic elements of the behavior repository by namespaced
    /// External ID, with the name of their kind (`Region`, `Lifeline`,
    /// `Occurrence`, `Invariant` and the like).
    pub behavior_ids: Vec<ExternalRecord>,
    /// The semantic elements inside activities by namespaced External ID,
    /// with the name of their kind (`Partition`, `StructuredNode`, `Edge`
    /// and the like).
    pub activity_ids: Vec<ExternalRecord>,
}

/// The guard, weight, selection and transformation of an activity edge.
#[derive(Debug, Clone)]
pub struct EdgeTexts {
    pub guard: Option<String>,
    pub weight: Option<String>,
    pub selection: Option<String>,
    pub transformation: Option<String>,
}

pub open spec fn texts_view(t: EdgeTexts) -> Seq<Option<Seq<char>>> {
    seq![opt_str(t.guard), opt_str(t.weight), opt_str(t.selection), opt_str(t.transformation)]
}

/// An end of an activity edge: a node or a pin, by External ID.
#[derive(Debug, Clone)]
pub enum EdgeEnd {
    Node(String),
    Pin(String),
}

pub open spec fn edge_end_view(e: EdgeEnd) -> (bool, Seq<char>) {
    match e {
        EdgeEnd::Node(x) => (false, x@),
        EdgeEnd::Pin(x) => (true, x@),
    }
}

/// The event of a transition as the script writes it.
#[derive(Debug, Clone)]
pub enum TriggerToken {
    Signal(String),
    Call(String),
    Time { expression: String, is_relative: bool },
    Change { expression: String },
    AnyReceive,
}

/// A resolved transition event.
pub enum TriggerView {
    Signal(RefView),
    Call(RefView),
    Time(Seq<char>, bool),
    Change(Seq<char>),
    AnyReceive,
}

pub open spec fn trigger_view(t: TriggerBuild) -> TriggerView {
    match t {
        TriggerBuild::Signal(r) => TriggerView::Signal(ref_view(r)),
        TriggerBuild::Call(r) => TriggerView::Call(ref_view(r)),
        TriggerBuild::Time { expression, is_relative } => TriggerView::Time(expression@, is_relative),
        TriggerBuild::Change { expression } => TriggerView::Change(expression@),
        TriggerBuild::AnyReceive => TriggerView::AnyReceive,
    }
}

pub open spec fn opt_trigger_view(t: Option<TriggerBuild>) -> Option<TriggerView> {
    match t {
        Some(x) => Some(trigger_view(x)),
        None => None,
    }
}

/// What a transition event resolves to: a signal or a call names its
/// element by reference.
pub open spec fn trigger_spec(
    t: TriggerToken,
    root: ElementId,
    names: Seq<(ElementId, String)>,
    k: usize,
) -> Result<TriggerView, DiagView> {
    match t {
        TriggerToken::Signal(x) => match ref_spec(x@, root, names, k) {
            Ok(r) => Ok(TriggerView::Signal(r)),
            Err(d) => Err(d),
        },
        TriggerToken::Call(x) => match ref_spec(x@, root, names, k) {
            Ok(r) => Ok(TriggerView::Call(r)),
            Err(d) => Err(d),
        },
        TriggerToken::Time { expression, is_relative } => Ok(TriggerView::Time(expression@, is_relative)),
        TriggerToken::Change { expression } => Ok(TriggerView::Change(expression@)),
        TriggerToken::AnyReceive => Ok(TriggerView::AnyReceive),
    }
}

pub open spec fn opt_trigger_spec(
    t: Option<TriggerToken>,
    root: ElementId,
    names: Seq<(ElementId, String)>,
    k: usize,
) -> Result<Option<TriggerView>, DiagView> {
    match t {
        None => Ok(None),
        Some(x) => match trigger_spec(x, root, names, k) {
            Ok(v) => Ok(Some(v)),
            Err(d) => Err(d),
        },
    }
}

/// What kind of vertex a vertex statement declares, as the script writes it.
#[derive(Debug, Clone)]
pub enum VertexKindToken {
    State { entry: Option<String>, do_activity: Option<String>, exit: Option<String>, submachine: Option<String> },
    FinalState,
    Pseudostate(String),
}

/// The kind of a vertex to build; a state's submachine is an External ID.
#[derive(Debug, Clone)]
pub enum VertexKindBuild {
    State { entry: Option<String>, do_activity: Option<String>, exit: Option<String>, submachine: Option<String> },
    FinalState,
    Pseudostate(String),
}

pub enum VertexKindView {
    State(Option<Seq<char>>, Option<Seq<char>>, Option<Seq<char>>, Option<Seq<char>>),
    FinalState,
    Pseudostate(Seq<char>),
}

pub open spec fn vertex_kind_view(v: VertexKindBuild) -> VertexKindView {
    match v {
        VertexKindBuild::State { entry, do_activity, exit, submachine } => VertexKindView::State(opt_str(entry),
            opt_str(do_activity), opt_str(exit), opt_str(submachine)),
        VertexKindBuild::FinalState => VertexKindView::FinalState,
        VertexKindBuild::Pseudostate(p) => VertexKindView::Pseudostate(p@),
    }
}

/// What a vertex kind resolves to: a state's submachine only a plain
/// External ID can name.
pub open spec fn vertex_kind_spec(v: VertexKindToken, k: usize) -> Result<VertexKindView, DiagView> {
    match v {
        VertexKindToken::State { entry, do_activity, exit, submachine } => if !opt_external_ok(opt_str(submachine)) {
            Err(reference_kind_invalid(k))
        } else {
            Ok(VertexKindView::State(opt_str(entry), opt_str(do_activity), opt_str(exit), opt_referenced(
                opt_str(submachine))))
        },
        VertexKindToken::FinalState => Ok(VertexKindView::FinalState),
        VertexKindToken::Pseudostate(p) => Ok(VertexKindView::Pseudostate(p@)),
    }
}

/// The operation or signal a message invokes, as the script writes it.
#[derive(Debug, Clone)]
pub enum SignatureToken {
    Operation(String),
    Signal(String),
}

pub enum SignatureView {
    Operation(RefView),
    Signal(RefView),
}

pub open spec fn signature_view(s: MessageSignatureBuild) -> SignatureView {
    match s {
        MessageSignatureBuild::Operation(r) => SignatureView::Operation(ref_view(r)),
        MessageSignatureBuild::Signal(r) => SignatureView::Signal(ref_view(r)),
    }
}

pub open spec fn opt_signature_view(s: Option<MessageSignatureBuild>) -> Option<SignatureView> {
    match s {
        Some(x) => Some(signature_view(x)),
        None => None,
    }
}

pub open spec fn opt_signature_spec(
    s: Option<SignatureToken>,
    root: ElementId,
    names: Seq<(ElementId, String)>,
    k: usize,
) -> Result<Option<SignatureView>, DiagView> {
    match s {
        None => Ok(None),
        Some(SignatureToken::Operation(x)) => match ref_spec(x@, root, names, k) {
            Ok(r) => Ok(Some(SignatureView::Operation(r))),
            Err(d) => Err(d),
        },
        Some(SignatureToken::Signal(x)) => match ref_spec(x@, root, names, k) {
            Ok(r) => Ok(Some(SignatureView::Signal(r))),
            Err(d) => Err(d),
        },
    }
}

/// What kind of activity node a node statement declares, as the script
/// writes it (enumeration values as their text).
#[derive(Debug, Clone)]
pub enum NodeKindToken {
    Initial,
    ActivityFinal,
    FlowFinal,
    Decision { decision_input: Option<String> },
    Merge,
    Fork,
    Join { join_specification: Option<String> },
    OpaqueAction { body: String },
    CallBehavior { activity: String },
    CallOperation { operation: String },
    SendSignal { signal: String },
    AcceptEvent { signal: Option<String> },
    AcceptTimeEvent { expression: String },
    Object { object_kind: String, type_ref: Option<String>, multiplicity: String, ordering: String, selection: Option<String> },
    ActivityParameter { parameter: String },
}

/// The kind of an activity node to build: a called activity by External
/// ID, other model elements by reference.
#[derive(Debug, Clone)]
pub enum NodeKindBuild {
    Initial,
    ActivityFinal,
    FlowFinal,
    Decision { decision_input: Option<String> },
    Merge,
    Fork,
    Join { join_specification: Option<String> },
    OpaqueAction { body: String },
    CallBehavior { activity: String },
    CallOperation { operation: BuildReference<ElementId> },
    SendSignal { signal: BuildReference<ElementId> },
    AcceptEvent { signal: Option<BuildReference<ElementId>> },
    AcceptTimeEvent { expression: String },
    Object {
        object_kind: String,
        type_ref: Option<BuildReference<ElementId>>,
        multiplicity: String,
        ordering: String,
        selection: Option<String>,
    },
    ActivityParameter { parameter: BuildReference<ElementId> },
}

pub enum NodeKindView {
    Initial,
    ActivityFinal,
    FlowFinal,
    Decision(Option<Seq<char>>),
    Merge,
    Fork,
    Join(Option<Seq<char>>),
    OpaqueAction(Seq<char>),
    CallBehavior(Seq<char>),
    CallOperation(RefView),
    SendSignal(RefView),
    AcceptEvent(Option<RefView>),
    AcceptTimeEvent(Seq<char>),
    Object(Seq<char>, Option<RefView>, Seq<char>, Seq<char>, Option<Seq<char>>),
    ActivityParameter(RefView),
}

pub open spec fn node_kind_view(n: NodeKindBuild) -> NodeKindView {
    match n {
        NodeKindBuild::Initial => NodeKindView::Initial,
        NodeKindBuild::ActivityFinal => NodeKindView::ActivityFinal,
        NodeKindBuild::FlowFinal => NodeKindView::FlowFinal,
        NodeKindBuild::Decision { decision_input } => NodeKindView::Decision(opt_str(decision_input)),
        NodeKindBuild::Merge => NodeKindView::Merge,
        NodeKindBuild::Fork => NodeKindView::Fork,
        NodeKindBuild::Join { join_specification } => NodeKindView::Join(opt_str(join_specification)),
        NodeKindBuild::OpaqueAction { body } => NodeKindView::OpaqueAction(body@),
        NodeKindBuild::CallBehavior { activity } => NodeKindView::CallBehavior(activity@),
        NodeKindBuild::CallOperation { operation } => NodeKindView::CallOperation(ref_view(operation)),
        NodeKindBuild::SendSignal { signal } => NodeKindView::SendSignal(ref_view(signal)),
        NodeKindBuild::AcceptEvent { signal } => NodeKindView::AcceptEvent(opt_ref_view(signal)),
        NodeKindBuild::AcceptTimeEvent { expression } => NodeKindView::AcceptTimeEvent(expression@),
        NodeKindBuild::Object { object_kind, type_ref, multiplicity, ordering, selection } => NodeKindView::Object(
            object_kind@, opt_ref_view(type_ref), multiplicity@, ordering@, opt_str(selection)),
        NodeKindBuild::ActivityParameter { parameter } => NodeKindView::ActivityParameter(ref_view(parameter)),
    }
}

/// What a node kind resolves to: a called activity only a plain External
/// ID can name; operations, signals, types and parameters are resolved as
/// element references.
pub open spec fn node_kind_spec(
    n: NodeKindToken,
    root: ElementId,
    names: Seq<(ElementId, String)>,
    k: usize,
) -> Result<NodeKindView, DiagView> {
    match n {
        NodeKindToken::Initial => Ok(NodeKindView::Initial),
        NodeKindToken::ActivityFinal => Ok(NodeKindView::ActivityFinal),
        NodeKindToken::FlowFinal => Ok(NodeKindView::FlowFinal),
        NodeKindToken::Decision { decision_input } => Ok(NodeKindView::Decision(opt_str(decision_input))),
        NodeKindToken::Merge => Ok(NodeKindView::Merge),
        NodeKindToken::Fork => Ok(NodeKindView::Fork),
        NodeKindToken::Join { join_specification } => Ok(NodeKindView::Join(opt_str(join_specification))),
        NodeKindToken::OpaqueAction { body } => Ok(NodeKindView::OpaqueAction(body@)),
        NodeKindToken::CallBehavior { activity } => if external_reference_ok(activity@) {
            Ok(NodeKindView::CallBehavior(referenced_id(activity@)))
        } else {
            Err(reference_kind_invalid(k))
        },
        NodeKindToken::CallOperation { operation } => match ref_spec(operation@, root, names, k) {
            Ok(r) => Ok(NodeKindView::CallOperation(r)),
            Err(d) => Err(d),
        },
        NodeKindToken::SendSignal { signal } => match ref_spec(signal@, root, names, k) {
            Ok(r) => Ok(NodeKindView::SendSignal(r)),
            Err(d) => Err(d),
        },
        NodeKindToken::AcceptEvent { signal } => match opt_ref_spec(opt_str(signal), root, names, k) {
            Ok(r) => Ok(NodeKindView::AcceptEvent(r)),
            Err(d) => Err(d),
        },
        NodeKindToken::AcceptTimeEvent { expression } => Ok(NodeKindView::AcceptTimeEvent(expression@)),
        NodeKindToken::Object { object_kind, type_ref, multiplicity, ordering, selection } =>
            match opt_ref_spec(opt_str(type_ref), root, names, k) {
            Ok(r) => Ok(NodeKindView::Object(object_kind@, r, multiplicity@, ordering@, opt_str(selection))),
            Err(d) => Err(d),
        },
        NodeKindToken::ActivityParameter { parameter } => match ref_spec(parameter@, root, names, k) {
            Ok(r) => Ok(NodeKindView::ActivityParameter(r)),
            Err(d) => Err(d),
        },
    }
}

/// The plain fields of a pin.
#[derive(Debug, Clone)]
pub struct PinFields {
    pub direction: String,
    pub multiplicity: String,
    pub is_ordered: bool,
    pub is_unique: bool,
    pub value: Option<String>,
}

pub struct PinFieldsView {
    pub direction: Seq<char>,
    pub multiplicity: Seq<char>,
    pub is_ordered: bool,
    pub is_unique: bool,
    pub value: Option<Seq<char>>,
}

pub open spec fn pin_fields_view(f: PinFields) -> PinFieldsView {
    PinFieldsView {
        direction: f.direction@,
        multiplicity: f.multiplicity@,
        is_ordered: f.is_ordered,
        is_unique: f.is_unique,
        value: opt_str(f.value),
    }
}

/// One end of a binding as the script writes it: a role and optionally a
/// parameter of it.
#[derive(Debug, Clone)]
pub struct BindingEndToken {
    pub role: String,
    pub parameter: Option<String>,
}

pub open spec fn binding_end_view(b: BindingEndpointBuild) -> (RefView, Option<RefView>) {
    (ref_view(b.role), opt_ref_view(b.parameter))
}

/// What a binding end resolves to: its role, then its parameter.
pub open spec fn binding_end_spec(
    b: BindingEndToken,
    root: ElementId,
    names: Seq<(ElementId, String)>,
    k: usize,
) -> Result<(RefView, Option<RefView>), DiagView> {
    match ref_spec(b.role@, root, names, k) {
        Err(d) => Err(d),
        Ok(r) => match opt_ref_spec(opt_str(b.parameter), root, names, k) {
            Err(d) => Err(d),
            Ok(p) => Ok((r, p)),
        },
    }
}

/// The parent a new region is created in.
#[derive(Debug, Clone)]
pub enum RegionParent {
    StateMachine(String),
    State(String),
}

/// A region's parent: whether it is a state, and its External ID.
pub struct RegionParentView {
    pub state: bool,
    pub external_id: Seq<char>,
}

pub open spec fn parent_view(p: RegionParent) -> RegionParentView {
    match p {
        RegionParent::StateMachine(e) => RegionParentView { state: false, external_id: e@ },
        RegionParent::State(e) => RegionParentView { state: true, external_id: e@ },
    }
}

/// The two behaviors a script declares with a name and a context.
#[derive(Debug, Clone, Copy, PartialEq, Eq, Structural)]
pub enum BehaviorFamily {
    StateMachine,
    Interaction,
}

pub open spec fn family_name(f: BehaviorFamily) -> Seq<char> {
    match f {
        BehaviorFamily::StateMachine => "StateMachine"@,
        BehaviorFamily::Interaction => "Interaction"@,
    }
}

pub open spec fn family_records(facts: ProjectFacts, f: BehaviorFamily) -> Seq<ExternalRecord> {
    match f {
        BehaviorFamily::StateMachine => facts.state_machines@,
        BehaviorFamily::Interaction => facts.interactions@,
    }
}

/// The namespaced External ID of a statement's External ID.
pub open spec fn external_key(namespace: Seq<char>, external: Seq<char>) -> Seq<char> {
    namespace + "::"@ + external
}

/// Positions below `n` of the records with namespaced External ID `key`, in order.
pub open spec fn records_with(rs: Seq<ExternalRecord>, key: Seq<char>, n: int) -> Seq<int>
    decreases n,
{
    if n <= 0 {
        Seq::empty()
    } else if rs[n - 1].external_id@ == key {
        records_with(rs, key, n - 1).push(n - 1)
    } else {
        records_with(rs, key, n - 1)
    }
}

/// A statement of a script.
#[derive(Debug, Clone)]
pub enum ScriptStatement {
    /// An element statement. `kind` is the element kind's name; `optional_fields`
    /// says whether any of documentation, visibility, requirement ID or text,
    /// multiplicity, default value, parameter or flow direction, conjugation
    /// or extension points is given.
    Element {
        external_id: String,
        kind: String,
        name: String,
        owner: String,
        type_ref: Option<String>,
        optional_fields: bool,
    },
    /// A relationship statement. `optional_fields` says whether any of
    /// documentation, visibility, source or target end, alias, extension
    /// condition or extension location is given.
    Relationship {
        external_id: String,
        kind: String,
        source: String,
        target: String,
        owner: Option<String>,
        name: Option<String>,
        optional_fields: bool,
    },
    /// A connector statement: its context element, connector kind name,
    /// the property paths of its two ends and its name (documentation and
    /// visibility travel with the statement).
    Connector {
        external_id: String,
        context: String,
        kind: String,
        source_path: Vec<String>,
        target_path: Vec<String>,
        name: String,
    },
    /// An item-flow statement: the connector it flows on, its end paths,
    /// the conveyed items and its name.
    ItemFlow {
        external_id: String,
        connector: String,
        source_path: Vec<String>,
        target_path: Vec<String>,
        conveyed_items: Vec<String>,
        name: String,
    },
    /// An activity statement: its name, owner and optional context.
    Activity { external_id: String, name: String, owner: String, context: Option<String> },
    /// A state-machine or interaction statement: its name and context.
    Behavior { family: BehaviorFamily, external_id: String, name: String, context: String },
    /// A region statement: its name and exactly one of the state machine or
    /// the state it belongs to.
    Region { external_id: String, name: String, state_machine: Option<String>, state: Option<String> },
    /// A lifeline statement: its interaction, name and represented path.
    Lifeline { external_id: String, interaction: String, name: String, represented_path: Vec<String> },
    /// An occurrence statement (`constraint` is `None`) or a state-invariant
    /// statement: its interaction, lifeline and order on the lifeline.
    OnLifeline {
        external_id: String,
        interaction: String,
        lifeline: String,
        order: u32,
        constraint: Option<String>,
    },
    /// An execution statement: its interaction, lifeline, start and finish
    /// occurrences, and the behavior it executes.
    Execution {
        external_id: String,
        interaction: String,
        lifeline: String,
        start: String,
        finish: String,
        behavior: Option<String>,
    },
    /// A combined-fragment statement: its interaction, its operator (as the
    /// script writes it) and the lifelines it covers.
    CombinedFragment { external_id: String, interaction: String, operator: String, covered_lifelines: Vec<String> },
    /// An operand statement: its fragment, guard and order range.
    Operand { external_id: String, fragment: String, guard: Option<String>, start_order: u32, end_order: u32 },
    /// An activity-partition statement: its activity, name, represented
    /// element and flags.
    ActivityPartition {
        external_id: String,
        activity: String,
        name: String,
        represented_element: Option<String>,
        is_dimension: bool,
        is_external: bool,
    },
    /// A structured-activity-node statement: its activity, name, kind (as the
    /// script writes it) and parent node.
    StructuredActivityNode { external_id: String, activity: String, name: String, kind: String, parent: Option<String> },
    /// An activity-edge statement: its activity, name, kind (as the script
    /// writes it), ends (each a node, or a pin when its flag is set), the
    /// texts it carries and the interruptible region it leaves.
    ActivityEdge {
        external_id: String,
        activity: String,
        name: String,
        kind: String,
        source: String,
        target: String,
        source_is_pin: bool,
        target_is_pin: bool,
        texts: EdgeTexts,
        interrupting_region: Option<String>,
    },
    /// A transition statement: its region, source and target vertices, kind
    /// (as the script writes it), event, guard and effect.
    Transition {
        external_id: String,
        region: String,
        source: String,
        target: String,
        kind: String,
        trigger: Option<TriggerToken>,
        guard: Option<String>,
        effect: Option<String>,
    },
    /// An activity-node statement: its activity, name, kind, and the
    /// partition and structured node it sits in.
    ActivityNode {
        external_id: String,
        activity: String,
        name: String,
        node: NodeKindToken,
        partition: Option<String>,
        structured_node: Option<String>,
    },
    /// A pin statement: the action that owns it, its name, direction,
    /// type, multiplicity (as the script writes it), flags, value and the
    /// parameter it stands for.
    Pin {
        external_id: String,
        owner_action: String,
        name: String,
        direction: String,
        type_ref: Option<String>,
        multiplicity: String,
        is_ordered: bool,
        is_unique: bool,
        value: Option<String>,
        parameter: Option<String>,
    },
    /// A vertex statement: its region, name and kind.
    Vertex { external_id: String, region: String, name: String, vertex: VertexKindToken },
    /// A message statement: its interaction, name, sort (as the script writes
    /// it), send and receive occurrences, signature and arguments.
    Message {
        external_id: String,
        interaction: String,
        name: String,
        sort: String,
        send: Option<String>,
        receive: Option<String>,
        signature: Option<SignatureToken>,
        arguments: Vec<String>,
    },
    /// A binding-connector statement: its name, owner and two ends.
    Binding { external_id: String, name: String, owner: String, source: BindingEndToken, target: BindingEndToken },
    /// A parametric-metadata statement, whose unit scale is a floating-point
    /// number and which the parametric store reads itself: only its External
    /// ID, where it has one, is screened here.
    Deferred { external_id: Option<String> },
}

/// The External ID a statement carries.
pub open spec fn statement_id(s: ScriptStatement) -> Option<String> {
    match s {
        ScriptStatement::Element { external_id, .. } => Some(external_id),
        ScriptStatement::Relationship { external_id, .. } => Some(external_id),
        ScriptStatement::Connector { external_id, .. } => Some(external_id),
        ScriptStatement::ItemFlow { external_id, .. } => Some(external_id),
        ScriptStatement::Activity { external_id, .. } => Some(external_id),
        ScriptStatement::Behavior { external_id, .. } => Some(external_id),
        ScriptStatement::Region { external_id, .. } => Some(external_id),
        ScriptStatement::Lifeline { external_id, .. } => Some(external_id),
        ScriptStatement::OnLifeline { external_id, .. } => Some(external_id),
        ScriptStatement::Execution { external_id, .. } => Some(external_id),
        ScriptStatement::CombinedFragment { external_id, .. } => Some(external_id),
        ScriptStatement::Operand { external_id, .. } => Some(external_id),
        ScriptStatement::ActivityPartition { external_id, .. } => Some(external_id),
        ScriptStatement::StructuredActivityNode { external_id, .. } => Some(external_id),
        ScriptStatement::ActivityEdge { external_id, .. } => Some(external_id),
        ScriptStatement::Transition { external_id, .. } => Some(external_id),
        ScriptStatement::Binding { external_id, .. } => Some(external_id),
        ScriptStatement::Vertex { external_id, .. } => Some(external_id),
        ScriptStatement::Message { external_id, .. } => Some(external_id),
        ScriptStatement::ActivityNode { external_id, .. } => Some(external_id),
        ScriptStatement::Pin { external_id, .. } => Some(external_id),
        ScriptStatement::Deferred { external_id } => external_id,
    }
}

pub open spec fn statement_ids(ss: Seq<ScriptStatement>) -> Seq<Option<String>> {
    ss.map_values(|s: ScriptStatement| statement_id(s))
}

/// A build-plan operation. The statement it comes from (see
/// [`CompiledPlan::plan_statements`]) supplies the optional fields it carries.
#[derive(Debug, Clone)]
pub enum PlanOperation {
    CreateElement {
        external_id: String,
        kind: String,
        name: String,
        owner: BuildReference<ElementId>,
        type_ref: Option<BuildReference<ElementId>>,
    },
    UpdateElementFields {
        external_id: String,
        name: Option<String>,
        owner: Option<BuildReference<ElementId>>,
        type_ref: Option<BuildReference<ElementId>>,
    },
    CreateRelationship {
        external_id: String,
        kind: String,
        source: BuildReference<ElementId>,
        target: BuildReference<ElementId>,
        owner: Option<BuildReference<ElementId>>,
    },
    UpdateRelationshipFields {
        external_id: String,
        name: Option<String>,
        owner: Option<BuildReference<ElementId>>,
        source: Option<BuildReference<ElementId>>,
        target: Option<BuildReference<ElementId>>,
    },
    CreateConnector {
        external_id: String,
        context: BuildReference<ElementId>,
        kind: String,
        source_path: Vec<String>,
        target_path: Vec<String>,
        name: String,
    },
    UpdateConnectorFields {
        external_id: String,
        context: BuildReference<ElementId>,
        kind: String,
        source_path: Vec<String>,
        target_path: Vec<String>,
        name: String,
    },
    /// `connector` is the External ID of the connector the flow is on.
    CreateItemFlow {
        external_id: String,
        connector: String,
        source_path: Vec<String>,
        target_path: Vec<String>,
        conveyed_items: Vec<BuildReference<ElementId>>,
        name: String,
    },
    UpdateItemFlowFields {
        external_id: String,
        connector: String,
        source_path: Vec<String>,
        target_path: Vec<String>,
        conveyed_items: Vec<BuildReference<ElementId>>,
        name: String,
    },
    CreateActivity {
        external_id: String,
        name: String,
        owner: BuildReference<ElementId>,
        context: Option<BuildReference<ElementId>>,
    },
    /// `name` is given only when it changes.
    UpdateActivity {
        external_id: String,
        name: Option<String>,
        owner: BuildReference<ElementId>,
        context: Option<BuildReference<ElementId>>,
    },
    CreateBehavior { family: BehaviorFamily, external_id: String, name: String, context: BuildReference<ElementId> },
    UpdateBehavior { family: BehaviorFamily, external_id: String, name: String, context: BuildReference<ElementId> },
    CreateRegion { external_id: String, parent: RegionParent, name: String },
    UpdateRegion { external_id: String, name: String },
    /// `interaction` is the interaction's External ID.
    CreateLifeline {
        external_id: String,
        interaction: String,
        name: String,
        represented_path: Vec<BuildReference<ElementId>>,
    },
    UpdateLifeline { external_id: String, name: String, represented_path: Vec<BuildReference<ElementId>> },
    /// An occurrence (`constraint` is `None`) or state invariant;
    /// `interaction` and `lifeline` are External IDs.
    CreateOnLifeline {
        external_id: String,
        interaction: String,
        lifeline: String,
        order: u32,
        constraint: Option<String>,
    },
    UpdateOnLifeline { external_id: String, lifeline: String, order: u32, constraint: Option<String> },
    /// The references but `behavior` are External IDs.
    CreateExecution {
        external_id: String,
        interaction: String,
        lifeline: String,
        start: String,
        finish: String,
        behavior: Option<BuildReference<ElementId>>,
    },
    UpdateExecution {
        external_id: String,
        lifeline: String,
        start: String,
        finish: String,
        behavior: Option<BuildReference<ElementId>>,
    },
    /// `interaction` and the covered lifelines are External IDs.
    CreateFragment { external_id: String, interaction: String, operator: String, covered_lifelines: Vec<String> },
    UpdateFragment { external_id: String, operator: String, covered_lifelines: Vec<String> },
    /// `fragment` is an External ID.
    CreateOperand { external_id: String, fragment: String, guard: Option<String>, start_order: u32, end_order: u32 },
    UpdateOperand { external_id: String, guard: Option<String>, start_order: u32, end_order: u32 },
    /// `activity` is an External ID.
    CreatePartition {
        external_id: String,
        activity: String,
        name: String,
        represented_element: Option<BuildReference<ElementId>>,
        is_dimension: bool,
        is_external: bool,
    },
    UpdatePartition {
        external_id: String,
        name: String,
        represented_element: Option<BuildReference<ElementId>>,
        is_dimension: bool,
        is_external: bool,
    },
    /// `activity` and `parent` are External IDs.
    CreateStructuredNode { external_id: String, activity: String, name: String, kind: String, parent: Option<String> },
    UpdateStructuredNode { external_id: String, name: String, kind: String, parent: Option<String> },
    /// `activity` and `interrupting_region` are External IDs.
    CreateEdge {
        external_id: String,
        activity: String,
        name: String,
        kind: String,
        source: EdgeEnd,
        target: EdgeEnd,
        texts: EdgeTexts,
        interrupting_region: Option<String>,
    },
    UpdateEdge {
        external_id: String,
        name: String,
        kind: String,
        source: EdgeEnd,
        target: EdgeEnd,
        texts: EdgeTexts,
        interrupting_region: Option<String>,
    },
    /// `region`, `source` and `target` are External IDs.
    CreateTransition {
        external_id: String,
        region: String,
        source: String,
        target: String,
        kind: String,
        trigger: Option<TriggerBuild>,
        guard: Option<String>,
        effect: Option<String>,
    },
    UpdateTransition {
        external_id: String,
        source: String,
        target: String,
        kind: String,
        trigger: Option<TriggerBuild>,
        guard: Option<String>,
        effect: Option<String>,
    },
    CreateBinding {
        external_id: String,
        name: String,
        owner: BuildReference<ElementId>,
        source: BindingEndpointBuild,
        target: BindingEndpointBuild,
    },
    UpdateBinding {
        external_id: String,
        name: String,
        owner: BuildReference<ElementId>,
        source: BindingEndpointBuild,
        target: BindingEndpointBuild,
    },
    /// `activity`, `partition` and `structured_node` are External IDs.
    CreateNode {
        external_id: String,
        activity: String,
        name: String,
        kind: NodeKindBuild,
        partition: Option<String>,
        structured_node: Option<String>,
    },
    UpdateNode { external_id: String, name: String, kind: NodeKindBuild, partition: Option<String>, structured_node: Option<String> },
    /// `owner_action` is an External ID; `fields` are the direction,
    /// multiplicity, flags and value as the statement gives them.
    CreatePin {
        external_id: String,
        owner_action: String,
        name: String,
        fields: PinFields,
        type_ref: Option<BuildReference<ElementId>>,
        parameter: Option<BuildReference<ElementId>>,
    },
    UpdatePin {
        external_id: String,
        name: String,
        fields: PinFields,
        type_ref: Option<BuildReference<ElementId>>,
        parameter: Option<BuildReference<ElementId>>,
    },
    /// `region` is an External ID.
    CreateVertex { external_id: String, region: String, name: String, kind: VertexKindBuild },
    UpdateVertex { external_id: String, name: String, kind: VertexKindBuild },
    /// `interaction`, `send` and `receive` are External IDs.
    CreateMessage {
        external_id: String,
        interaction: String,
        name: String,
        sort: String,
        send: Option<String>,
        receive: Option<String>,
        signature: Option<MessageSignatureBuild>,
        arguments: Vec<String>,
    },
    UpdateMessage {
        external_id: String,
        name: String,
        sort: String,
        send: Option<String>,
        receive: Option<String>,
        signature: Option<MessageSignatureBuild>,
        arguments: Vec<String>,
    },
}

/// The content of a build-plan operation.
pub enum OpView {
    CreateElement {
        external_id: Seq<char>,
        kind: Seq<char>,
        name: Seq<char>,
        owner: RefView,
        type_ref: Option<RefView>,
    },
    UpdateElementFields {
        external_id: Seq<char>,
        name: Option<Seq<char>>,
        owner: Option<RefView>,
        type_ref: Option<RefView>,
    },
    CreateRelationship {
        external_id: Seq<char>,
        kind: Seq<char>,
        source: RefView,
        target: RefView,
        owner: Option<RefView>,
    },
    UpdateRelationshipFields {
        external_id: Seq<char>,
        name: Option<Seq<char>>,
        owner: Option<RefView>,
        source: Option<RefView>,
        target: Option<RefView>,
    },
    /// A connector, created (`update` false) or updated.
    Connector {
        update: bool,
        external_id: Seq<char>,
        context: RefView,
        kind: Seq<char>,
        source_path: Seq<Seq<char>>,
        target_path: Seq<Seq<char>>,
        name: Seq<char>,
    },
    /// An item flow, created (`update` false) or updated.
    ItemFlow {
        update: bool,
        external_id: Seq<char>,
        connector: Seq<char>,
        source_path: Seq<Seq<char>>,
        target_path: Seq<Seq<char>>,
        conveyed_items: Seq<RefView>,
        name: Seq<char>,
    },
    /// An activity, created or updated (an update renames it only when
    /// `name` is given).
    Activity {
        update: bool,
        external_id: Seq<char>,
        name: Option<Seq<char>>,
        owner: RefView,
        context: Option<RefView>,
    },
    /// A state machine or interaction, created or updated.
    Behavior {
        family: BehaviorFamily,
        update: bool,
        external_id: Seq<char>,
        name: Seq<char>,
        context: RefView,
    },
    /// A region, created in `parent` or updated (`parent` is `None`).
    Region { update: bool, external_id: Seq<char>, parent: Option<RegionParentView>, name: Seq<char> },
    /// A lifeline, created in `interaction` or updated (`interaction` is `None`).
    Lifeline {
        update: bool,
        external_id: Seq<char>,
        interaction: Option<Seq<char>>,
        name: Seq<char>,
        represented_path: Seq<RefView>,
    },
    /// An occurrence or state invariant, created in `interaction` or updated
    /// (`interaction` is `None`).
    OnLifeline {
        update: bool,
        external_id: Seq<char>,
        interaction: Option<Seq<char>>,
        lifeline: Seq<char>,
        order: u32,
        constraint: Option<Seq<char>>,
    },
    /// An execution, created in `interaction` or updated (`interaction` is `None`).
    Execution {
        update: bool,
        external_id: Seq<char>,
        interaction: Option<Seq<char>>,
        lifeline: Seq<char>,
        start: Seq<char>,
        finish: Seq<char>,
        behavior: Option<RefView>,
    },
    /// A combined fragment, created in `interaction` or updated.
    Fragment {
        update: bool,
        external_id: Seq<char>,
        interaction: Option<Seq<char>>,
        operator: Seq<char>,
        covered_lifelines: Seq<Seq<char>>,
    },
    /// An operand, created in `fragment` or updated.
    Operand {
        update: bool,
        external_id: Seq<char>,
        fragment: Option<Seq<char>>,
        guard: Option<Seq<char>>,
        start_order: u32,
        end_order: u32,
    },
    /// An activity partition, created in `activity` or updated.
    Partition {
        update: bool,
        external_id: Seq<char>,
        activity: Option<Seq<char>>,
        name: Seq<char>,
        represented_element: Option<RefView>,
        is_dimension: bool,
        is_external: bool,
    },
    /// A structured activity node, created in `activity` or updated.
    StructuredNode {
        update: bool,
        external_id: Seq<char>,
        activity: Option<Seq<char>>,
        name: Seq<char>,
        kind: Seq<char>,
        parent: Option<Seq<char>>,
    },
    /// An activity edge, created in `activity` or updated; each end is
    /// whether it is a pin, and its External ID.
    Edge {
        update: bool,
        external_id: Seq<char>,
        activity: Option<Seq<char>>,
        name: Seq<char>,
        kind: Seq<char>,
        source: (bool, Seq<char>),
        target: (bool, Seq<char>),
        texts: Seq<Option<Seq<char>>>,
        interrupting_region: Option<Seq<char>>,
    },
    /// A transition, created in `region` or updated.
    Transition {
        update: bool,
        external_id: Seq<char>,
        region: Option<Seq<char>>,
        source: Seq<char>,
        target: Seq<char>,
        kind: Seq<char>,
        trigger: Option<TriggerView>,
        guard: Option<Seq<char>>,
        effect: Option<Seq<char>>,
    },
    /// A binding connector, created or updated.
    Binding {
        update: bool,
        external_id: Seq<char>,
        name: Seq<char>,
        owner: RefView,
        source: (RefView, Option<RefView>),
        target: (RefView, Option<RefView>),
    },
    /// An activity node, created in `activity` or updated.
    Node {
        update: bool,
        external_id: Seq<char>,
        activity: Option<Seq<char>>,
        name: Seq<char>,
        kind: NodeKindView,
        partition: Option<Seq<char>>,
        structured_node: Option<Seq<char>>,
    },
    /// A pin, created on `owner_action` or updated.
    Pin {
        update: bool,
        external_id: Seq<char>,
        owner_action: Option<Seq<char>>,
        name: Seq<char>,
        fields: PinFieldsView,
        type_ref: Option<RefView>,
        parameter: Option<RefView>,
    },
    /// A vertex, created in `region` or updated.
    Vertex { update: bool, external_id: Seq<char>, region: Option<Seq<char>>, name: Seq<char>, kind: VertexKindView },
    /// A message, created in `interaction` or updated.
    Message {
        update: bool,
        external_id: Seq<char>,
        interaction: Option<Seq<char>>,
        name: Seq<char>,
        sort: Seq<char>,
        send: Option<Seq<char>>,
        receive: Option<Seq<char>>,
        signature: Option<SignatureView>,
        arguments: Seq<Seq<char>>,
    },
}

pub open spec fn refs_view(v: Seq<BuildReference<ElementId>>) -> Seq<RefView> {
    v.map_values(|r: BuildReference<ElementId>| ref_view(r))
}

pub open spec fn op_view(o: PlanOperation) -> OpView {
    match o {
        PlanOperation::CreateElement { external_id, kind, name, owner, type_ref } => OpView::CreateElement {
            external_id: external_id@,
            kind: kind@,
            name: name@,
            owner: ref_view(owner),
            type_ref: opt_ref_view(type_ref),
        },
        PlanOperation::UpdateElementFields { external_id, name, owner, type_ref } =>
            OpView::UpdateElementFields {
            external_id: external_id@,
            name: opt_str(name),
            owner: opt_ref_view(owner),
            type_ref: opt_ref_view(type_ref),
        },
        PlanOperation::CreateRelationship { external_id, kind, source, target, owner } =>
            OpView::CreateRelationship {
            external_id: external_id@,
            kind: kind@,
            source: ref_view(source),
            target: ref_view(target),
            owner: opt_ref_view(owner),
        },
        PlanOperation::UpdateRelationshipFields { external_id, name, owner, source, target } =>
            OpView::UpdateRelationshipFields {
            external_id: external_id@,
            name: opt_str(name),
            owner: opt_ref_view(owner),
            source: opt_ref_view(source),
            target: opt_ref_view(target),
        },
        PlanOperation::CreateConnector { external_id, context, kind, source_path, target_path, name } =>
            OpView::Connector {
            update: false,
            external_id: external_id@,
            context: ref_view(context),
            kind: kind@,
            source_path: strs(source_path@),
            target_path: strs(target_path@),
            name: name@,
        },
        PlanOperation::UpdateConnectorFields { external_id, context, kind, source_path, target_path, name } =>
            OpView::Connector {
            update: true,
            external_id: external_id@,
            context: ref_view(context),
            kind: kind@,
            source_path: strs(source_path@),
            target_path: strs(target_path@),
            name: name@,
        },
        PlanOperation::CreateItemFlow { external_id, connector, source_path, target_path, conveyed_items, name } =>
            OpView::ItemFlow {
            update: false,
            external_id: external_id@,
            connector: connector@,
            source_path: strs(source_path@),
            target_path: strs(target_path@),
            conveyed_items: refs_view(conveyed_items@),
            name: name@,
        },
        PlanOperation::UpdateItemFlowFields { external_id, connector, source_path, target_path, conveyed_items, name } =>
            OpView::ItemFlow {
            update: true,
            external_id: external_id@,
            connector: connector@,
            source_path: strs(source_path@),
            target_path: strs(target_path@),
            conveyed_items: refs_view(conveyed_items@),
            name: name@,
        },
        PlanOperation::CreateActivity { external_id, name, owner, context } => OpView::Activity {
            update: false,
            external_id: external_id@,
            name: Some(name@),
            owner: ref_view(owner),
            context: opt_ref_view(context),
        },
        PlanOperation::UpdateActivity { external_id, name, owner, context } => OpView::Activity {
            update: true,
            external_id: external_id@,
            name: opt_str(name),
            owner: ref_view(owner),
            context: opt_ref_view(context),
        },
        PlanOperation::CreateBehavior { family, external_id, name, context } => OpView::Behavior {
            family,
            update: false,
            external_id: external_id@,
            name: name@,
            context: ref_view(context),
        },
        PlanOperation::UpdateBehavior { family, external_id, name, context } => OpView::Behavior {
            family,
            update: true,
            external_id: external_id@,
            name: name@,
            context: ref_view(context),
        },
        PlanOperation::CreateRegion { external_id, parent, name } => OpView::Region {
            update: false,
            external_id: external_id@,
            parent: Some(parent_view(parent)),
            name: name@,
        },
        PlanOperation::UpdateRegion { external_id, name } => OpView::Region {
            update: true,
            external_id: external_id@,
            parent: None,
            name: name@,
        },
        PlanOperation::CreateLifeline { external_id, interaction, name, represented_path } => OpView::Lifeline {
            update: false,
            external_id: external_id@,
            interaction: Some(interaction@),
            name: name@,
            represented_path: refs_view(represented_path@),
        },
        PlanOperation::UpdateLifeline { external_id, name, represented_path } => OpView::Lifeline {
            update: true,
            external_id: external_id@,
            interaction: None,
            name: name@,
            represented_path: refs_view(represented_path@),
        },
        PlanOperation::CreateOnLifeline { external_id, interaction, lifeline, order, constraint } =>
            OpView::OnLifeline {
            update: false,
            external_id: external_id@,
            interaction: Some(interaction@),
            lifeline: lifeline@,
            order,
            constraint: opt_str(constraint),
        },
        PlanOperation::UpdateOnLifeline { external_id, lifeline, order, constraint } => OpView::OnLifeline {
            update: true,
            external_id: external_id@,
            interaction: None,
            lifeline: lifeline@,
            order,
            constraint: opt_str(constraint),
        },
        PlanOperation::CreateExecution { external_id, interaction, lifeline, start, finish, behavior } =>
            OpView::Execution {
            update: false,
            external_id: external_id@,
            interaction: Some(interaction@),
            lifeline: lifeline@,
            start: start@,
            finish: finish@,
            behavior: opt_ref_view(behavior),
        },
        PlanOperation::UpdateExecution { external_id, lifeline, start, finish, behavior } => OpView::Execution {
            update: true,
            external_id: external_id@,
            interaction: None,
            lifeline: lifeline@,
            start: start@,
            finish: finish@,
            behavior: opt_ref_view(behavior),
        },
        PlanOperation::CreateFragment { external_id, interaction, operator, covered_lifelines } => OpView::Fragment {
            update: false,
            external_id: external_id@,
            interaction: Some(interaction@),
            operator: operator@,
            covered_lifelines: strs(covered_lifelines@),
        },
        PlanOperation::UpdateFragment { external_id, operator, covered_lifelines } => OpView::Fragment {
            update: true,
            external_id: external_id@,
            interaction: None,
            operator: operator@,
            covered_lifelines: strs(covered_lifelines@),
        },
        PlanOperation::CreateOperand { external_id, fragment, guard, start_order, end_order } => OpView::Operand {
            update: false,
            external_id: external_id@,
            fragment: Some(fragment@),
            guard: opt_str(guard),
            start_order,
            end_order,
        },
        PlanOperation::UpdateOperand { external_id, guard, start_order, end_order } => OpView::Operand {
            update: true,
            external_id: external_id@,
            fragment: None,
            guard: opt_str(guard),
            start_order,
            end_order,
        },
        PlanOperation::CreatePartition { external_id, activity, name, represented_element, is_dimension, is_external } =>
            OpView::Partition {
            update: false,
            external_id: external_id@,
            activity: Some(activity@),
            name: name@,
            represented_element: opt_ref_view(represented_element),
            is_dimension,
            is_external,
        },
        PlanOperation::UpdatePartition { external_id, name, represented_element, is_dimension, is_external } =>
            OpView::Partition {
            update: true,
            external_id: external_id@,
            activity: None,
            name: name@,
            represented_element: opt_ref_view(represented_element),
            is_dimension,
            is_external,
        },
        PlanOperation::CreateStructuredNode { external_id, activity, name, kind, parent } => OpView::StructuredNode {
            update: false,
            external_id: external_id@,
            activity: Some(activity@),
            name: name@,
            kind: kind@,
            parent: opt_str(parent),
        },
        PlanOperation::UpdateStructuredNode { external_id, name, kind, parent } => OpView::StructuredNode {
            update: true,
            external_id: external_id@,
            activity: None,
            name: name@,
            kind: kind@,
            parent: opt_str(parent),
        },
        PlanOperation::CreateEdge { external_id, activity, name, kind, source, target, texts, interrupting_region } =>
            OpView::Edge {
            update: false,
            external_id: external_id@,
            activity: Some(activity@),
            name: name@,
            kind: kind@,
            source: edge_end_view(source),
            target: edge_end_view(target),
            texts: texts_view(texts),
            interrupting_region: opt_str(interrupting_region),
        },
        PlanOperation::UpdateEdge { external_id, name, kind, source, target, texts, interrupting_region } =>
            OpView::Edge {
            update: true,
            external_id: external_id@,
            activity: None,
            name: name@,
            kind: kind@,
            source: edge_end_view(source),
            target: edge_end_view(target),
            texts: texts_view(texts),
            interrupting_region: opt_str(interrupting_region),
        },
        PlanOperation::CreateTransition { external_id, region, source, target, kind, trigger, guard, effect } =>
            OpView::Transition {
            update: false,
            external_id: external_id@,
            region: Some(region@),
            source: source@,
            target: target@,
            kind: kind@,
            trigger: opt_trigger_view(trigger),
            guard: opt_str(guard),
            effect: opt_str(effect),
        },
        PlanOperation::UpdateTransition { external_id, source, target, kind, trigger, guard, effect } =>
            OpView::Transition {
            update: true,
            external_id: external_id@,
            region: None,
            source: source@,
            target: target@,
            kind: kind@,
            trigger: opt_trigger_view(trigger),
            guard: opt_str(guard),
            effect: opt_str(effect),
        },
        PlanOperation::CreateBinding { external_id, name, owner, source, target } => OpView::Binding {
            update: false,
            external_id: external_id@,
            name: name@,
            owner: ref_view(owner),
            source: binding_end_view(source),
            target: binding_end_view(target),
        },
        PlanOperation::UpdateBinding { external_id, name, owner, source, target } => OpView::Binding {
            update: true,
            external_id: external_id@,
            name: name@,
            owner: ref_view(owner),
            source: binding_end_view(source),
            target: binding_end_view(target),
        },
        PlanOperation::CreateNode { external_id, activity, name, kind, partition, structured_node } => OpView::Node {
            update: false,
            external_id: external_id@,
            activity: Some(activity@),
            name: name@,
            kind: node_kind_view(kind),
            partition: opt_str(partition),
            structured_node: opt_str(structured_node),
        },
        PlanOperation::UpdateNode { external_id, name, kind, partition, structured_node } => OpView::Node {
            update: true,
            external_id: external_id@,
            activity: None,
            name: name@,
            kind: node_kind_view(kind),
            partition: opt_str(partition),
            structured_node: opt_str(structured_node),
        },
        PlanOperation::CreatePin { external_id, owner_action, name, fields, type_ref, parameter } => OpView::Pin {
            update: false,
            external_id: external_id@,
            owner_action: Some(owner_action@),
            name: name@,
            fields: pin_fields_view(fields),
            type_ref: opt_ref_view(type_ref),
            parameter: opt_ref_view(parameter),
        },
        PlanOperation::UpdatePin { external_id, name, fields, type_ref, parameter } => OpView::Pin {
            update: true,
            external_id: external_id@,
            owner_action: None,
            name: name@,
            fields: pin_fields_view(fields),
            type_ref: opt_ref_view(type_ref),
            parameter: opt_ref_view(parameter),
        },
        PlanOperation::CreateVertex { external_id, region, name, kind } => OpView::Vertex {
            update: false,
            external_id: external_id@,
            region: Some(region@),
            name: name@,
            kind: vertex_kind_view(kind),
        },
        PlanOperation::UpdateVertex { external_id, name, kind } => OpView::Vertex {
            update: true,
            external_id: external_id@,
            region: None,
            name: name@,
            kind: vertex_kind_view(kind),
        },
        PlanOperation::CreateMessage { external_id, interaction, name, sort, send, receive, signature, arguments } =>
            OpView::Message {
            update: false,
            external_id: external_id@,
            interaction: Some(interaction@),
            name: name@,
            sort: sort@,
            send: opt_str(send),
            receive: opt_str(receive),
            signature: opt_signature_view(signature),
            arguments: strs(arguments@),
        },
        PlanOperation::UpdateMessage { external_id, name, sort, send, receive, signature, arguments } =>
            OpView::Message {
            update: true,
            external_id: external_id@,
            interaction: None,
            name: name@,
            sort: sort@,
            send: opt_str(send),
            receive: opt_str(receive),
            signature: opt_signature_view(signature),
            arguments: strs(arguments@),
        },
    }
}

/// A preview line.
pub open spec fn item_of(
    statement: usize,
    action: ModelScriptAction,
    operation: Seq<char>,
    external_id: Option<Seq<char>>,
    semantic_name: Option<Seq<char>>,
    detail: Seq<char>,
) -> ItemView {
    ItemView { statement, action, operation, external_id, semantic_name, detail }
}

/// The kind-collision reason.
pub open spec fn collision_reason(existing: Seq<char>, kind: Seq<char>) -> Seq<char> {
    "External ID identifies "@ + existing + ", not "@ + kind
}

/// What an element statement number `k` compiles to (its diagnostic still
/// without the script's name): a collision or ambiguity of its namespaced
/// External ID, no change when the one element has its name and no optional
/// field or type is given, an update otherwise, a creation (with a field
/// update when optional fields are given) when nothing has the ID; the owner
/// and then the type are resolved on the way.
pub open spec fn element_spec(
    k: usize,
    namespace: Seq<char>,
    facts: ProjectFacts,
    external_id: Seq<char>,
    kind: Seq<char>,
    name: Seq<char>,
    owner: Seq<char>,
    type_ref: Option<Seq<char>>,
    optional_fields: bool,
) -> Result<(Seq<OpView>, ItemView), DiagView> {
    let rs = facts.elements@;
    let ex = records_with(rs, external_key(namespace, external_id), rs.len() as int);
    let op = "Element::"@ + kind;
    let names = facts.qualified_names@;
    if ex.len() > 1 {
        Err(diag_of(Seq::empty(), Some(k), "element"@, Some(external_id), "AMBIGUOUS_REFERENCE"@,
            "multiple elements have the same namespaced External ID"@))
    } else if ex.len() == 1 {
        let e = rs[ex[0]];
        if e.kind@ != kind {
            Err(diag_of(Seq::empty(), Some(k), "element"@, Some(external_id), "WRONG_KIND_COLLISION"@,
                collision_reason(e.kind@, kind)))
        } else if e.name@ == name && !(optional_fields || type_ref is Some) {
            Ok((Seq::empty(), item_of(k, ModelScriptAction::NoChange, op, Some(external_id), Some(name),
                "stable identity already matches"@)))
        } else {
            match ref_spec(owner, facts.root, names, k) {
                Err(d) => Err(d),
                Ok(o) => match opt_ref_spec(type_ref, facts.root, names, k) {
                    Err(d) => Err(d),
                    Ok(t) => Ok((seq![OpView::UpdateElementFields {
                        external_id, name: Some(name), owner: Some(o), type_ref: t }],
                        item_of(k, ModelScriptAction::Update, op, Some(external_id), Some(name),
                        "update through ModelBuildPlan"@))),
                },
            }
        }
    } else {
        match ref_spec(owner, facts.root, names, k) {
            Err(d) => Err(d),
            Ok(o) => match opt_ref_spec(type_ref, facts.root, names, k) {
                Err(d) => Err(d),
                Ok(t) => Ok((seq![OpView::CreateElement { external_id, kind, name, owner: o, type_ref: t }]
                    + if optional_fields {
                    seq![OpView::UpdateElementFields { external_id, name: None, owner: None, type_ref: None }]
                } else {
                    Seq::empty()
                }, item_of(k, ModelScriptAction::Create, op, Some(external_id), Some(name),
                    "create through ModelBuildPlan"@))),
            },
        }
    }
}

/// Importing an element statement again changes nothing: when its
/// namespaced External ID names exactly one element, of the statement's kind
/// and name, and the statement gives no type and no optional field, it
/// compiles to no operation and a NO_CHANGE line, whatever its owner.
pub proof fn lemma_reimported_element_is_unchanged(
    k: usize,
    namespace: Seq<char>,
    facts: ProjectFacts,
    external_id: Seq<char>,
    kind: Seq<char>,
    name: Seq<char>,
    owner: Seq<char>,
)
    requires
        records_with(facts.elements@, external_key(namespace, external_id), facts.elements@.len() as int).len() == 1,
        facts.elements@[records_with(facts.elements@, external_key(namespace, external_id),
            facts.elements@.len() as int)[0]].kind@ == kind,
        facts.elements@[records_with(facts.elements@, external_key(namespace, external_id),
            facts.elements@.len() as int)[0]].name@ == name,
    ensures
        element_spec(k, namespace, facts, external_id, kind, name, owner, None, false) == Ok::<
            (Seq<OpView>, ItemView),
            DiagView,
        >((Seq::empty(), item_of(k, ModelScriptAction::NoChange, "Element::"@ + kind, Some(external_id), Some(name),
            "stable identity already matches"@))),
{
}

/// What a relationship statement number `k` compiles to: like an element
/// statement, except that it is left unchanged when no field at all (name
/// included) is given; an update resolves the owner, source and target, a
/// creation the source, target and owner.
pub open spec fn relationship_spec(
    k: usize,
    namespace: Seq<char>,
    facts: ProjectFacts,
    external_id: Seq<char>,
    kind: Seq<char>,
    source: Seq<char>,
    target: Seq<char>,
    owner: Option<Seq<char>>,
    name: Option<Seq<char>>,
    optional_fields: bool,
) -> Result<(Seq<OpView>, ItemView), DiagView> {
    let rs = facts.relationships@;
    let ex = records_with(rs, external_key(namespace, external_id), rs.len() as int);
    let op = "Relationship::"@ + kind;
    let names = facts.qualified_names@;
    let root = facts.root;
    let any_fields = name is Some || optional_fields;
    if ex.len() > 1 {
        Err(diag_of(Seq::empty(), Some(k), "relationship"@, Some(external_id), "AMBIGUOUS_REFERENCE"@,
            "multiple relationships have the same namespaced External ID"@))
    } else if ex.len() == 1 {
        let e = rs[ex[0]];
        if e.kind@ != kind {
            Err(diag_of(Seq::empty(), Some(k), "relationship"@, Some(external_id), "WRONG_KIND_COLLISION"@,
                collision_reason(e.kind@, kind)))
        } else if !any_fields {
            Ok((Seq::empty(), item_of(k, ModelScriptAction::NoChange, op, Some(external_id), None,
                "stable identity already exists"@)))
        } else {
            match opt_ref_spec(owner, root, names, k) {
                Err(d) => Err(d),
                Ok(o) => match ref_spec(source, root, names, k) {
                    Err(d) => Err(d),
                    Ok(s) => match ref_spec(target, root, names, k) {
                        Err(d) => Err(d),
                        Ok(t) => Ok((seq![OpView::UpdateRelationshipFields {
                            external_id, name, owner: o, source: Some(s), target: Some(t) }],
                            item_of(k, ModelScriptAction::Update, op, Some(external_id), None,
                            "update through ModelBuildPlan"@))),
                    },
                },
            }
        }
    } else {
        match ref_spec(source, root, names, k) {
            Err(d) => Err(d),
            Ok(s) => match ref_spec(target, root, names, k) {
                Err(d) => Err(d),
                Ok(t) => match opt_ref_spec(owner, root, names, k) {
                    Err(d) => Err(d),
                    Ok(o) => Ok((seq![OpView::CreateRelationship {
                        external_id, kind, source: s, target: t, owner: o }] + if any_fields {
                        seq![OpView::UpdateRelationshipFields {
                            external_id, name, owner: None, source: None, target: None }]
                    } else {
                        Seq::empty()
                    }, item_of(k, ModelScriptAction::Create, op, Some(external_id), None,
                        "create through ModelBuildPlan"@))),
                },
            },
        }
    }
}

/// The first `n` reference tokens resolved in order, or the diagnostic of
/// the first that does not resolve.
pub open spec fn refs_spec(
    tokens: Seq<Seq<char>>,
    root: ElementId,
    names: Seq<(ElementId, String)>,
    statement: usize,
    n: int,
) -> Result<Seq<RefView>, DiagView>
    decreases n,
{
    if n <= 0 {
        Ok(Seq::empty())
    } else {
        match refs_spec(tokens, root, names, statement, n - 1) {
            Err(d) => Err(d),
            Ok(rs) => match ref_spec(tokens[n - 1], root, names, statement) {
                Err(d) => Err(d),
                Ok(r) => Ok(rs.push(r)),
            },
        }
    }
}

/// Whether the first relationship with this namespaced External ID exists
/// and has another kind than `kind`.
pub open spec fn other_relationship_kind(facts: ProjectFacts, key: Seq<char>, kind: Seq<char>) -> bool {
    let rs = facts.relationships@;
    let ex = records_with(rs, key, rs.len() as int);
    ex.len() >= 1 && rs[ex[0]].kind@ != kind
}

pub open spec fn relationship_exists(facts: ProjectFacts, key: Seq<char>) -> bool {
    let rs = facts.relationships@;
    records_with(rs, key, rs.len() as int).len() >= 1
}

pub open spec fn create_or_update(update: bool) -> ModelScriptAction {
    if update { ModelScriptAction::Update } else { ModelScriptAction::Create }
}

pub open spec fn build_detail(update: bool) -> Seq<char> {
    if update { "update through ModelBuildPlan"@ } else { "create through ModelBuildPlan"@ }
}

/// What a connector statement number `k` compiles to: refused when its
/// External ID names a relationship of another kind; otherwise, once its
/// context resolves, an update of the connector that has the ID or the
/// creation of a new one.
pub open spec fn connector_spec(
    k: usize,
    namespace: Seq<char>,
    facts: ProjectFacts,
    external_id: Seq<char>,
    context: Seq<char>,
    kind: Seq<char>,
    source_path: Seq<Seq<char>>,
    target_path: Seq<Seq<char>>,
    name: Seq<char>,
) -> Result<(Seq<OpView>, ItemView), DiagView> {
    let key = external_key(namespace, external_id);
    let update = relationship_exists(facts, key);
    if other_relationship_kind(facts, key, "Connector"@) {
        Err(diag_of(Seq::empty(), Some(k), "connector"@, Some(external_id), "WRONG_KIND_COLLISION"@,
            "External ID does not identify a Connector"@))
    } else {
        match ref_spec(context, facts.root, facts.qualified_names@, k) {
            Err(d) => Err(d),
            Ok(c) => Ok((seq![OpView::Connector { update, external_id, context: c, kind, source_path,
                target_path, name }], item_of(k, create_or_update(update), "Connector"@, Some(external_id),
                Some(name), build_detail(update)))),
        }
    }
}

/// What an item-flow statement number `k` compiles to: its conveyed items
/// are resolved first; it is refused when its External ID names a
/// relationship of another kind, or when its connector is not named by an
/// External ID; otherwise it updates the item flow that has the ID or
/// creates a new one.
pub open spec fn item_flow_spec(
    k: usize,
    namespace: Seq<char>,
    facts: ProjectFacts,
    external_id: Seq<char>,
    connector: Seq<char>,
    source_path: Seq<Seq<char>>,
    target_path: Seq<Seq<char>>,
    conveyed: Seq<Seq<char>>,
    name: Seq<char>,
) -> Result<(Seq<OpView>, ItemView), DiagView> {
    let key = external_key(namespace, external_id);
    let update = relationship_exists(facts, key);
    match refs_spec(conveyed, facts.root, facts.qualified_names@, k, conveyed.len() as int) {
        Err(d) => Err(d),
        Ok(cs) => if other_relationship_kind(facts, key, "ItemFlow"@) {
            Err(diag_of(Seq::empty(), Some(k), "item_flow"@, Some(external_id), "WRONG_KIND_COLLISION"@,
                "External ID does not identify an ItemFlow"@))
        } else if !external_reference_ok(connector) {
            Err(diag_of(Seq::empty(), Some(k), "reference"@, None, "REFERENCE_KIND_INVALID"@,
                "specialized semantic references require an External ID or plan-local handle"@))
        } else {
            Ok((seq![OpView::ItemFlow { update, external_id, connector: trim(external_token_spec(connector)),
                source_path, target_path, conveyed_items: cs, name }], item_of(k, create_or_update(update),
                "ItemFlow"@, Some(external_id), Some(name), build_detail(update))))
        },
    }
}

/// What an activity statement number `k` compiles to: with an activity of
/// its namespaced External ID, an update of that activity (renamed only when
/// its name differs); otherwise a new activity. The owner, then the context,
/// are resolved.
pub open spec fn activity_spec(
    k: usize,
    namespace: Seq<char>,
    facts: ProjectFacts,
    external_id: Seq<char>,
    name: Seq<char>,
    owner: Seq<char>,
    context: Option<Seq<char>>,
) -> Result<(Seq<OpView>, ItemView), DiagView> {
    let rs = facts.activities@;
    let ex = records_with(rs, external_key(namespace, external_id), rs.len() as int);
    let update = ex.len() >= 1;
    match ref_spec(owner, facts.root, facts.qualified_names@, k) {
        Err(d) => Err(d),
        Ok(o) => match opt_ref_spec(context, facts.root, facts.qualified_names@, k) {
            Err(d) => Err(d),
            Ok(c) => Ok((seq![OpView::Activity {
                update,
                external_id,
                name: if update && rs[ex[0]].name@ == name { None } else { Some(name) },
                owner: o,
                context: c,
            }], item_of(k, create_or_update(update), "Activity"@, Some(external_id), Some(name),
                if update { "update through unified candidate"@ } else { "create through unified candidate"@ }))),
        },
    }
}

/// What a state-machine or interaction statement number `k` compiles to:
/// with one of its namespaced External ID, an update, which names it by
/// that External ID (refused when the ID is no plain External ID); otherwise
/// a new one. The context is resolved.
pub open spec fn behavior_spec(
    k: usize,
    namespace: Seq<char>,
    facts: ProjectFacts,
    family: BehaviorFamily,
    external_id: Seq<char>,
    name: Seq<char>,
    context: Seq<char>,
) -> Result<(Seq<OpView>, ItemView), DiagView> {
    let rs = family_records(facts, family);
    let update = records_with(rs, external_key(namespace, external_id), rs.len() as int).len() >= 1;
    if update && !external_reference_ok(external_id) {
        Err(diag_of(Seq::empty(), Some(k), "reference"@, None, "REFERENCE_KIND_INVALID"@,
            "specialized semantic references require an External ID or plan-local handle"@))
    } else {
        match ref_spec(context, facts.root, facts.qualified_names@, k) {
            Err(d) => Err(d),
            Ok(c) => Ok((seq![OpView::Behavior {
                family,
                update,
                external_id: if update { trim(external_token_spec(external_id)) } else { external_id },
                name,
                context: c,
            }], item_of(k, create_or_update(update), family_name(family), Some(external_id), Some(name),
                "unified Behavior repository"@))),
        }
    }
}

/// The diagnostic of a reference that is no plain External ID.
pub open spec fn reference_kind_invalid(k: usize) -> DiagView {
    diag_of(Seq::empty(), Some(k), "reference"@, None, "REFERENCE_KIND_INVALID"@,
        "specialized semantic references require an External ID or plan-local handle"@)
}

/// The External ID a plain reference token names.
pub open spec fn referenced_id(token: Seq<char>) -> Seq<char> {
    trim(external_token_spec(token))
}

/// The behavior-repository record of a namespaced External ID, if any.
pub open spec fn behavior_record(facts: ProjectFacts, key: Seq<char>) -> Option<ExternalRecord> {
    let rs = facts.behavior_ids@;
    let ex = records_with(rs, key, rs.len() as int);
    if ex.len() >= 1 { Some(rs[ex[0]]) } else { None }
}

/// What a region statement number `k` compiles to: refused unless exactly
/// one parent is given, or when that parent is no plain External ID; with a
/// behavior element of its namespaced External ID, refused unless that is a
/// region, else an update that names the region by its External ID;
/// otherwise a new region in the parent.
pub open spec fn region_spec(
    k: usize,
    namespace: Seq<char>,
    facts: ProjectFacts,
    external_id: Seq<char>,
    name: Seq<char>,
    state_machine: Option<Seq<char>>,
    state: Option<Seq<char>>,
) -> Result<(Seq<OpView>, ItemView), DiagView> {
    let existing = behavior_record(facts, external_key(namespace, external_id));
    let token = match state_machine {
        Some(t) => t,
        None => state.unwrap(),
    };
    let line = |update: bool| item_of(k, create_or_update(update), "Region"@, Some(external_id), Some(name),
        "unified Behavior repository"@);
    if (state_machine is Some) == (state is Some) {
        Err(diag_of(Seq::empty(), Some(k), "region"@, Some(external_id), "REGION_PARENT_INVALID"@,
            "provide exactly one of state_machine or state"@))
    } else if !external_reference_ok(token) {
        Err(reference_kind_invalid(k))
    } else {
        match existing {
            Some(e) => if e.kind@ != "Region"@ {
                Err(diag_of(Seq::empty(), Some(k), "region"@, Some(external_id), "WRONG_KIND_COLLISION"@,
                    "External ID has another Behavior semantic kind"@))
            } else if !external_reference_ok(external_id) {
                Err(reference_kind_invalid(k))
            } else {
                Ok((seq![OpView::Region { update: true, external_id: referenced_id(external_id), parent: None, name }],
                    line(true)))
            },
            None => Ok((seq![OpView::Region { update: false, external_id, parent: Some(RegionParentView {
                state: state is Some, external_id: referenced_id(token) }), name }], line(false))),
        }
    }
}

/// What a lifeline statement number `k` compiles to: its represented path is
/// resolved first; with a behavior element of its namespaced External ID,
/// refused unless that is a lifeline, else an update that names the lifeline
/// by its External ID; otherwise a new lifeline in the interaction, which
/// only a plain External ID can name.
pub open spec fn lifeline_spec(
    k: usize,
    namespace: Seq<char>,
    facts: ProjectFacts,
    external_id: Seq<char>,
    interaction: Seq<char>,
    name: Seq<char>,
    path: Seq<Seq<char>>,
) -> Result<(Seq<OpView>, ItemView), DiagView> {
    let existing = behavior_record(facts, external_key(namespace, external_id));
    let line = |update: bool| item_of(k, create_or_update(update), "Lifeline"@, Some(external_id), Some(name),
        "unified Behavior repository"@);
    match refs_spec(path, facts.root, facts.qualified_names@, k, path.len() as int) {
        Err(d) => Err(d),
        Ok(ps) => match existing {
            Some(e) => if e.kind@ != "Lifeline"@ {
                Err(diag_of(Seq::empty(), Some(k), "lifeline"@, Some(external_id), "WRONG_KIND_COLLISION"@,
                    "External ID has another Behavior semantic kind"@))
            } else if !external_reference_ok(external_id) {
                Err(reference_kind_invalid(k))
            } else {
                Ok((seq![OpView::Lifeline { update: true, external_id: referenced_id(external_id), interaction: None,
                    name, represented_path: ps }], line(true)))
            },
            None => if !external_reference_ok(interaction) {
                Err(reference_kind_invalid(k))
            } else {
                Ok((seq![OpView::Lifeline { update: false, external_id, interaction: Some(referenced_id(interaction)),
                    name, represented_path: ps }], line(false)))
            },
        },
    }
}

/// The kind name, operation label and preview name of an occurrence
/// (`invariant` false) or a state invariant.
pub open spec fn on_lifeline_names(invariant: bool) -> (Seq<char>, Seq<char>, Seq<char>) {
    if invariant {
        ("Invariant"@, "state_invariant"@, "StateInvariant"@)
    } else {
        ("Occurrence"@, "occurrence"@, "Occurrence"@)
    }
}

/// What an occurrence or state-invariant statement number `k` compiles to:
/// with a behavior element of its namespaced External ID, refused unless it
/// has the statement's kind, else an update that names it, and its
/// lifeline, by External ID; otherwise a new one in the interaction on the
/// lifeline, both named by External ID.
pub open spec fn on_lifeline_spec(
    k: usize,
    namespace: Seq<char>,
    facts: ProjectFacts,
    external_id: Seq<char>,
    interaction: Seq<char>,
    lifeline: Seq<char>,
    order: u32,
    constraint: Option<Seq<char>>,
) -> Result<(Seq<OpView>, ItemView), DiagView> {
    let (kind, label, shown) = on_lifeline_names(constraint is Some);
    let line = |update: bool| item_of(k, create_or_update(update), shown, Some(external_id), None,
        "unified Behavior repository"@);
    match behavior_record(facts, external_key(namespace, external_id)) {
        Some(e) => if e.kind@ != kind {
            Err(diag_of(Seq::empty(), Some(k), label, Some(external_id), "WRONG_KIND_COLLISION"@,
                "External ID has another Behavior semantic kind"@))
        } else if !external_reference_ok(external_id) || !external_reference_ok(lifeline) {
            Err(reference_kind_invalid(k))
        } else {
            Ok((seq![OpView::OnLifeline { update: true, external_id: referenced_id(external_id), interaction: None,
                lifeline: referenced_id(lifeline), order, constraint }], line(true)))
        },
        None => if !external_reference_ok(interaction) || !external_reference_ok(lifeline) {
            Err(reference_kind_invalid(k))
        } else {
            Ok((seq![OpView::OnLifeline { update: false, external_id, interaction: Some(referenced_id(interaction)),
                lifeline: referenced_id(lifeline), order, constraint }], line(false)))
        },
    }
}

/// Whether every one of `tokens` is a plain External ID reference.
pub open spec fn all_external(tokens: Seq<Seq<char>>) -> bool {
    forall|i: int| 0 <= i < tokens.len() ==> external_reference_ok(#[trigger] tokens[i])
}

pub open spec fn referenced_ids(tokens: Seq<Seq<char>>) -> Seq<Seq<char>> {
    tokens.map_values(|t: Seq<char>| referenced_id(t))
}

/// The refusal of a statement whose External ID names a behavior element of
/// another kind.
pub open spec fn behavior_collision(k: usize, label: Seq<char>, external_id: Seq<char>) -> DiagView {
    diag_of(Seq::empty(), Some(k), label, Some(external_id), "WRONG_KIND_COLLISION"@,
        "External ID has another Behavior semantic kind"@)
}

pub open spec fn behavior_line(k: usize, update: bool, shown: Seq<char>, external_id: Seq<char>) -> ItemView {
    item_of(k, create_or_update(update), shown, Some(external_id), None, "unified Behavior repository"@)
}

/// What an execution statement number `k` compiles to: its behavior is
/// resolved first; with a behavior element of its namespaced External ID,
/// refused unless that is an execution, else an update naming it, its
/// lifeline and its start and finish by External ID; otherwise a new one in
/// the interaction.
pub open spec fn execution_spec(
    k: usize,
    namespace: Seq<char>,
    facts: ProjectFacts,
    external_id: Seq<char>,
    interaction: Seq<char>,
    lifeline: Seq<char>,
    start: Seq<char>,
    finish: Seq<char>,
    behavior: Option<Seq<char>>,
) -> Result<(Seq<OpView>, ItemView), DiagView> {
    match opt_ref_spec(behavior, facts.root, facts.qualified_names@, k) {
        Err(d) => Err(d),
        Ok(b) => match behavior_record(facts, external_key(namespace, external_id)) {
            Some(e) => if e.kind@ != "Execution"@ {
                Err(behavior_collision(k, "execution"@, external_id))
            } else if !all_external(seq![external_id, lifeline, start, finish]) {
                Err(reference_kind_invalid(k))
            } else {
                Ok((seq![OpView::Execution { update: true, external_id: referenced_id(external_id), interaction: None,
                    lifeline: referenced_id(lifeline), start: referenced_id(start), finish: referenced_id(finish),
                    behavior: b }], behavior_line(k, true, "ExecutionSpecification"@, external_id)))
            },
            None => if !all_external(seq![interaction, lifeline, start, finish]) {
                Err(reference_kind_invalid(k))
            } else {
                Ok((seq![OpView::Execution { update: false, external_id, interaction: Some(referenced_id(interaction)),
                    lifeline: referenced_id(lifeline), start: referenced_id(start), finish: referenced_id(finish),
                    behavior: b }], behavior_line(k, false, "ExecutionSpecification"@, external_id)))
            },
        },
    }
}

/// What a combined-fragment statement number `k` compiles to: its covered
/// lifelines must all be named by External ID; with a behavior element of
/// its namespaced External ID, refused unless that is a fragment, else an
/// update naming it by External ID; otherwise a new one in the interaction.
pub open spec fn fragment_spec(
    k: usize,
    namespace: Seq<char>,
    facts: ProjectFacts,
    external_id: Seq<char>,
    interaction: Seq<char>,
    operator: Seq<char>,
    covered: Seq<Seq<char>>,
) -> Result<(Seq<OpView>, ItemView), DiagView> {
    if !all_external(covered) {
        Err(reference_kind_invalid(k))
    } else {
        match behavior_record(facts, external_key(namespace, external_id)) {
            Some(e) => if e.kind@ != "Fragment"@ {
                Err(behavior_collision(k, "combined_fragment"@, external_id))
            } else if !external_reference_ok(external_id) {
                Err(reference_kind_invalid(k))
            } else {
                Ok((seq![OpView::Fragment { update: true, external_id: referenced_id(external_id), interaction: None,
                    operator, covered_lifelines: referenced_ids(covered) }],
                    behavior_line(k, true, "CombinedFragment"@, external_id)))
            },
            None => if !external_reference_ok(interaction) {
                Err(reference_kind_invalid(k))
            } else {
                Ok((seq![OpView::Fragment { update: false, external_id, interaction: Some(referenced_id(interaction)),
                    operator, covered_lifelines: referenced_ids(covered) }],
                    behavior_line(k, false, "CombinedFragment"@, external_id)))
            },
        }
    }
}

/// What an operand statement number `k` compiles to: with a behavior
/// element of its namespaced External ID, refused unless that is an
/// operand, else an update naming it by External ID; otherwise a new one in
/// the fragment.
pub open spec fn operand_spec(
    k: usize,
    namespace: Seq<char>,
    facts: ProjectFacts,
    external_id: Seq<char>,
    fragment: Seq<char>,
    guard: Option<Seq<char>>,
    start_order: u32,
    end_order: u32,
) -> Result<(Seq<OpView>, ItemView), DiagView> {
    match behavior_record(facts, external_key(namespace, external_id)) {
        Some(e) => if e.kind@ != "Operand"@ {
            Err(behavior_collision(k, "operand"@, external_id))
        } else if !external_reference_ok(external_id) {
            Err(reference_kind_invalid(k))
        } else {
            Ok((seq![OpView::Operand { update: true, external_id: referenced_id(external_id), fragment: None, guard,
                start_order, end_order }], behavior_line(k, true, "InteractionOperand"@, external_id)))
        },
        None => if !external_reference_ok(fragment) {
            Err(reference_kind_invalid(k))
        } else {
            Ok((seq![OpView::Operand { update: false, external_id, fragment: Some(referenced_id(fragment)), guard,
                start_order, end_order }], behavior_line(k, false, "InteractionOperand"@, external_id)))
        },
    }
}

/// The activity-repository record of a namespaced External ID, if any.
pub open spec fn activity_record(facts: ProjectFacts, key: Seq<char>) -> Option<ExternalRecord> {
    let rs = facts.activity_ids@;
    let ex = records_with(rs, key, rs.len() as int);
    if ex.len() >= 1 { Some(rs[ex[0]]) } else { None }
}

/// The refusal of a statement whose External ID names an activity element
/// of another kind.
pub open spec fn activity_collision(k: usize, label: Seq<char>, external_id: Seq<char>) -> DiagView {
    diag_of(Seq::empty(), Some(k), label, Some(external_id), "WRONG_KIND_COLLISION"@,
        "External ID has another Activity semantic kind"@)
}

pub open spec fn activity_line(k: usize, update: bool, shown: Seq<char>, external_id: Seq<char>, name: Seq<char>) -> ItemView {
    item_of(k, create_or_update(update), shown, Some(external_id), Some(name), "unified Activity repository"@)
}

/// An optional plain reference, by External ID.
pub open spec fn opt_external_ok(t: Option<Seq<char>>) -> bool {
    match t {
        Some(x) => external_reference_ok(x),
        None => true,
    }
}

pub open spec fn opt_referenced(t: Option<Seq<char>>) -> Option<Seq<char>> {
    match t {
        Some(x) => Some(referenced_id(x)),
        None => None,
    }
}

/// What an activity-partition statement number `k` compiles to: with an
/// activity element of its namespaced External ID, refused unless that is a
/// partition, else an update naming it by External ID; otherwise a new one
/// in the activity; the represented element is resolved last.
pub open spec fn partition_spec(
    k: usize,
    namespace: Seq<char>,
    facts: ProjectFacts,
    external_id: Seq<char>,
    activity: Seq<char>,
    name: Seq<char>,
    represented: Option<Seq<char>>,
    is_dimension: bool,
    is_external: bool,
) -> Result<(Seq<OpView>, ItemView), DiagView> {
    let existing = activity_record(facts, external_key(namespace, external_id));
    let update = existing is Some;
    if update && existing.unwrap().kind@ != "Partition"@ {
        Err(activity_collision(k, "activity_partition"@, external_id))
    } else if !external_reference_ok(if update { external_id } else { activity }) {
        Err(reference_kind_invalid(k))
    } else {
        match opt_ref_spec(represented, facts.root, facts.qualified_names@, k) {
            Err(d) => Err(d),
            Ok(r) => Ok((seq![OpView::Partition {
                update,
                external_id: if update { referenced_id(external_id) } else { external_id },
                activity: if update { None } else { Some(referenced_id(activity)) },
                name,
                represented_element: r,
                is_dimension,
                is_external,
            }], activity_line(k, update, "ActivityPartition"@, external_id, name))),
        }
    }
}

/// What a structured-activity-node statement number `k` compiles to: like a
/// partition, with its parent named by External ID.
pub open spec fn structured_node_spec(
    k: usize,
    namespace: Seq<char>,
    facts: ProjectFacts,
    external_id: Seq<char>,
    activity: Seq<char>,
    name: Seq<char>,
    kind: Seq<char>,
    parent: Option<Seq<char>>,
) -> Result<(Seq<OpView>, ItemView), DiagView> {
    let existing = activity_record(facts, external_key(namespace, external_id));
    let update = existing is Some;
    if update && existing.unwrap().kind@ != "StructuredNode"@ {
        Err(activity_collision(k, "structured_activity_node"@, external_id))
    } else if !external_reference_ok(if update { external_id } else { activity }) || !opt_external_ok(parent) {
        Err(reference_kind_invalid(k))
    } else {
        Ok((seq![OpView::StructuredNode {
            update,
            external_id: if update { referenced_id(external_id) } else { external_id },
            activity: if update { None } else { Some(referenced_id(activity)) },
            name,
            kind,
            parent: opt_referenced(parent),
        }], activity_line(k, update, "StructuredActivityNode"@, external_id, name)))
    }
}

/// What an activity-edge statement number `k` compiles to: like a
/// partition, with its ends and interruptible region named by External ID.
pub open spec fn edge_spec(
    k: usize,
    namespace: Seq<char>,
    facts: ProjectFacts,
    external_id: Seq<char>,
    activity: Seq<char>,
    name: Seq<char>,
    kind: Seq<char>,
    source: (bool, Seq<char>),
    target: (bool, Seq<char>),
    texts: Seq<Option<Seq<char>>>,
    interrupting_region: Option<Seq<char>>,
) -> Result<(Seq<OpView>, ItemView), DiagView> {
    let existing = activity_record(facts, external_key(namespace, external_id));
    let update = existing is Some;
    if update && existing.unwrap().kind@ != "Edge"@ {
        Err(activity_collision(k, "activity_edge"@, external_id))
    } else if !all_external(seq![if update { external_id } else { activity }, source.1, target.1])
        || !opt_external_ok(interrupting_region) {
        Err(reference_kind_invalid(k))
    } else {
        Ok((seq![OpView::Edge {
            update,
            external_id: if update { referenced_id(external_id) } else { external_id },
            activity: if update { None } else { Some(referenced_id(activity)) },
            name,
            kind,
            source: (source.0, referenced_id(source.1)),
            target: (target.0, referenced_id(target.1)),
            texts,
            interrupting_region: opt_referenced(interrupting_region),
        }], activity_line(k, update, "ActivityEdge"@, external_id, name)))
    }
}

/// What a transition statement number `k` compiles to: its event is
/// resolved first; with a behavior element of its namespaced External ID,
/// refused unless that is a transition, else an update naming it and its
/// vertices by External ID; otherwise a new one in the region.
pub open spec fn transition_spec(
    k: usize,
    namespace: Seq<char>,
    facts: ProjectFacts,
    external_id: Seq<char>,
    region: Seq<char>,
    source: Seq<char>,
    target: Seq<char>,
    kind: Seq<char>,
    trigger: Option<TriggerToken>,
    guard: Option<Seq<char>>,
    effect: Option<Seq<char>>,
) -> Result<(Seq<OpView>, ItemView), DiagView> {
    match opt_trigger_spec(trigger, facts.root, facts.qualified_names@, k) {
        Err(d) => Err(d),
        Ok(t) => {
            let existing = behavior_record(facts, external_key(namespace, external_id));
            let update = existing is Some;
            if update && existing.unwrap().kind@ != "Transition"@ {
                Err(behavior_collision(k, "transition"@, external_id))
            } else if !all_external(seq![if update { external_id } else { region }, source, target]) {
                Err(reference_kind_invalid(k))
            } else {
                Ok((seq![OpView::Transition {
                    update,
                    external_id: if update { referenced_id(external_id) } else { external_id },
                    region: if update { None } else { Some(referenced_id(region)) },
                    source: referenced_id(source),
                    target: referenced_id(target),
                    kind,
                    trigger: t,
                    guard,
                    effect,
                }], behavior_line(k, update, "Transition"@, external_id)))
            }
        },
    }
}

/// What a binding statement number `k` compiles to: its source end, then
/// its target end, are resolved; refused when its External ID names a
/// relationship other than a binding connector; otherwise, once its owner
/// resolves, an update of the binding connector that has the ID or a new one.
pub open spec fn binding_spec(
    k: usize,
    namespace: Seq<char>,
    facts: ProjectFacts,
    external_id: Seq<char>,
    name: Seq<char>,
    owner: Seq<char>,
    source: BindingEndToken,
    target: BindingEndToken,
) -> Result<(Seq<OpView>, ItemView), DiagView> {
    let root = facts.root;
    let names = facts.qualified_names@;
    let key = external_key(namespace, external_id);
    let update = relationship_exists(facts, key);
    match binding_end_spec(source, root, names, k) {
        Err(d) => Err(d),
        Ok(s) => match binding_end_spec(target, root, names, k) {
            Err(d) => Err(d),
            Ok(t) => if other_relationship_kind(facts, key, "BindingConnector"@) {
                Err(diag_of(Seq::empty(), Some(k), "binding"@, Some(external_id), "WRONG_KIND_COLLISION"@,
                    "External ID does not identify a BindingConnector"@))
            } else {
                match ref_spec(owner, root, names, k) {
                    Err(d) => Err(d),
                    Ok(o) => Ok((seq![OpView::Binding { update, external_id, name, owner: o, source: s, target: t }],
                        item_of(k, create_or_update(update), "BindingConnector"@, Some(external_id), Some(name),
                        "native parametric build operation"@))),
                }
            },
        },
    }
}

/// What an activity-node statement number `k` compiles to: its kind is
/// resolved first; with an activity element of its namespaced External ID,
/// refused unless that is a node, else an update naming it by External ID;
/// otherwise a new one in the activity; its partition and structured node
/// are named by External ID.
pub open spec fn node_spec(
    k: usize,
    namespace: Seq<char>,
    facts: ProjectFacts,
    external_id: Seq<char>,
    activity: Seq<char>,
    name: Seq<char>,
    node: NodeKindToken,
    partition: Option<Seq<char>>,
    structured_node: Option<Seq<char>>,
) -> Result<(Seq<OpView>, ItemView), DiagView> {
    match node_kind_spec(node, facts.root, facts.qualified_names@, k) {
        Err(d) => Err(d),
        Ok(v) => {
            let existing = activity_record(facts, external_key(namespace, external_id));
            let update = existing is Some;
            if update && existing.unwrap().kind@ != "Node"@ {
                Err(activity_collision(k, "activity_node"@, external_id))
            } else if !external_reference_ok(if update { external_id } else { activity }) || !opt_external_ok(partition)
                || !opt_external_ok(structured_node) {
                Err(reference_kind_invalid(k))
            } else {
                Ok((seq![OpView::Node {
                    update,
                    external_id: if update { referenced_id(external_id) } else { external_id },
                    activity: if update { None } else { Some(referenced_id(activity)) },
                    name,
                    kind: v,
                    partition: opt_referenced(partition),
                    structured_node: opt_referenced(structured_node),
                }], activity_line(k, update, "ActivityNode"@, external_id, name)))
            }
        },
    }
}

/// What a pin statement number `k` compiles to: its type, then its
/// parameter, are resolved first; with an activity element of its
/// namespaced External ID, refused unless that is a pin, else an update
/// naming it by External ID; otherwise a new one on the owning action.
pub open spec fn pin_spec(
    k: usize,
    namespace: Seq<char>,
    facts: ProjectFacts,
    external_id: Seq<char>,
    owner_action: Seq<char>,
    name: Seq<char>,
    fields: PinFieldsView,
    type_ref: Option<Seq<char>>,
    parameter: Option<Seq<char>>,
) -> Result<(Seq<OpView>, ItemView), DiagView> {
    let root = facts.root;
    let names = facts.qualified_names@;
    match opt_ref_spec(type_ref, root, names, k) {
        Err(d) => Err(d),
        Ok(t) => match opt_ref_spec(parameter, root, names, k) {
            Err(d) => Err(d),
            Ok(p) => {
                let existing = activity_record(facts, external_key(namespace, external_id));
                let update = existing is Some;
                if update && existing.unwrap().kind@ != "Pin"@ {
                    Err(activity_collision(k, "pin"@, external_id))
                } else if !external_reference_ok(if update { external_id } else { owner_action }) {
                    Err(reference_kind_invalid(k))
                } else {
                    Ok((seq![OpView::Pin {
                        update,
                        external_id: if update { referenced_id(external_id) } else { external_id },
                        owner_action: if update { None } else { Some(referenced_id(owner_action)) },
                        name,
                        fields,
                        type_ref: t,
                        parameter: p,
                    }], activity_line(k, update, "Pin"@, external_id, name)))
                }
            },
        },
    }
}

/// What a vertex statement number `k` compiles to: its kind is resolved
/// first; with a behavior element of its namespaced External ID, refused
/// unless that is a vertex, else an update naming it by External ID;
/// otherwise a new one in the region.
pub open spec fn vertex_spec(
    k: usize,
    namespace: Seq<char>,
    facts: ProjectFacts,
    external_id: Seq<char>,
    region: Seq<char>,
    name: Seq<char>,
    vertex: VertexKindToken,
) -> Result<(Seq<OpView>, ItemView), DiagView> {
    match vertex_kind_spec(vertex, k) {
        Err(d) => Err(d),
        Ok(v) => {
            let existing = behavior_record(facts, external_key(namespace, external_id));
            let update = existing is Some;
            if update && existing.unwrap().kind@ != "Vertex"@ {
                Err(behavior_collision(k, "vertex"@, external_id))
            } else if !external_reference_ok(if update { external_id } else { region }) {
                Err(reference_kind_invalid(k))
            } else {
                Ok((seq![OpView::Vertex {
                    update,
                    external_id: if update { referenced_id(external_id) } else { external_id },
                    region: if update { None } else { Some(referenced_id(region)) },
                    name,
                    kind: v,
                }], item_of(k, create_or_update(update), "Vertex"@, Some(external_id), Some(name),
                    "unified Behavior repository"@)))
            }
        },
    }
}

/// What a message statement number `k` compiles to: its signature, then
/// its send and receive occurrences (by External ID), are resolved first;
/// with a behavior element of its namespaced External ID, refused unless
/// that is a message, else an update naming it by External ID; otherwise a
/// new one in the interaction.
pub open spec fn message_spec(
    k: usize,
    namespace: Seq<char>,
    facts: ProjectFacts,
    external_id: Seq<char>,
    interaction: Seq<char>,
    name: Seq<char>,
    sort: Seq<char>,
    send: Option<Seq<char>>,
    receive: Option<Seq<char>>,
    signature: Option<SignatureToken>,
    arguments: Seq<Seq<char>>,
) -> Result<(Seq<OpView>, ItemView), DiagView> {
    match opt_signature_spec(signature, facts.root, facts.qualified_names@, k) {
        Err(d) => Err(d),
        Ok(sig) => if !opt_external_ok(send) || !opt_external_ok(receive) {
            Err(reference_kind_invalid(k))
        } else {
            let existing = behavior_record(facts, external_key(namespace, external_id));
            let update = existing is Some;
            if update && existing.unwrap().kind@ != "Message"@ {
                Err(behavior_collision(k, "message"@, external_id))
            } else if !external_reference_ok(if update { external_id } else { interaction }) {
                Err(reference_kind_invalid(k))
            } else {
                Ok((seq![OpView::Message {
                    update,
                    external_id: if update { referenced_id(external_id) } else { external_id },
                    interaction: if update { None } else { Some(referenced_id(interaction)) },
                    name,
                    sort,
                    send: opt_referenced(send),
                    receive: opt_referenced(receive),
                    signature: sig,
                    arguments,
                }], item_of(k, create_or_update(update), "Message"@, Some(external_id), Some(name),
                    "unified Behavior repository"@)))
            }
        },
    }
}

/// Whether a statement's operations go to the behavior and parametric
/// stores, which are built after every project operation.
pub open spec fn is_specialized(s: ScriptStatement) -> bool {
    s is Activity || s is Behavior || s is Region || s is Lifeline || s is OnLifeline || s is Execution
        || s is CombinedFragment || s is Operand || s is ActivityPartition || s is StructuredActivityNode
        || s is ActivityEdge || s is Transition || s is Binding || s is Vertex || s is Message || s is ActivityNode
        || s is Pin
}

/// What statement number `k` compiles to (`None` for a deferred statement).
pub open spec fn statement_spec(
    s: ScriptStatement,
    k: usize,
    namespace: Seq<char>,
    facts: ProjectFacts,
) -> Option<Result<(Seq<OpView>, ItemView), DiagView>> {
    match s {
        ScriptStatement::Element { external_id, kind, name, owner, type_ref, optional_fields } =>
            Some(element_spec(k, namespace, facts, external_id@, kind@, name@, owner@, opt_str(type_ref),
            optional_fields)),
        ScriptStatement::Relationship { external_id, kind, source, target, owner, name, optional_fields } =>
            Some(relationship_spec(k, namespace, facts, external_id@, kind@, source@, target@,
            opt_str(owner), opt_str(name), optional_fields)),
        ScriptStatement::Connector { external_id, context, kind, source_path, target_path, name } =>
            Some(connector_spec(k, namespace, facts, external_id@, context@, kind@, strs(source_path@),
            strs(target_path@), name@)),
        ScriptStatement::ItemFlow { external_id, connector, source_path, target_path, conveyed_items, name } =>
            Some(item_flow_spec(k, namespace, facts, external_id@, connector@, strs(source_path@),
            strs(target_path@), strs(conveyed_items@), name@)),
        ScriptStatement::Activity { external_id, name, owner, context } =>
            Some(activity_spec(k, namespace, facts, external_id@, name@, owner@, opt_str(context))),
        ScriptStatement::Behavior { family, external_id, name, context } =>
            Some(behavior_spec(k, namespace, facts, family, external_id@, name@, context@)),
        ScriptStatement::Region { external_id, name, state_machine, state } =>
            Some(region_spec(k, namespace, facts, external_id@, name@, opt_str(state_machine), opt_str(state))),
        ScriptStatement::Lifeline { external_id, interaction, name, represented_path } =>
            Some(lifeline_spec(k, namespace, facts, external_id@, interaction@, name@, strs(represented_path@))),
        ScriptStatement::OnLifeline { external_id, interaction, lifeline, order, constraint } =>
            Some(on_lifeline_spec(k, namespace, facts, external_id@, interaction@, lifeline@, order, opt_str(constraint))),
        ScriptStatement::Execution { external_id, interaction, lifeline, start, finish, behavior } =>
            Some(execution_spec(k, namespace, facts, external_id@, interaction@, lifeline@, start@, finish@,
            opt_str(behavior))),
        ScriptStatement::CombinedFragment { external_id, interaction, operator, covered_lifelines } =>
            Some(fragment_spec(k, namespace, facts, external_id@, interaction@, operator@, strs(covered_lifelines@))),
        ScriptStatement::Operand { external_id, fragment, guard, start_order, end_order } =>
            Some(operand_spec(k, namespace, facts, external_id@, fragment@, opt_str(guard), start_order, end_order)),
        ScriptStatement::ActivityPartition { external_id, activity, name, represented_element, is_dimension, is_external } =>
            Some(partition_spec(k, namespace, facts, external_id@, activity@, name@, opt_str(represented_element),
            is_dimension, is_external)),
        ScriptStatement::StructuredActivityNode { external_id, activity, name, kind, parent } =>
            Some(structured_node_spec(k, namespace, facts, external_id@, activity@, name@, kind@, opt_str(parent))),
        ScriptStatement::ActivityEdge {
            external_id, activity, name, kind, source, target, source_is_pin, target_is_pin, texts,
            interrupting_region,
        } => Some(edge_spec(k, namespace, facts, external_id@, activity@, name@, kind@, (source_is_pin, source@),
            (target_is_pin, target@), texts_view(texts), opt_str(interrupting_region))),
        ScriptStatement::Transition { external_id, region, source, target, kind, trigger, guard, effect } =>
            Some(transition_spec(k, namespace, facts, external_id@, region@, source@, target@, kind@, trigger,
            opt_str(guard), opt_str(effect))),
        ScriptStatement::Binding { external_id, name, owner, source, target } =>
            Some(binding_spec(k, namespace, facts, external_id@, name@, owner@, source, target)),
        ScriptStatement::Vertex { external_id, region, name, vertex } =>
            Some(vertex_spec(k, namespace, facts, external_id@, region@, name@, vertex)),
        ScriptStatement::Pin {
            external_id, owner_action, name, direction, type_ref, multiplicity, is_ordered, is_unique, value, parameter,
        } => Some(pin_spec(k, namespace, facts, external_id@, owner_action@, name@, PinFieldsView {
            direction: direction@,
            multiplicity: multiplicity@,
            is_ordered,
            is_unique,
            value: opt_str(value),
        }, opt_str(type_ref), opt_str(parameter))),
        ScriptStatement::ActivityNode { external_id, activity, name, node, partition, structured_node } =>
            Some(node_spec(k, namespace, facts, external_id@, activity@, name@, node, opt_str(partition),
            opt_str(structured_node))),
        ScriptStatement::Message { external_id, interaction, name, sort, send, receive, signature, arguments } =>
            Some(message_spec(k, namespace, facts, external_id@, interaction@, name@, sort@, opt_str(send),
            opt_str(receive), signature, strs(arguments@))),
        ScriptStatement::Deferred { .. } => None,
    }
}

/// The content of a compiled plan.
pub struct PlanView {
    pub operations: Seq<OpView>,
    pub plan_statements: Seq<usize>,
    pub specialized: Seq<OpView>,
    pub specialized_statements: Seq<usize>,
    pub items: Seq<ItemView>,
    pub deferred: Seq<usize>,
    pub diagnostics: Seq<DiagView>,
}

/// The diagnostic with the script's name filled in.
pub open spec fn in_script(d: DiagView, script: Seq<char>) -> DiagView {
    DiagView { script, ..d }
}

/// The outcome of the first `n` statements: each statement whose External ID
/// is blank or repeated gets its screening diagnostic; every other one is
/// deferred or compiled, contributing its operations (each tagged with its
/// statement number) and its preview line, or its diagnostic.
pub open spec fn compile_prefix(
    script: Seq<char>,
    namespace: Seq<char>,
    ss: Seq<ScriptStatement>,
    facts: ProjectFacts,
    n: int,
) -> PlanView
    decreases n,
{
    if n <= 0 {
        PlanView {
            operations: Seq::empty(),
            plan_statements: Seq::empty(),
            specialized: Seq::empty(),
            specialized_statements: Seq::empty(),
            items: Seq::empty(),
            deferred: Seq::empty(),
            diagnostics: Seq::empty(),
        }
    } else {
        let acc = compile_prefix(script, namespace, ss, facts, n - 1);
        let k = n as usize;
        match screening_code(statement_ids(ss), n - 1) {
            Some(code) => PlanView {
                diagnostics: acc.diagnostics.push(diag_of(script, Some(k), "compile"@,
                    opt_str(statement_ids(ss)[n - 1]), code, screening_reason(code))),
                ..acc
            },
            None => match statement_spec(ss[n - 1], k, namespace, facts) {
                None => PlanView { deferred: acc.deferred.push(k), ..acc },
                Some(Err(d)) => PlanView { diagnostics: acc.diagnostics.push(in_script(d, script)), ..acc },
                Some(Ok((ops, it))) => if is_specialized(ss[n - 1]) {
                    PlanView {
                        specialized: acc.specialized + ops,
                        specialized_statements: acc.specialized_statements + Seq::new(ops.len(), |i: int| k),
                        items: acc.items.push(it),
                        ..acc
                    }
                } else {
                    PlanView {
                        operations: acc.operations + ops,
                        plan_statements: acc.plan_statements + Seq::new(ops.len(), |i: int| k),
                        items: acc.items.push(it),
                        ..acc
                    }
                },
            },
        }
    }
}

/// What compiling a script's statements gives: a blank namespace is refused;
/// otherwise any diagnostic (in statement order) refuses the script, and
/// without one the plan holds every compiled statement's operations (project
/// operations first, then behavior ones, each in statement order) and
/// preview lines and the numbers of the deferred statements.
pub open spec fn compile_spec(
    script: Seq<char>,
    namespace: Seq<char>,
    ss: Seq<ScriptStatement>,
    facts: ProjectFacts,
) -> Result<PlanView, Seq<DiagView>> {
    let ns = trim(namespace);
    if ns.len() == 0 {
        Err(seq![diag_of(script, None, "compile"@, None, "SOURCE_NAMESPACE_REQUIRED"@,
            "source_namespace must not be blank"@)])
    } else {
        let acc = compile_prefix(script, ns, ss, facts, ss.len() as int);
        if acc.diagnostics.len() > 0 {
            Err(acc.diagnostics)
        } else {
            Ok(PlanView {
                operations: acc.operations + acc.specialized,
                plan_statements: acc.plan_statements + acc.specialized_statements,
                specialized: Seq::empty(),
                specialized_statements: Seq::empty(),
                ..acc
            })
        }
    }
}

/// A compiled script: the build-plan operations in order, the statement each
/// comes from, the preview line of each compiled statement, and the numbers
/// of the deferred statements.
#[derive(Debug, Clone)]
pub struct CompiledPlan {
    pub operations: Vec<PlanOperation>,
    pub plan_statements: Vec<usize>,
    pub items: Vec<ModelScriptPreviewItem>,
    pub deferred: Vec<usize>,
}

pub open spec fn plan_view(p: CompiledPlan) -> PlanView {
    PlanView {
        operations: p.operations@.map_values(|o: PlanOperation| op_view(o)),
        plan_statements: p.plan_statements@,
        specialized: Seq::empty(),
        specialized_statements: Seq::empty(),
        items: p.items@.map_values(|i: ModelScriptPreviewItem| item_view(i)),
        deferred: p.deferred@,
        diagnostics: Seq::empty(),
    }
}

pub open spec fn diags_view(ds: Seq<ModelScriptDiagnostic>) -> Seq<DiagView> {
    ds.map_values(|d: ModelScriptDiagnostic| diag_view(d))
}

pub open spec fn compiled_view(r: Result<(Vec<PlanOperation>, ModelScriptPreviewItem), ModelScriptDiagnostic>) -> Result<
    (Seq<OpView>, ItemView),
    DiagView,
> {
    match r {
        Ok((ops, it)) => Ok((ops@.map_values(|o: PlanOperation| op_view(o)), item_view(it))),
        Err(d) => Err(diag_view(d)),
    }
}

proof fn lemma_reference_view(
    token: Seq<char>,
    root: ElementId,
    names: Seq<(ElementId, String)>,
    k: usize,
    r: Result<BuildReference<ElementId>, ModelScriptDiagnostic>,
)
    requires
        element_reference_outcome(token, root, names, k, r),
    ensures
        ref_result_view(r) == ref_spec(token, root, names, k),
{
}

fn resolve(token: &str, facts: &ProjectFacts, k: usize) -> (r: Result<BuildReference<ElementId>, ModelScriptDiagnostic>)
    ensures
        ref_result_view(r) == ref_spec(token@, facts.root, facts.qualified_names@, k),
{
    let r = element_reference(token, facts.root, facts.qualified_names.as_slice(), k);
    proof {
        lemma_reference_view(token@, facts.root, facts.qualified_names@, k, r);
    }
    r
}

fn resolve_opt(token: &Option<String>, facts: &ProjectFacts, k: usize) -> (r: Result<
    Option<BuildReference<ElementId>>,
    ModelScriptDiagnostic,
>)
    ensures
        match r {
            Ok(x) => opt_ref_spec(opt_str(*token), facts.root, facts.qualified_names@, k) == Ok::<
                Option<RefView>,
                DiagView,
            >(opt_ref_view(x)),
            Err(d) => opt_ref_spec(opt_str(*token), facts.root, facts.qualified_names@, k) == Err::<
                Option<RefView>,
                DiagView,
            >(diag_view(d)),
        },
{
    match token {
        None => Ok(None),
        Some(t) => match resolve(t.as_str(), facts, k) {
            Ok(x) => Ok(Some(x)),
            Err(d) => Err(d),
        },
    }
}

/// The number of records with namespaced External ID `key`, and the position
/// of the first.
fn find_records(rs: &Vec<ExternalRecord>, key: &Vec<char>) -> (r: (usize, usize))
    ensures
        r.0 == records_with(rs@, key@, rs@.len() as int).len(),
        r.0 >= 1 ==> r.1 < rs@.len() && r.1 as int == records_with(rs@, key@, rs@.len() as int)[0],
{
    let mut count: usize = 0;
    let mut first: usize = 0;
    let mut i: usize = 0;
    while i < rs.len()
        invariant
            i <= rs@.len(),
            count == records_with(rs@, key@, i as int).len(),
            count <= i,
            count >= 1 ==> first < i && first as int == records_with(rs@, key@, i as int)[0],
        decreases rs.len() - i,
    {
        if chars_eq(chars_of(rs[i].external_id.as_str()).as_slice(), key.as_slice()) {
            if count == 0 {
                first = i;
            }
            count = count + 1;
        }
        i = i + 1;
    }
    (count, first)
}

fn concat(a: &str, b: &str) -> (r: String)
    ensures
        r@ == a@ + b@,
{
    let mut v = chars_of(a);
    push_text(&mut v, b);
    string_from_chars(v.as_slice())
}

fn collision(existing: &str, kind: &str) -> (r: String)
    ensures
        r@ == collision_reason(existing@, kind@),
{
    let mut v: Vec<char> = Vec::new();
    push_text(&mut v, "External ID identifies ");
    push_text(&mut v, existing);
    push_text(&mut v, ", not ");
    push_text(&mut v, kind);
    string_from_chars(v.as_slice())
}

proof fn lemma_empty_literal()
    ensures
        ""@ == Seq::<char>::empty(),
{
    reveal_strlit("");
}

fn compile_element(
    k: usize,
    ns: &str,
    facts: &ProjectFacts,
    external_id: &String,
    kind: &String,
    name: &String,
    owner: &String,
    type_ref: &Option<String>,
    optional_fields: bool,
) -> (r: Result<(Vec<PlanOperation>, ModelScriptPreviewItem), ModelScriptDiagnostic>)
    ensures
        compiled_view(r) == element_spec(k, ns@, *facts, external_id@, kind@, name@, owner@, opt_str(*type_ref), optional_fields),
{
    proof {
        lemma_empty_literal();
    }
    let key = chars_of(concat(concat(ns, "::").as_str(), external_id.as_str()).as_str());
    let (count, first) = find_records(&facts.elements, &key);
    let op = concat("Element::", kind.as_str());
    if count > 1 {
        return Err(diag("", Some(k), Some("element".to_owned()), Some(external_id.clone()),
            "AMBIGUOUS_REFERENCE", "multiple elements have the same namespaced External ID"));
    }
    if count == 1 {
        let e = &facts.elements[first];
        if e.kind != *kind {
            let reason = collision(e.kind.as_str(), kind.as_str());
            return Err(diag("", Some(k), Some("element".to_owned()), Some(external_id.clone()),
                "WRONG_KIND_COLLISION", reason.as_str()));
        }
        if e.name == *name && !(optional_fields || type_ref.is_some()) {
            let ops: Vec<PlanOperation> = Vec::new();
            assert(ops@.map_values(|o: PlanOperation| op_view(o)) =~= Seq::<OpView>::empty());
            return Ok((ops, item(k, ModelScriptAction::NoChange, op.as_str(),
                Some(external_id.as_str()), Some(name.as_str()), "stable identity already matches")));
        }
        let o = match resolve(owner.as_str(), facts, k) {
            Ok(x) => x,
            Err(d) => { return Err(d); },
        };
        let t = match resolve_opt(type_ref, facts, k) {
            Ok(x) => x,
            Err(d) => { return Err(d); },
        };
        let mut ops: Vec<PlanOperation> = Vec::new();
        ops.push(PlanOperation::UpdateElementFields {
            external_id: external_id.clone(),
            name: Some(name.clone()),
            owner: Some(o),
            type_ref: t,
        });
        let it = item(k, ModelScriptAction::Update, op.as_str(), Some(external_id.as_str()),
            Some(name.as_str()), "update through ModelBuildPlan");
        assert(ops@.map_values(|o: PlanOperation| op_view(o)) =~= seq![OpView::UpdateElementFields {
            external_id: external_id@, name: Some(name@), owner: Some(ref_view(o)), type_ref: opt_ref_view(t) }]);
        let r = Ok((ops, it));
        assert(compiled_view(r) == element_spec(k, ns@, *facts, external_id@, kind@, name@, owner@, opt_str(*type_ref), optional_fields));
        return r;
    }
    let o = match resolve(owner.as_str(), facts, k) {
        Ok(x) => x,
        Err(d) => { return Err(d); },
    };
    let t = match resolve_opt(type_ref, facts, k) {
        Ok(x) => x,
        Err(d) => { return Err(d); },
    };
    let mut ops: Vec<PlanOperation> = Vec::new();
    ops.push(PlanOperation::CreateElement {
        external_id: external_id.clone(),
        kind: kind.clone(),
        name: name.clone(),
        owner: o,
        type_ref: t,
    });
    if optional_fields {
        ops.push(PlanOperation::UpdateElementFields {
            external_id: external_id.clone(),
            name: None,
            owner: None,
            type_ref: None,
        });
    }
    let it = item(k, ModelScriptAction::Create, op.as_str(), Some(external_id.as_str()),
        Some(name.as_str()), "create through ModelBuildPlan");
    let ghost created = OpView::CreateElement {
        external_id: external_id@, kind: kind@, name: name@, owner: ref_view(o), type_ref: opt_ref_view(t) };
    if optional_fields {
        assert(ops@.map_values(|o: PlanOperation| op_view(o)) =~= seq![created] + seq![OpView::UpdateElementFields {
            external_id: external_id@, name: None, owner: None, type_ref: None }]);
    } else {
        assert(ops@.map_values(|o: PlanOperation| op_view(o)) =~= seq![created] + Seq::<OpView>::empty());
    }
    let r = Ok((ops, it));
    assert(compiled_view(r) == element_spec(k, ns@, *facts, external_id@, kind@, name@, owner@, opt_str(*type_ref), optional_fields));
    r
}

fn some_clone(x: &Option<String>) -> (r: Option<String>)
    ensures
        opt_str(r) == opt_str(*x),
{
    match x {
        Some(v) => Some(v.clone()),
        None => None,
    }
}

fn compile_relationship(
    k: usize,
    ns: &str,
    facts: &ProjectFacts,
    external_id: &String,
    kind: &String,
    source: &String,
    target: &String,
    owner: &Option<String>,
    name: &Option<String>,
    optional_fields: bool,
) -> (r: Result<(Vec<PlanOperation>, ModelScriptPreviewItem), ModelScriptDiagnostic>)
    ensures
        compiled_view(r) == relationship_spec(k, ns@, *facts, external_id@, kind@, source@, target@,
            opt_str(*owner), opt_str(*name), optional_fields),
{
    proof {
        lemma_empty_literal();
    }
    let key = chars_of(concat(concat(ns, "::").as_str(), external_id.as_str()).as_str());
    let (count, first) = find_records(&facts.relationships, &key);
    let op = concat("Relationship::", kind.as_str());
    let any_fields = name.is_some() || optional_fields;
    if count > 1 {
        return Err(diag("", Some(k), Some("relationship".to_owned()), Some(external_id.clone()),
            "AMBIGUOUS_REFERENCE", "multiple relationships have the same namespaced External ID"));
    }
    if count == 1 {
        let e = &facts.relationships[first];
        if e.kind != *kind {
            let reason = collision(e.kind.as_str(), kind.as_str());
            return Err(diag("", Some(k), Some("relationship".to_owned()), Some(external_id.clone()),
                "WRONG_KIND_COLLISION", reason.as_str()));
        }
        if !any_fields {
            let ops: Vec<PlanOperation> = Vec::new();
            assert(ops@.map_values(|o: PlanOperation| op_view(o)) =~= Seq::<OpView>::empty());
            return Ok((ops, item(k, ModelScriptAction::NoChange, op.as_str(),
                Some(external_id.as_str()), None, "stable identity already exists")));
        }
        let o = match resolve_opt(owner, facts, k) {
            Ok(x) => x,
            Err(d) => { return Err(d); },
        };
        let sr = match resolve(source.as_str(), facts, k) {
            Ok(x) => x,
            Err(d) => { return Err(d); },
        };
        let tr = match resolve(target.as_str(), facts, k) {
            Ok(x) => x,
            Err(d) => { return Err(d); },
        };
        let mut ops: Vec<PlanOperation> = Vec::new();
        ops.push(PlanOperation::UpdateRelationshipFields {
            external_id: external_id.clone(),
            name: some_clone(name),
            owner: o,
            source: Some(sr),
            target: Some(tr),
        });
        let it = item(k, ModelScriptAction::Update, op.as_str(), Some(external_id.as_str()), None,
            "update through ModelBuildPlan");
        assert(ops@.map_values(|o: PlanOperation| op_view(o)) =~= seq![OpView::UpdateRelationshipFields {
            external_id: external_id@, name: opt_str(*name), owner: opt_ref_view(o), source: Some(ref_view(sr)),
            target: Some(ref_view(tr)) }]);
        let r = Ok((ops, it));
        assert(compiled_view(r) == relationship_spec(k, ns@, *facts, external_id@, kind@, source@, target@,
            opt_str(*owner), opt_str(*name), optional_fields));
        return r;
    }
    let sr = match resolve(source.as_str(), facts, k) {
        Ok(x) => x,
        Err(d) => { return Err(d); },
    };
    let tr = match resolve(target.as_str(), facts, k) {
        Ok(x) => x,
        Err(d) => { return Err(d); },
    };
    let o = match resolve_opt(owner, facts, k) {
        Ok(x) => x,
        Err(d) => { return Err(d); },
    };
    let mut ops: Vec<PlanOperation> = Vec::new();
    ops.push(PlanOperation::CreateRelationship {
        external_id: external_id.clone(),
        kind: kind.clone(),
        source: sr,
        target: tr,
        owner: o,
    });
    if any_fields {
        ops.push(PlanOperation::UpdateRelationshipFields {
            external_id: external_id.clone(),
            name: some_clone(name),
            owner: None,
            source: None,
            target: None,
        });
    }
    let it = item(k, ModelScriptAction::Create, op.as_str(), Some(external_id.as_str()), None,
        "create through ModelBuildPlan");
    let ghost created = OpView::CreateRelationship {
        external_id: external_id@, kind: kind@, source: ref_view(sr), target: ref_view(tr), owner: opt_ref_view(o) };
    if any_fields {
        assert(ops@.map_values(|o: PlanOperation| op_view(o)) =~= seq![created] + seq![OpView::UpdateRelationshipFields {
            external_id: external_id@, name: opt_str(*name), owner: None, source: None, target: None }]);
    } else {
        assert(ops@.map_values(|o: PlanOperation| op_view(o)) =~= seq![created] + Seq::<OpView>::empty());
    }
    let r = Ok((ops, it));
    assert(compiled_view(r) == relationship_spec(k, ns@, *facts, external_id@, kind@, source@, target@,
        opt_str(*owner), opt_str(*name), optional_fields));
    r
}

fn copy_strings(v: &Vec<String>) -> (r: Vec<String>)
    ensures
        strs(r@) == strs(v@),
{
    let mut out: Vec<String> = Vec::new();
    let mut k: usize = 0;
    while k < v.len()
        invariant
            k <= v@.len(),
            strs(out@) == strs(v@).take(k as int),
        decreases v.len() - k,
    {
        let ghost before = out@;
        out.push(v[k].clone());
        assert(strs(out@) =~= strs(before).push(v@[k as int]@));
        assert(strs(v@).take(k + 1) =~= strs(v@).take(k as int).push(v@[k as int]@));
        k = k + 1;
    }
    assert(strs(v@) =~= strs(v@).take(k as int));
    out
}

fn resolve_all(tokens: &Vec<String>, facts: &ProjectFacts, k: usize) -> (r: Result<
    Vec<BuildReference<ElementId>>,
    ModelScriptDiagnostic,
>)
    ensures
        match r {
            Ok(v) => refs_spec(strs(tokens@), facts.root, facts.qualified_names@, k, tokens@.len() as int)
                == Ok::<Seq<RefView>, DiagView>(refs_view(v@)),
            Err(d) => refs_spec(strs(tokens@), facts.root, facts.qualified_names@, k, tokens@.len() as int)
                == Err::<Seq<RefView>, DiagView>(diag_view(d)),
        },
{
    let ghost ts = strs(tokens@);
    let mut out: Vec<BuildReference<ElementId>> = Vec::new();
    assert(refs_view(out@) =~= Seq::<RefView>::empty());
    let mut i: usize = 0;
    while i < tokens.len()
        invariant
            i <= tokens@.len(),
            ts == strs(tokens@),
            refs_spec(ts, facts.root, facts.qualified_names@, k, i as int) == Ok::<Seq<RefView>, DiagView>(
                refs_view(out@)),
        decreases tokens.len() - i,
    {
        let x = match resolve(tokens[i].as_str(), facts, k) {
            Ok(x) => x,
            Err(d) => {
                assert(ts[i as int] == tokens@[i as int]@);
                assert(refs_spec(ts, facts.root, facts.qualified_names@, k, i + 1) == Err::<Seq<RefView>, DiagView>(diag_view(d)));
                proof { lemma_refs_stay_failed(ts, facts.root, facts.qualified_names@, k, i + 1, tokens@.len() as int); }
                return Err(d);
            },
        };
        let ghost before = out@;
        out.push(x);
        assert(ts[i as int] == tokens@[i as int]@);
        assert(refs_view(out@) =~= refs_view(before).push(ref_view(x)));
        i = i + 1;
    }
    Ok(out)
}

proof fn lemma_refs_stay_failed(
    tokens: Seq<Seq<char>>,
    root: ElementId,
    names: Seq<(ElementId, String)>,
    k: usize,
    i: int,
    n: int,
)
    requires
        0 <= i <= n,
        refs_spec(tokens, root, names, k, i) is Err,
    ensures
        refs_spec(tokens, root, names, k, n) == refs_spec(tokens, root, names, k, i),
    decreases n - i,
{
    if i < n {
        lemma_refs_stay_failed(tokens, root, names, k, i, n - 1);
    }
}

fn relationship_lookup(facts: &ProjectFacts, ns: &str, external_id: &String, kind: &str) -> (r: (bool, bool))
    ensures
        r.0 == relationship_exists(*facts, external_key(ns@, external_id@)),
        r.1 == other_relationship_kind(*facts, external_key(ns@, external_id@), kind@),
{
    let key = chars_of(concat(concat(ns, "::").as_str(), external_id.as_str()).as_str());
    let (count, first) = find_records(&facts.relationships, &key);
    if count >= 1 {
        let other = !chars_eq(chars_of(facts.relationships[first].kind.as_str()).as_slice(), chars_of(kind).as_slice());
        (true, other)
    } else {
        (false, false)
    }
}

fn compile_connector(
    k: usize,
    ns: &str,
    facts: &ProjectFacts,
    external_id: &String,
    context: &String,
    kind: &String,
    source_path: &Vec<String>,
    target_path: &Vec<String>,
    name: &String,
) -> (r: Result<(Vec<PlanOperation>, ModelScriptPreviewItem), ModelScriptDiagnostic>)
    ensures
        compiled_view(r) == connector_spec(k, ns@, *facts, external_id@, context@, kind@, strs(source_path@),
            strs(target_path@), name@),
{
    proof {
        lemma_empty_literal();
    }
    let (update, other) = relationship_lookup(facts, ns, external_id, "Connector");
    if other {
        return Err(diag("", Some(k), Some("connector".to_owned()), Some(external_id.clone()),
            "WRONG_KIND_COLLISION", "External ID does not identify a Connector"));
    }
    let c = match resolve(context.as_str(), facts, k) {
        Ok(x) => x,
        Err(d) => { return Err(d); },
    };
    let mut ops: Vec<PlanOperation> = Vec::new();
    let it;
    if update {
        ops.push(PlanOperation::UpdateConnectorFields {
            external_id: external_id.clone(),
            context: c,
            kind: kind.clone(),
            source_path: copy_strings(source_path),
            target_path: copy_strings(target_path),
            name: name.clone(),
        });
        it = item(k, ModelScriptAction::Update, "Connector", Some(external_id.as_str()), Some(name.as_str()),
            "update through ModelBuildPlan");
    } else {
        ops.push(PlanOperation::CreateConnector {
            external_id: external_id.clone(),
            context: c,
            kind: kind.clone(),
            source_path: copy_strings(source_path),
            target_path: copy_strings(target_path),
            name: name.clone(),
        });
        it = item(k, ModelScriptAction::Create, "Connector", Some(external_id.as_str()), Some(name.as_str()),
            "create through ModelBuildPlan");
    }
    assert(ops@.map_values(|o: PlanOperation| op_view(o)) =~= seq![OpView::Connector { update,
        external_id: external_id@, context: ref_view(c), kind: kind@, source_path: strs(source_path@),
        target_path: strs(target_path@), name: name@ }]);
    Ok((ops, it))
}

fn compile_item_flow(
    k: usize,
    ns: &str,
    facts: &ProjectFacts,
    external_id: &String,
    connector: &String,
    source_path: &Vec<String>,
    target_path: &Vec<String>,
    conveyed_items: &Vec<String>,
    name: &String,
) -> (r: Result<(Vec<PlanOperation>, ModelScriptPreviewItem), ModelScriptDiagnostic>)
    ensures
        compiled_view(r) == item_flow_spec(k, ns@, *facts, external_id@, connector@, strs(source_path@),
            strs(target_path@), strs(conveyed_items@), name@),
{
    proof {
        lemma_empty_literal();
    }
    let conveyed = match resolve_all(conveyed_items, facts, k) {
        Ok(v) => v,
        Err(d) => { return Err(d); },
    };
    let (update, other) = relationship_lookup(facts, ns, external_id, "ItemFlow");
    if other {
        return Err(diag("", Some(k), Some("item_flow".to_owned()), Some(external_id.clone()),
            "WRONG_KIND_COLLISION", "External ID does not identify an ItemFlow"));
    }
    let flow_on = match external_reference::<ElementId>(connector.as_str(), k) {
        Ok(BuildReference::External(e)) => e,
        Ok(BuildReference::Existing(_)) => {
            proof { assert(false); }
            return Err(diag("", None, None, None, "", ""));
        },
        Err(d) => { return Err(d); },
    };
    let ghost cv = refs_view(conveyed@);
    let mut ops: Vec<PlanOperation> = Vec::new();
    let it;
    if update {
        ops.push(PlanOperation::UpdateItemFlowFields {
            external_id: external_id.clone(),
            connector: flow_on,
            source_path: copy_strings(source_path),
            target_path: copy_strings(target_path),
            conveyed_items: conveyed,
            name: name.clone(),
        });
        it = item(k, ModelScriptAction::Update, "ItemFlow", Some(external_id.as_str()), Some(name.as_str()),
            "update through ModelBuildPlan");
    } else {
        ops.push(PlanOperation::CreateItemFlow {
            external_id: external_id.clone(),
            connector: flow_on,
            source_path: copy_strings(source_path),
            target_path: copy_strings(target_path),
            conveyed_items: conveyed,
            name: name.clone(),
        });
        it = item(k, ModelScriptAction::Create, "ItemFlow", Some(external_id.as_str()), Some(name.as_str()),
            "create through ModelBuildPlan");
    }
    assert(ops@.map_values(|o: PlanOperation| op_view(o)) =~= seq![OpView::ItemFlow { update,
        external_id: external_id@, connector: trim(external_token_spec(connector@)),
        source_path: strs(source_path@), target_path: strs(target_path@), conveyed_items: cv, name: name@ }]);
    Ok((ops, it))
}

fn compile_activity(
    k: usize,
    ns: &str,
    facts: &ProjectFacts,
    external_id: &String,
    name: &String,
    owner: &String,
    context: &Option<String>,
) -> (r: Result<(Vec<PlanOperation>, ModelScriptPreviewItem), ModelScriptDiagnostic>)
    ensures
        compiled_view(r) == activity_spec(k, ns@, *facts, external_id@, name@, owner@, opt_str(*context)),
{
    let key = chars_of(concat(concat(ns, "::").as_str(), external_id.as_str()).as_str());
    let (count, first) = find_records(&facts.activities, &key);
    let o = match resolve(owner.as_str(), facts, k) {
        Ok(x) => x,
        Err(d) => { return Err(d); },
    };
    let c = match resolve_opt(context, facts, k) {
        Ok(x) => x,
        Err(d) => { return Err(d); },
    };
    let mut ops: Vec<PlanOperation> = Vec::new();
    let it;
    if count >= 1 {
        let renamed = if facts.activities[first].name == *name { None } else { Some(name.clone()) };
        ops.push(PlanOperation::UpdateActivity { external_id: external_id.clone(), name: renamed, owner: o, context: c });
        it = item(k, ModelScriptAction::Update, "Activity", Some(external_id.as_str()), Some(name.as_str()),
            "update through unified candidate");
        assert(ops@.map_values(|o: PlanOperation| op_view(o)) =~= seq![OpView::Activity { update: true,
            external_id: external_id@, name: opt_str(renamed), owner: ref_view(o), context: opt_ref_view(c) }]);
    } else {
        ops.push(PlanOperation::CreateActivity { external_id: external_id.clone(), name: name.clone(), owner: o, context: c });
        it = item(k, ModelScriptAction::Create, "Activity", Some(external_id.as_str()), Some(name.as_str()),
            "create through unified candidate");
        assert(ops@.map_values(|o: PlanOperation| op_view(o)) =~= seq![OpView::Activity { update: false,
            external_id: external_id@, name: Some(name@), owner: ref_view(o), context: opt_ref_view(c) }]);
    }
    Ok((ops, it))
}

fn compile_behavior(
    k: usize,
    ns: &str,
    facts: &ProjectFacts,
    family: BehaviorFamily,
    external_id: &String,
    name: &String,
    context: &String,
) -> (r: Result<(Vec<PlanOperation>, ModelScriptPreviewItem), ModelScriptDiagnostic>)
    ensures
        compiled_view(r) == behavior_spec(k, ns@, *facts, family, external_id@, name@, context@),
{
    let key = chars_of(concat(concat(ns, "::").as_str(), external_id.as_str()).as_str());
    let records = match family {
        BehaviorFamily::StateMachine => &facts.state_machines,
        BehaviorFamily::Interaction => &facts.interactions,
    };
    let (count, _) = find_records(records, &key);
    let label = match family {
        BehaviorFamily::StateMachine => "StateMachine",
        BehaviorFamily::Interaction => "Interaction",
    };
    proof {
        reveal_strlit("StateMachine");
        reveal_strlit("Interaction");
    }
    assert(label@ == family_name(family));
    let mut ops: Vec<PlanOperation> = Vec::new();
    let it;
    if count >= 1 {
        let named = match external_reference::<ElementId>(external_id.as_str(), k) {
            Ok(BuildReference::External(e)) => e,
            Ok(BuildReference::Existing(_)) => {
                proof { assert(false); }
                return Err(diag("", None, None, None, "", ""));
            },
            Err(d) => { return Err(d); },
        };
        let c = match resolve(context.as_str(), facts, k) {
            Ok(x) => x,
            Err(d) => { return Err(d); },
        };
        ops.push(PlanOperation::UpdateBehavior { family, external_id: named, name: name.clone(), context: c });
        it = item(k, ModelScriptAction::Update, label, Some(external_id.as_str()), Some(name.as_str()),
            "unified Behavior repository");
        assert(ops@.map_values(|o: PlanOperation| op_view(o)) =~= seq![OpView::Behavior { family, update: true,
            external_id: trim(external_token_spec(external_id@)), name: name@, context: ref_view(c) }]);
    } else {
        let c = match resolve(context.as_str(), facts, k) {
            Ok(x) => x,
            Err(d) => { return Err(d); },
        };
        ops.push(PlanOperation::CreateBehavior { family, external_id: external_id.clone(), name: name.clone(), context: c });
        it = item(k, ModelScriptAction::Create, label, Some(external_id.as_str()), Some(name.as_str()),
            "unified Behavior repository");
        assert(ops@.map_values(|o: PlanOperation| op_view(o)) =~= seq![OpView::Behavior { family, update: false,
            external_id: external_id@, name: name@, context: ref_view(c) }]);
    }
    Ok((ops, it))
}

/// The External ID a plain reference token names.
fn referenced(token: &str, k: usize) -> (r: Result<String, ModelScriptDiagnostic>)
    ensures
        match r {
            Ok(e) => external_reference_ok(token@) && e@ == referenced_id(token@),
            Err(d) => !external_reference_ok(token@) && diag_view(d) == reference_kind_invalid(k),
        },
{
    match external_reference::<ElementId>(token, k) {
        Ok(BuildReference::External(e)) => Ok(e),
        Ok(BuildReference::Existing(_)) => {
            proof { assert(false); }
            Err(diag("", None, None, None, "", ""))
        },
        Err(d) => Err(d),
    }
}

fn behavior_lookup(facts: &ProjectFacts, ns: &str, external_id: &String) -> (r: Option<String>)
    ensures
        match behavior_record(*facts, external_key(ns@, external_id@)) {
            Some(e) => r == Some(e.kind),
            None => r is None,
        },
{
    let key = chars_of(concat(concat(ns, "::").as_str(), external_id.as_str()).as_str());
    let (count, first) = find_records(&facts.behavior_ids, &key);
    if count >= 1 {
        Some(facts.behavior_ids[first].kind.clone())
    } else {
        None
    }
}

fn compile_region(
    k: usize,
    ns: &str,
    facts: &ProjectFacts,
    external_id: &String,
    name: &String,
    state_machine: &Option<String>,
    state: &Option<String>,
) -> (r: Result<(Vec<PlanOperation>, ModelScriptPreviewItem), ModelScriptDiagnostic>)
    ensures
        compiled_view(r) == region_spec(k, ns@, *facts, external_id@, name@, opt_str(*state_machine), opt_str(*state)),
{
    proof {
        lemma_empty_literal();
    }
    if state_machine.is_some() == state.is_some() {
        return Err(diag("", Some(k), Some("region".to_owned()), Some(external_id.clone()), "REGION_PARENT_INVALID",
            "provide exactly one of state_machine or state"));
    }
    let existing = behavior_lookup(facts, ns, external_id);
    let parent = match state_machine {
        Some(t) => match referenced(t.as_str(), k) {
            Ok(e) => RegionParent::StateMachine(e),
            Err(d) => { return Err(d); },
        },
        None => match state {
            Some(t) => match referenced(t.as_str(), k) {
                Ok(e) => RegionParent::State(e),
                Err(d) => { return Err(d); },
            },
            None => {
                proof { assert(false); }
                return Err(diag("", None, None, None, "", ""));
            },
        },
    };
    let mut ops: Vec<PlanOperation> = Vec::new();
    let it;
    match existing {
        Some(kind) => {
            if !chars_eq(chars_of(kind.as_str()).as_slice(), chars_of("Region").as_slice()) {
                return Err(diag("", Some(k), Some("region".to_owned()), Some(external_id.clone()),
                    "WRONG_KIND_COLLISION", "External ID has another Behavior semantic kind"));
            }
            let named = match referenced(external_id.as_str(), k) {
                Ok(e) => e,
                Err(d) => { return Err(d); },
            };
            ops.push(PlanOperation::UpdateRegion { external_id: named, name: name.clone() });
            it = item(k, ModelScriptAction::Update, "Region", Some(external_id.as_str()), Some(name.as_str()),
                "unified Behavior repository");
            assert(ops@.map_values(|o: PlanOperation| op_view(o)) =~= seq![OpView::Region { update: true,
                external_id: referenced_id(external_id@), parent: None, name: name@ }]);
        },
        None => {
            let ghost pv = parent_view(parent);
            ops.push(PlanOperation::CreateRegion { external_id: external_id.clone(), parent, name: name.clone() });
            it = item(k, ModelScriptAction::Create, "Region", Some(external_id.as_str()), Some(name.as_str()),
                "unified Behavior repository");
            assert(ops@.map_values(|o: PlanOperation| op_view(o)) =~= seq![OpView::Region { update: false,
                external_id: external_id@, parent: Some(pv), name: name@ }]);
        },
    }
    Ok((ops, it))
}

fn compile_lifeline(
    k: usize,
    ns: &str,
    facts: &ProjectFacts,
    external_id: &String,
    interaction: &String,
    name: &String,
    represented_path: &Vec<String>,
) -> (r: Result<(Vec<PlanOperation>, ModelScriptPreviewItem), ModelScriptDiagnostic>)
    ensures
        compiled_view(r) == lifeline_spec(k, ns@, *facts, external_id@, interaction@, name@, strs(represented_path@)),
{
    proof {
        lemma_empty_literal();
    }
    let existing = behavior_lookup(facts, ns, external_id);
    let path = match resolve_all(represented_path, facts, k) {
        Ok(v) => v,
        Err(d) => { return Err(d); },
    };
    let ghost pv = refs_view(path@);
    let mut ops: Vec<PlanOperation> = Vec::new();
    let it;
    match existing {
        Some(kind) => {
            if !chars_eq(chars_of(kind.as_str()).as_slice(), chars_of("Lifeline").as_slice()) {
                return Err(diag("", Some(k), Some("lifeline".to_owned()), Some(external_id.clone()),
                    "WRONG_KIND_COLLISION", "External ID has another Behavior semantic kind"));
            }
            let named = match referenced(external_id.as_str(), k) {
                Ok(e) => e,
                Err(d) => { return Err(d); },
            };
            ops.push(PlanOperation::UpdateLifeline { external_id: named, name: name.clone(), represented_path: path });
            it = item(k, ModelScriptAction::Update, "Lifeline", Some(external_id.as_str()), Some(name.as_str()),
                "unified Behavior repository");
            assert(ops@.map_values(|o: PlanOperation| op_view(o)) =~= seq![OpView::Lifeline { update: true,
                external_id: referenced_id(external_id@), interaction: None, name: name@, represented_path: pv }]);
        },
        None => {
            let within = match referenced(interaction.as_str(), k) {
                Ok(e) => e,
                Err(d) => { return Err(d); },
            };
            ops.push(PlanOperation::CreateLifeline { external_id: external_id.clone(), interaction: within,
                name: name.clone(), represented_path: path });
            it = item(k, ModelScriptAction::Create, "Lifeline", Some(external_id.as_str()), Some(name.as_str()),
                "unified Behavior repository");
            assert(ops@.map_values(|o: PlanOperation| op_view(o)) =~= seq![OpView::Lifeline { update: false,
                external_id: external_id@, interaction: Some(referenced_id(interaction@)), name: name@,
                represented_path: pv }]);
        },
    }
    Ok((ops, it))
}

fn compile_on_lifeline(
    k: usize,
    ns: &str,
    facts: &ProjectFacts,
    external_id: &String,
    interaction: &String,
    lifeline: &String,
    order: u32,
    constraint: &Option<String>,
) -> (r: Result<(Vec<PlanOperation>, ModelScriptPreviewItem), ModelScriptDiagnostic>)
    ensures
        compiled_view(r) == on_lifeline_spec(k, ns@, *facts, external_id@, interaction@, lifeline@, order,
            opt_str(*constraint)),
{
    proof {
        lemma_empty_literal();
        reveal_strlit("Invariant");
        reveal_strlit("Occurrence");
    }
    let (kind, label, shown) = if constraint.is_some() {
        ("Invariant", "state_invariant", "StateInvariant")
    } else {
        ("Occurrence", "occurrence", "Occurrence")
    };
    assert((kind@, label@, shown@) == on_lifeline_names(constraint.is_some()));
    let existing = behavior_lookup(facts, ns, external_id);
    let mut ops: Vec<PlanOperation> = Vec::new();
    let it;
    match existing {
        Some(found) => {
            if !chars_eq(chars_of(found.as_str()).as_slice(), chars_of(kind).as_slice()) {
                return Err(diag("", Some(k), Some(label.to_owned()), Some(external_id.clone()),
                    "WRONG_KIND_COLLISION", "External ID has another Behavior semantic kind"));
            }
            let named = match referenced(external_id.as_str(), k) {
                Ok(e) => e,
                Err(d) => { return Err(d); },
            };
            let on = match referenced(lifeline.as_str(), k) {
                Ok(e) => e,
                Err(d) => { return Err(d); },
            };
            let c = some_clone(constraint);
            ops.push(PlanOperation::UpdateOnLifeline { external_id: named, lifeline: on, order, constraint: c });
            it = item(k, ModelScriptAction::Update, shown, Some(external_id.as_str()), None,
                "unified Behavior repository");
            assert(ops@.map_values(|o: PlanOperation| op_view(o)) =~= seq![OpView::OnLifeline { update: true,
                external_id: referenced_id(external_id@), interaction: None, lifeline: referenced_id(lifeline@), order,
                constraint: opt_str(*constraint) }]);
        },
        None => {
            let within = match referenced(interaction.as_str(), k) {
                Ok(e) => e,
                Err(d) => { return Err(d); },
            };
            let on = match referenced(lifeline.as_str(), k) {
                Ok(e) => e,
                Err(d) => { return Err(d); },
            };
            let c = some_clone(constraint);
            ops.push(PlanOperation::CreateOnLifeline { external_id: external_id.clone(), interaction: within,
                lifeline: on, order, constraint: c });
            it = item(k, ModelScriptAction::Create, shown, Some(external_id.as_str()), None,
                "unified Behavior repository");
            assert(ops@.map_values(|o: PlanOperation| op_view(o)) =~= seq![OpView::OnLifeline { update: false,
                external_id: external_id@, interaction: Some(referenced_id(interaction@)),
                lifeline: referenced_id(lifeline@), order, constraint: opt_str(*constraint) }]);
        },
    }
    Ok((ops, it))
}

fn referenced_all(tokens: &Vec<String>, k: usize) -> (r: Result<Vec<String>, ModelScriptDiagnostic>)
    ensures
        match r {
            Ok(v) => all_external(strs(tokens@)) && strs(v@) == referenced_ids(strs(tokens@)),
            Err(d) => !all_external(strs(tokens@)) && diag_view(d) == reference_kind_invalid(k),
        },
{
    let ghost ts = strs(tokens@);
    let mut out: Vec<String> = Vec::new();
    let mut i: usize = 0;
    while i < tokens.len()
        invariant
            i <= tokens@.len(),
            ts == strs(tokens@),
            forall|q: int| 0 <= q < i ==> external_reference_ok(#[trigger] ts[q]),
            strs(out@) == referenced_ids(ts.take(i as int)),
        decreases tokens.len() - i,
    {
        assert(ts[i as int] == tokens@[i as int]@);
        let e = match referenced(tokens[i].as_str(), k) {
            Ok(e) => e,
            Err(d) => { return Err(d); },
        };
        let ghost before = out@;
        out.push(e);
        assert(strs(out@) =~= strs(before).push(e@));
        assert(referenced_ids(ts.take(i + 1)) =~= referenced_ids(ts.take(i as int)).push(referenced_id(ts[i as int])));
        i = i + 1;
    }
    assert(ts.take(i as int) =~= ts);
    Ok(out)
}

fn is_kind(found: &String, kind: &str) -> (r: bool)
    ensures
        r == (found@ == kind@),
{
    chars_eq(chars_of(found.as_str()).as_slice(), chars_of(kind).as_slice())
}

fn compile_execution(
    k: usize,
    ns: &str,
    facts: &ProjectFacts,
    external_id: &String,
    interaction: &String,
    lifeline: &String,
    start: &String,
    finish: &String,
    behavior: &Option<String>,
) -> (r: Result<(Vec<PlanOperation>, ModelScriptPreviewItem), ModelScriptDiagnostic>)
    ensures
        compiled_view(r) == execution_spec(k, ns@, *facts, external_id@, interaction@, lifeline@, start@, finish@,
            opt_str(*behavior)),
{
    proof {
        lemma_empty_literal();
    }
    let b = match resolve_opt(behavior, facts, k) {
        Ok(x) => x,
        Err(d) => { return Err(d); },
    };
    let existing = behavior_lookup(facts, ns, external_id);
    let mut ops: Vec<PlanOperation> = Vec::new();
    let it;
    let update = existing.is_some();
    let first = if update {
        let found = existing.unwrap();
        if !is_kind(&found, "Execution") {
            return Err(diag("", Some(k), Some("execution".to_owned()), Some(external_id.clone()),
                "WRONG_KIND_COLLISION", "External ID has another Behavior semantic kind"));
        }
        external_id
    } else {
        interaction
    };
    let ghost tokens = seq![first@, lifeline@, start@, finish@];
    let named = match referenced(first.as_str(), k) {
        Ok(e) => e,
        Err(d) => {
            assert(!external_reference_ok(tokens[0]));
            return Err(d);
        },
    };
    let on = match referenced(lifeline.as_str(), k) {
        Ok(e) => e,
        Err(d) => {
            assert(!external_reference_ok(tokens[1]));
            return Err(d);
        },
    };
    let from = match referenced(start.as_str(), k) {
        Ok(e) => e,
        Err(d) => {
            assert(!external_reference_ok(tokens[2]));
            return Err(d);
        },
    };
    let to = match referenced(finish.as_str(), k) {
        Ok(e) => e,
        Err(d) => {
            assert(!external_reference_ok(tokens[3]));
            return Err(d);
        },
    };
    assert(all_external(tokens));
    if update {
        ops.push(PlanOperation::UpdateExecution { external_id: named, lifeline: on, start: from, finish: to, behavior: b });
        it = item(k, ModelScriptAction::Update, "ExecutionSpecification", Some(external_id.as_str()), None,
            "unified Behavior repository");
    } else {
        ops.push(PlanOperation::CreateExecution { external_id: external_id.clone(), interaction: named, lifeline: on,
            start: from, finish: to, behavior: b });
        it = item(k, ModelScriptAction::Create, "ExecutionSpecification", Some(external_id.as_str()), None,
            "unified Behavior repository");
    }
    assert(ops@.map_values(|o: PlanOperation| op_view(o)) =~= seq![op_view(ops@[0])]);
    Ok((ops, it))
}

fn compile_fragment(
    k: usize,
    ns: &str,
    facts: &ProjectFacts,
    external_id: &String,
    interaction: &String,
    operator: &String,
    covered_lifelines: &Vec<String>,
) -> (r: Result<(Vec<PlanOperation>, ModelScriptPreviewItem), ModelScriptDiagnostic>)
    ensures
        compiled_view(r) == fragment_spec(k, ns@, *facts, external_id@, interaction@, operator@, strs(covered_lifelines@)),
{
    proof {
        lemma_empty_literal();
    }
    let covered = match referenced_all(covered_lifelines, k) {
        Ok(v) => v,
        Err(d) => { return Err(d); },
    };
    let existing = behavior_lookup(facts, ns, external_id);
    let mut ops: Vec<PlanOperation> = Vec::new();
    let it;
    match existing {
        Some(found) => {
            if !is_kind(&found, "Fragment") {
                return Err(diag("", Some(k), Some("combined_fragment".to_owned()), Some(external_id.clone()),
                    "WRONG_KIND_COLLISION", "External ID has another Behavior semantic kind"));
            }
            let named = match referenced(external_id.as_str(), k) {
                Ok(e) => e,
                Err(d) => { return Err(d); },
            };
            ops.push(PlanOperation::UpdateFragment { external_id: named, operator: operator.clone(), covered_lifelines: covered });
            it = item(k, ModelScriptAction::Update, "CombinedFragment", Some(external_id.as_str()), None,
                "unified Behavior repository");
        },
        None => {
            let within = match referenced(interaction.as_str(), k) {
                Ok(e) => e,
                Err(d) => { return Err(d); },
            };
            ops.push(PlanOperation::CreateFragment { external_id: external_id.clone(), interaction: within,
                operator: operator.clone(), covered_lifelines: covered });
            it = item(k, ModelScriptAction::Create, "CombinedFragment", Some(external_id.as_str()), None,
                "unified Behavior repository");
        },
    }
    assert(ops@.map_values(|o: PlanOperation| op_view(o)) =~= seq![op_view(ops@[0])]);
    Ok((ops, it))
}

fn compile_operand(
    k: usize,
    ns: &str,
    facts: &ProjectFacts,
    external_id: &String,
    fragment: &String,
    guard: &Option<String>,
    start_order: u32,
    end_order: u32,
) -> (r: Result<(Vec<PlanOperation>, ModelScriptPreviewItem), ModelScriptDiagnostic>)
    ensures
        compiled_view(r) == operand_spec(k, ns@, *facts, external_id@, fragment@, opt_str(*guard), start_order, end_order),
{
    proof {
        lemma_empty_literal();
    }
    let existing = behavior_lookup(facts, ns, external_id);
    let mut ops: Vec<PlanOperation> = Vec::new();
    let it;
    match existing {
        Some(found) => {
            if !is_kind(&found, "Operand") {
                return Err(diag("", Some(k), Some("operand".to_owned()), Some(external_id.clone()),
                    "WRONG_KIND_COLLISION", "External ID has another Behavior semantic kind"));
            }
            let named = match referenced(external_id.as_str(), k) {
                Ok(e) => e,
                Err(d) => { return Err(d); },
            };
            ops.push(PlanOperation::UpdateOperand { external_id: named, guard: some_clone(guard), start_order, end_order });
            it = item(k, ModelScriptAction::Update, "InteractionOperand", Some(external_id.as_str()), None,
                "unified Behavior repository");
        },
        None => {
            let within = match referenced(fragment.as_str(), k) {
                Ok(e) => e,
                Err(d) => { return Err(d); },
            };
            ops.push(PlanOperation::CreateOperand { external_id: external_id.clone(), fragment: within,
                guard: some_clone(guard), start_order, end_order });
            it = item(k, ModelScriptAction::Create, "InteractionOperand", Some(external_id.as_str()), None,
                "unified Behavior repository");
        },
    }
    assert(ops@.map_values(|o: PlanOperation| op_view(o)) =~= seq![op_view(ops@[0])]);
    Ok((ops, it))
}

fn activity_lookup(facts: &ProjectFacts, ns: &str, external_id: &String) -> (r: Option<String>)
    ensures
        match activity_record(*facts, external_key(ns@, external_id@)) {
            Some(e) => r == Some(e.kind),
            None => r is None,
        },
{
    let key = chars_of(concat(concat(ns, "::").as_str(), external_id.as_str()).as_str());
    let (count, first) = find_records(&facts.activity_ids, &key);
    if count >= 1 {
        Some(facts.activity_ids[first].kind.clone())
    } else {
        None
    }
}

fn referenced_opt(token: &Option<String>, k: usize) -> (r: Result<Option<String>, ModelScriptDiagnostic>)
    ensures
        match r {
            Ok(e) => opt_external_ok(opt_str(*token)) && opt_str(e) == opt_referenced(opt_str(*token)),
            Err(d) => !opt_external_ok(opt_str(*token)) && diag_view(d) == reference_kind_invalid(k),
        },
{
    match token {
        Some(t) => match referenced(t.as_str(), k) {
            Ok(e) => Ok(Some(e)),
            Err(d) => Err(d),
        },
        None => Ok(None),
    }
}

fn copy_texts(t: &EdgeTexts) -> (r: EdgeTexts)
    ensures
        texts_view(r) == texts_view(*t),
{
    EdgeTexts {
        guard: some_clone(&t.guard),
        weight: some_clone(&t.weight),
        selection: some_clone(&t.selection),
        transformation: some_clone(&t.transformation),
    }
}

fn compile_partition(
    k: usize,
    ns: &str,
    facts: &ProjectFacts,
    external_id: &String,
    activity: &String,
    name: &String,
    represented: &Option<String>,
    is_dimension: bool,
    is_external: bool,
) -> (r: Result<(Vec<PlanOperation>, ModelScriptPreviewItem), ModelScriptDiagnostic>)
    ensures
        compiled_view(r) == partition_spec(k, ns@, *facts, external_id@, activity@, name@, opt_str(*represented),
            is_dimension, is_external),
{
    proof {
        lemma_empty_literal();
    }
    let existing = activity_lookup(facts, ns, external_id);
    let update = existing.is_some();
    if update {
        let found = existing.unwrap();
        if !is_kind(&found, "Partition") {
            return Err(diag("", Some(k), Some("activity_partition".to_owned()), Some(external_id.clone()),
                "WRONG_KIND_COLLISION", "External ID has another Activity semantic kind"));
        }
    }
    let first = if update { external_id } else { activity };
    let named = match referenced(first.as_str(), k) {
        Ok(e) => e,
        Err(d) => { return Err(d); },
    };
    let rep = match resolve_opt(represented, facts, k) {
        Ok(x) => x,
        Err(d) => { return Err(d); },
    };
    let mut ops: Vec<PlanOperation> = Vec::new();
    let it;
    if update {
        ops.push(PlanOperation::UpdatePartition { external_id: named, name: name.clone(), represented_element: rep,
            is_dimension, is_external });
        it = item(k, ModelScriptAction::Update, "ActivityPartition", Some(external_id.as_str()), Some(name.as_str()),
            "unified Activity repository");
    } else {
        ops.push(PlanOperation::CreatePartition { external_id: external_id.clone(), activity: named, name: name.clone(),
            represented_element: rep, is_dimension, is_external });
        it = item(k, ModelScriptAction::Create, "ActivityPartition", Some(external_id.as_str()), Some(name.as_str()),
            "unified Activity repository");
    }
    assert(ops@.map_values(|o: PlanOperation| op_view(o)) =~= seq![op_view(ops@[0])]);
    Ok((ops, it))
}

fn compile_structured_node(
    k: usize,
    ns: &str,
    facts: &ProjectFacts,
    external_id: &String,
    activity: &String,
    name: &String,
    kind: &String,
    parent: &Option<String>,
) -> (r: Result<(Vec<PlanOperation>, ModelScriptPreviewItem), ModelScriptDiagnostic>)
    ensures
        compiled_view(r) == structured_node_spec(k, ns@, *facts, external_id@, activity@, name@, kind@, opt_str(*parent)),
{
    proof {
        lemma_empty_literal();
    }
    let existing = activity_lookup(facts, ns, external_id);
    let update = existing.is_some();
    if update {
        let found = existing.unwrap();
        if !is_kind(&found, "StructuredNode") {
            return Err(diag("", Some(k), Some("structured_activity_node".to_owned()), Some(external_id.clone()),
                "WRONG_KIND_COLLISION", "External ID has another Activity semantic kind"));
        }
    }
    let first = if update { external_id } else { activity };
    let named = match referenced(first.as_str(), k) {
        Ok(e) => e,
        Err(d) => { return Err(d); },
    };
    let up = match referenced_opt(parent, k) {
        Ok(e) => e,
        Err(d) => { return Err(d); },
    };
    let mut ops: Vec<PlanOperation> = Vec::new();
    let it;
    if update {
        ops.push(PlanOperation::UpdateStructuredNode { external_id: named, name: name.clone(), kind: kind.clone(), parent: up });
        it = item(k, ModelScriptAction::Update, "StructuredActivityNode", Some(external_id.as_str()), Some(name.as_str()),
            "unified Activity repository");
    } else {
        ops.push(PlanOperation::CreateStructuredNode { external_id: external_id.clone(), activity: named,
            name: name.clone(), kind: kind.clone(), parent: up });
        it = item(k, ModelScriptAction::Create, "StructuredActivityNode", Some(external_id.as_str()), Some(name.as_str()),
            "unified Activity repository");
    }
    assert(ops@.map_values(|o: PlanOperation| op_view(o)) =~= seq![op_view(ops@[0])]);
    Ok((ops, it))
}

fn edge_end(token: &String, is_pin: bool, k: usize) -> (r: Result<EdgeEnd, ModelScriptDiagnostic>)
    ensures
        match r {
            Ok(e) => external_reference_ok(token@) && edge_end_view(e) == (is_pin, referenced_id(token@)),
            Err(d) => !external_reference_ok(token@) && diag_view(d) == reference_kind_invalid(k),
        },
{
    match referenced(token.as_str(), k) {
        Ok(e) => Ok(if is_pin { EdgeEnd::Pin(e) } else { EdgeEnd::Node(e) }),
        Err(d) => Err(d),
    }
}

fn compile_edge(
    k: usize,
    ns: &str,
    facts: &ProjectFacts,
    external_id: &String,
    activity: &String,
    name: &String,
    kind: &String,
    source: &String,
    target: &String,
    source_is_pin: bool,
    target_is_pin: bool,
    texts: &EdgeTexts,
    interrupting_region: &Option<String>,
) -> (r: Result<(Vec<PlanOperation>, ModelScriptPreviewItem), ModelScriptDiagnostic>)
    ensures
        compiled_view(r) == edge_spec(k, ns@, *facts, external_id@, activity@, name@, kind@, (source_is_pin, source@),
            (target_is_pin, target@), texts_view(*texts), opt_str(*interrupting_region)),
{
    proof {
        lemma_empty_literal();
    }
    let existing = activity_lookup(facts, ns, external_id);
    let update = existing.is_some();
    if update {
        let found = existing.unwrap();
        if !is_kind(&found, "Edge") {
            return Err(diag("", Some(k), Some("activity_edge".to_owned()), Some(external_id.clone()),
                "WRONG_KIND_COLLISION", "External ID has another Activity semantic kind"));
        }
    }
    let first = if update { external_id } else { activity };
    let ghost tokens = seq![first@, source@, target@];
    let named = match referenced(first.as_str(), k) {
        Ok(e) => e,
        Err(d) => {
            assert(!external_reference_ok(tokens[0]));
            return Err(d);
        },
    };
    let from = match edge_end(source, source_is_pin, k) {
        Ok(e) => e,
        Err(d) => {
            assert(!external_reference_ok(tokens[1]));
            return Err(d);
        },
    };
    let to = match edge_end(target, target_is_pin, k) {
        Ok(e) => e,
        Err(d) => {
            assert(!external_reference_ok(tokens[2]));
            return Err(d);
        },
    };
    assert(all_external(tokens));
    let region = match referenced_opt(interrupting_region, k) {
        Ok(e) => e,
        Err(d) => { return Err(d); },
    };
    let mut ops: Vec<PlanOperation> = Vec::new();
    let it;
    if update {
        ops.push(PlanOperation::UpdateEdge { external_id: named, name: name.clone(), kind: kind.clone(), source: from,
            target: to, texts: copy_texts(texts), interrupting_region: region });
        it = item(k, ModelScriptAction::Update, "ActivityEdge", Some(external_id.as_str()), Some(name.as_str()),
            "unified Activity repository");
    } else {
        ops.push(PlanOperation::CreateEdge { external_id: external_id.clone(), activity: named, name: name.clone(),
            kind: kind.clone(), source: from, target: to, texts: copy_texts(texts), interrupting_region: region });
        it = item(k, ModelScriptAction::Create, "ActivityEdge", Some(external_id.as_str()), Some(name.as_str()),
            "unified Activity repository");
    }
    assert(ops@.map_values(|o: PlanOperation| op_view(o)) =~= seq![op_view(ops@[0])]);
    Ok((ops, it))
}

fn resolve_trigger(t: &Option<TriggerToken>, facts: &ProjectFacts, k: usize) -> (r: Result<
    Option<TriggerBuild>,
    ModelScriptDiagnostic,
>)
    ensures
        match r {
            Ok(x) => opt_trigger_spec(*t, facts.root, facts.qualified_names@, k) == Ok::<Option<TriggerView>, DiagView>(
                opt_trigger_view(x)),
            Err(d) => opt_trigger_spec(*t, facts.root, facts.qualified_names@, k) == Err::<Option<TriggerView>, DiagView>(
                diag_view(d)),
        },
{
    match t {
        None => Ok(None),
        Some(TriggerToken::Signal(x)) => match resolve(x.as_str(), facts, k) {
            Ok(r) => Ok(Some(TriggerBuild::Signal(r))),
            Err(d) => Err(d),
        },
        Some(TriggerToken::Call(x)) => match resolve(x.as_str(), facts, k) {
            Ok(r) => Ok(Some(TriggerBuild::Call(r))),
            Err(d) => Err(d),
        },
        Some(TriggerToken::Time { expression, is_relative }) => Ok(Some(TriggerBuild::Time {
            expression: expression.clone(),
            is_relative: *is_relative,
        })),
        Some(TriggerToken::Change { expression }) => Ok(Some(TriggerBuild::Change { expression: expression.clone() })),
        Some(TriggerToken::AnyReceive) => Ok(Some(TriggerBuild::AnyReceive)),
    }
}

fn compile_transition(
    k: usize,
    ns: &str,
    facts: &ProjectFacts,
    external_id: &String,
    region: &String,
    source: &String,
    target: &String,
    kind: &String,
    trigger: &Option<TriggerToken>,
    guard: &Option<String>,
    effect: &Option<String>,
) -> (r: Result<(Vec<PlanOperation>, ModelScriptPreviewItem), ModelScriptDiagnostic>)
    ensures
        compiled_view(r) == transition_spec(k, ns@, *facts, external_id@, region@, source@, target@, kind@, *trigger,
            opt_str(*guard), opt_str(*effect)),
{
    proof {
        lemma_empty_literal();
    }
    let t = match resolve_trigger(trigger, facts, k) {
        Ok(x) => x,
        Err(d) => { return Err(d); },
    };
    let existing = behavior_lookup(facts, ns, external_id);
    let update = existing.is_some();
    if update {
        let found = existing.unwrap();
        if !is_kind(&found, "Transition") {
            return Err(diag("", Some(k), Some("transition".to_owned()), Some(external_id.clone()),
                "WRONG_KIND_COLLISION", "External ID has another Behavior semantic kind"));
        }
    }
    let first = if update { external_id } else { region };
    let ghost tokens = seq![first@, source@, target@];
    let named = match referenced(first.as_str(), k) {
        Ok(e) => e,
        Err(d) => {
            assert(!external_reference_ok(tokens[0]));
            return Err(d);
        },
    };
    let from = match referenced(source.as_str(), k) {
        Ok(e) => e,
        Err(d) => {
            assert(!external_reference_ok(tokens[1]));
            return Err(d);
        },
    };
    let to = match referenced(target.as_str(), k) {
        Ok(e) => e,
        Err(d) => {
            assert(!external_reference_ok(tokens[2]));
            return Err(d);
        },
    };
    assert(all_external(tokens));
    let mut ops: Vec<PlanOperation> = Vec::new();
    let it;
    if update {
        ops.push(PlanOperation::UpdateTransition { external_id: named, source: from, target: to, kind: kind.clone(),
            trigger: t, guard: some_clone(guard), effect: some_clone(effect) });
        it = item(k, ModelScriptAction::Update, "Transition", Some(external_id.as_str()), None,
            "unified Behavior repository");
    } else {
        ops.push(PlanOperation::CreateTransition { external_id: external_id.clone(), region: named, source: from,
            target: to, kind: kind.clone(), trigger: t, guard: some_clone(guard), effect: some_clone(effect) });
        it = item(k, ModelScriptAction::Create, "Transition", Some(external_id.as_str()), None,
            "unified Behavior repository");
    }
    assert(ops@.map_values(|o: PlanOperation| op_view(o)) =~= seq![op_view(ops@[0])]);
    Ok((ops, it))
}

fn resolve_binding_end(b: &BindingEndToken, facts: &ProjectFacts, k: usize) -> (r: Result<
    BindingEndpointBuild,
    ModelScriptDiagnostic,
>)
    ensures
        match r {
            Ok(x) => binding_end_spec(*b, facts.root, facts.qualified_names@, k) == Ok::<
                (RefView, Option<RefView>),
                DiagView,
            >(binding_end_view(x)),
            Err(d) => binding_end_spec(*b, facts.root, facts.qualified_names@, k) == Err::<
                (RefView, Option<RefView>),
                DiagView,
            >(diag_view(d)),
        },
{
    let role = match resolve(b.role.as_str(), facts, k) {
        Ok(x) => x,
        Err(d) => { return Err(d); },
    };
    let parameter = match resolve_opt(&b.parameter, facts, k) {
        Ok(x) => x,
        Err(d) => { return Err(d); },
    };
    Ok(BindingEndpointBuild { role, parameter })
}

fn compile_binding(
    k: usize,
    ns: &str,
    facts: &ProjectFacts,
    external_id: &String,
    name: &String,
    owner: &String,
    source: &BindingEndToken,
    target: &BindingEndToken,
) -> (r: Result<(Vec<PlanOperation>, ModelScriptPreviewItem), ModelScriptDiagnostic>)
    ensures
        compiled_view(r) == binding_spec(k, ns@, *facts, external_id@, name@, owner@, *source, *target),
{
    proof {
        lemma_empty_literal();
    }
    let (update, other) = relationship_lookup(facts, ns, external_id, "BindingConnector");
    let s = match resolve_binding_end(source, facts, k) {
        Ok(x) => x,
        Err(d) => { return Err(d); },
    };
    let t = match resolve_binding_end(target, facts, k) {
        Ok(x) => x,
        Err(d) => { return Err(d); },
    };
    if other {
        return Err(diag("", Some(k), Some("binding".to_owned()), Some(external_id.clone()), "WRONG_KIND_COLLISION",
            "External ID does not identify a BindingConnector"));
    }
    let o = match resolve(owner.as_str(), facts, k) {
        Ok(x) => x,
        Err(d) => { return Err(d); },
    };
    let mut ops: Vec<PlanOperation> = Vec::new();
    let it;
    if update {
        ops.push(PlanOperation::UpdateBinding { external_id: external_id.clone(), name: name.clone(), owner: o,
            source: s, target: t });
        it = item(k, ModelScriptAction::Update, "BindingConnector", Some(external_id.as_str()), Some(name.as_str()),
            "native parametric build operation");
    } else {
        ops.push(PlanOperation::CreateBinding { external_id: external_id.clone(), name: name.clone(), owner: o,
            source: s, target: t });
        it = item(k, ModelScriptAction::Create, "BindingConnector", Some(external_id.as_str()), Some(name.as_str()),
            "native parametric build operation");
    }
    assert(ops@.map_values(|o: PlanOperation| op_view(o)) =~= seq![op_view(ops@[0])]);
    Ok((ops, it))
}

fn resolve_node_kind(n: &NodeKindToken, facts: &ProjectFacts, k: usize) -> (r: Result<NodeKindBuild, ModelScriptDiagnostic>)
    ensures
        match r {
            Ok(x) => node_kind_spec(*n, facts.root, facts.qualified_names@, k) == Ok::<NodeKindView, DiagView>(
                node_kind_view(x)),
            Err(d) => node_kind_spec(*n, facts.root, facts.qualified_names@, k) == Err::<NodeKindView, DiagView>(
                diag_view(d)),
        },
{
    match n {
        NodeKindToken::Initial => Ok(NodeKindBuild::Initial),
        NodeKindToken::ActivityFinal => Ok(NodeKindBuild::ActivityFinal),
        NodeKindToken::FlowFinal => Ok(NodeKindBuild::FlowFinal),
        NodeKindToken::Decision { decision_input } => Ok(NodeKindBuild::Decision { decision_input: some_clone(decision_input) }),
        NodeKindToken::Merge => Ok(NodeKindBuild::Merge),
        NodeKindToken::Fork => Ok(NodeKindBuild::Fork),
        NodeKindToken::Join { join_specification } => Ok(NodeKindBuild::Join {
            join_specification: some_clone(join_specification),
        }),
        NodeKindToken::OpaqueAction { body } => Ok(NodeKindBuild::OpaqueAction { body: body.clone() }),
        NodeKindToken::CallBehavior { activity } => match referenced(activity.as_str(), k) {
            Ok(e) => Ok(NodeKindBuild::CallBehavior { activity: e }),
            Err(d) => Err(d),
        },
        NodeKindToken::CallOperation { operation } => match resolve(operation.as_str(), facts, k) {
            Ok(r) => Ok(NodeKindBuild::CallOperation { operation: r }),
            Err(d) => Err(d),
        },
        NodeKindToken::SendSignal { signal } => match resolve(signal.as_str(), facts, k) {
            Ok(r) => Ok(NodeKindBuild::SendSignal { signal: r }),
            Err(d) => Err(d),
        },
        NodeKindToken::AcceptEvent { signal } => match resolve_opt(signal, facts, k) {
            Ok(r) => Ok(NodeKindBuild::AcceptEvent { signal: r }),
            Err(d) => Err(d),
        },
        NodeKindToken::AcceptTimeEvent { expression } => Ok(NodeKindBuild::AcceptTimeEvent { expression: expression.clone() }),
        NodeKindToken::Object { object_kind, type_ref, multiplicity, ordering, selection } => match resolve_opt(
            type_ref,
            facts,
            k,
        ) {
            Ok(r) => Ok(NodeKindBuild::Object {
                object_kind: object_kind.clone(),
                type_ref: r,
                multiplicity: multiplicity.clone(),
                ordering: ordering.clone(),
                selection: some_clone(selection),
            }),
            Err(d) => Err(d),
        },
        NodeKindToken::ActivityParameter { parameter } => match resolve(parameter.as_str(), facts, k) {
            Ok(r) => Ok(NodeKindBuild::ActivityParameter { parameter: r }),
            Err(d) => Err(d),
        },
    }
}

fn compile_node(
    k: usize,
    ns: &str,
    facts: &ProjectFacts,
    external_id: &String,
    activity: &String,
    name: &String,
    node: &NodeKindToken,
    partition: &Option<String>,
    structured_node: &Option<String>,
) -> (r: Result<(Vec<PlanOperation>, ModelScriptPreviewItem), ModelScriptDiagnostic>)
    ensures
        compiled_view(r) == node_spec(k, ns@, *facts, external_id@, activity@, name@, *node, opt_str(*partition),
            opt_str(*structured_node)),
{
    proof {
        lemma_empty_literal();
    }
    let kind = match resolve_node_kind(node, facts, k) {
        Ok(x) => x,
        Err(d) => { return Err(d); },
    };
    let existing = activity_lookup(facts, ns, external_id);
    let update = existing.is_some();
    if update {
        let found = existing.unwrap();
        if !is_kind(&found, "Node") {
            return Err(diag("", Some(k), Some("activity_node".to_owned()), Some(external_id.clone()),
                "WRONG_KIND_COLLISION", "External ID has another Activity semantic kind"));
        }
    }
    let first = if update { external_id } else { activity };
    let named = match referenced(first.as_str(), k) {
        Ok(e) => e,
        Err(d) => { return Err(d); },
    };
    let part = match referenced_opt(partition, k) {
        Ok(e) => e,
        Err(d) => { return Err(d); },
    };
    let within = match referenced_opt(structured_node, k) {
        Ok(e) => e,
        Err(d) => { return Err(d); },
    };
    let mut ops: Vec<PlanOperation> = Vec::new();
    let it;
    if update {
        ops.push(PlanOperation::UpdateNode { external_id: named, name: name.clone(), kind, partition: part,
            structured_node: within });
        it = item(k, ModelScriptAction::Update, "ActivityNode", Some(external_id.as_str()), Some(name.as_str()),
            "unified Activity repository");
    } else {
        ops.push(PlanOperation::CreateNode { external_id: external_id.clone(), activity: named, name: name.clone(), kind,
            partition: part, structured_node: within });
        it = item(k, ModelScriptAction::Create, "ActivityNode", Some(external_id.as_str()), Some(name.as_str()),
            "unified Activity repository");
    }
    assert(ops@.map_values(|o: PlanOperation| op_view(o)) =~= seq![op_view(ops@[0])]);
    Ok((ops, it))
}

fn compile_pin(
    k: usize,
    ns: &str,
    facts: &ProjectFacts,
    external_id: &String,
    owner_action: &String,
    name: &String,
    fields: PinFields,
    type_ref: &Option<String>,
    parameter: &Option<String>,
) -> (r: Result<(Vec<PlanOperation>, ModelScriptPreviewItem), ModelScriptDiagnostic>)
    ensures
        compiled_view(r) == pin_spec(k, ns@, *facts, external_id@, owner_action@, name@, pin_fields_view(fields),
            opt_str(*type_ref), opt_str(*parameter)),
{
    proof {
        lemma_empty_literal();
    }
    let t = match resolve_opt(type_ref, facts, k) {
        Ok(x) => x,
        Err(d) => { return Err(d); },
    };
    let p = match resolve_opt(parameter, facts, k) {
        Ok(x) => x,
        Err(d) => { return Err(d); },
    };
    let existing = activity_lookup(facts, ns, external_id);
    let update = existing.is_some();
    if update {
        let found = existing.unwrap();
        if !is_kind(&found, "Pin") {
            return Err(diag("", Some(k), Some("pin".to_owned()), Some(external_id.clone()),
                "WRONG_KIND_COLLISION", "External ID has another Activity semantic kind"));
        }
    }
    let first = if update { external_id } else { owner_action };
    let named = match referenced(first.as_str(), k) {
        Ok(e) => e,
        Err(d) => { return Err(d); },
    };
    let mut ops: Vec<PlanOperation> = Vec::new();
    let it;
    if update {
        ops.push(PlanOperation::UpdatePin { external_id: named, name: name.clone(), fields, type_ref: t, parameter: p });
        it = item(k, ModelScriptAction::Update, "Pin", Some(external_id.as_str()), Some(name.as_str()),
            "unified Activity repository");
    } else {
        ops.push(PlanOperation::CreatePin { external_id: external_id.clone(), owner_action: named, name: name.clone(),
            fields, type_ref: t, parameter: p });
        it = item(k, ModelScriptAction::Create, "Pin", Some(external_id.as_str()), Some(name.as_str()),
            "unified Activity repository");
    }
    assert(ops@.map_values(|o: PlanOperation| op_view(o)) =~= seq![op_view(ops@[0])]);
    Ok((ops, it))
}

fn resolve_vertex_kind(v: &VertexKindToken, k: usize) -> (r: Result<VertexKindBuild, ModelScriptDiagnostic>)
    ensures
        match r {
            Ok(x) => vertex_kind_spec(*v, k) == Ok::<VertexKindView, DiagView>(vertex_kind_view(x)),
            Err(d) => vertex_kind_spec(*v, k) == Err::<VertexKindView, DiagView>(diag_view(d)),
        },
{
    match v {
        VertexKindToken::State { entry, do_activity, exit, submachine } => {
            let sub = match referenced_opt(submachine, k) {
                Ok(e) => e,
                Err(d) => { return Err(d); },
            };
            Ok(VertexKindBuild::State { entry: some_clone(entry), do_activity: some_clone(do_activity),
                exit: some_clone(exit), submachine: sub })
        },
        VertexKindToken::FinalState => Ok(VertexKindBuild::FinalState),
        VertexKindToken::Pseudostate(p) => Ok(VertexKindBuild::Pseudostate(p.clone())),
    }
}

fn compile_vertex(
    k: usize,
    ns: &str,
    facts: &ProjectFacts,
    external_id: &String,
    region: &String,
    name: &String,
    vertex: &VertexKindToken,
) -> (r: Result<(Vec<PlanOperation>, ModelScriptPreviewItem), ModelScriptDiagnostic>)
    ensures
        compiled_view(r) == vertex_spec(k, ns@, *facts, external_id@, region@, name@, *vertex),
{
    proof {
        lemma_empty_literal();
    }
    let kind = match resolve_vertex_kind(vertex, k) {
        Ok(x) => x,
        Err(d) => { return Err(d); },
    };
    let existing = behavior_lookup(facts, ns, external_id);
    let update = existing.is_some();
    if update {
        let found = existing.unwrap();
        if !is_kind(&found, "Vertex") {
            return Err(diag("", Some(k), Some("vertex".to_owned()), Some(external_id.clone()),
                "WRONG_KIND_COLLISION", "External ID has another Behavior semantic kind"));
        }
    }
    let first = if update { external_id } else { region };
    let named = match referenced(first.as_str(), k) {
        Ok(e) => e,
        Err(d) => { return Err(d); },
    };
    let mut ops: Vec<PlanOperation> = Vec::new();
    let it;
    if update {
        ops.push(PlanOperation::UpdateVertex { external_id: named, name: name.clone(), kind });
        it = item(k, ModelScriptAction::Update, "Vertex", Some(external_id.as_str()), Some(name.as_str()),
            "unified Behavior repository");
    } else {
        ops.push(PlanOperation::CreateVertex { external_id: external_id.clone(), region: named, name: name.clone(), kind });
        it = item(k, ModelScriptAction::Create, "Vertex", Some(external_id.as_str()), Some(name.as_str()),
            "unified Behavior repository");
    }
    assert(ops@.map_values(|o: PlanOperation| op_view(o)) =~= seq![op_view(ops@[0])]);
    Ok((ops, it))
}

fn resolve_signature(s: &Option<SignatureToken>, facts: &ProjectFacts, k: usize) -> (r: Result<
    Option<MessageSignatureBuild>,
    ModelScriptDiagnostic,
>)
    ensures
        match r {
            Ok(x) => opt_signature_spec(*s, facts.root, facts.qualified_names@, k) == Ok::<
                Option<SignatureView>,
                DiagView,
            >(opt_signature_view(x)),
            Err(d) => opt_signature_spec(*s, facts.root, facts.qualified_names@, k) == Err::<
                Option<SignatureView>,
                DiagView,
            >(diag_view(d)),
        },
{
    match s {
        None => Ok(None),
        Some(SignatureToken::Operation(x)) => match resolve(x.as_str(), facts, k) {
            Ok(r) => Ok(Some(MessageSignatureBuild::Operation(r))),
            Err(d) => Err(d),
        },
        Some(SignatureToken::Signal(x)) => match resolve(x.as_str(), facts, k) {
            Ok(r) => Ok(Some(MessageSignatureBuild::Signal(r))),
            Err(d) => Err(d),
        },
    }
}

fn compile_message(
    k: usize,
    ns: &str,
    facts: &ProjectFacts,
    external_id: &String,
    interaction: &String,
    name: &String,
    sort: &String,
    send: &Option<String>,
    receive: &Option<String>,
    signature: &Option<SignatureToken>,
    arguments: &Vec<String>,
) -> (r: Result<(Vec<PlanOperation>, ModelScriptPreviewItem), ModelScriptDiagnostic>)
    ensures
        compiled_view(r) == message_spec(k, ns@, *facts, external_id@, interaction@, name@, sort@, opt_str(*send),
            opt_str(*receive), *signature, strs(arguments@)),
{
    proof {
        lemma_empty_literal();
    }
    let sig = match resolve_signature(signature, facts, k) {
        Ok(x) => x,
        Err(d) => { return Err(d); },
    };
    let from = match referenced_opt(send, k) {
        Ok(e) => e,
        Err(d) => { return Err(d); },
    };
    let to = match referenced_opt(receive, k) {
        Ok(e) => e,
        Err(d) => { return Err(d); },
    };
    let existing = behavior_lookup(facts, ns, external_id);
    let update = existing.is_some();
    if update {
        let found = existing.unwrap();
        if !is_kind(&found, "Message") {
            return Err(diag("", Some(k), Some("message".to_owned()), Some(external_id.clone()),
                "WRONG_KIND_COLLISION", "External ID has another Behavior semantic kind"));
        }
    }
    let first = if update { external_id } else { interaction };
    let named = match referenced(first.as_str(), k) {
        Ok(e) => e,
        Err(d) => { return Err(d); },
    };
    let mut ops: Vec<PlanOperation> = Vec::new();
    let it;
    if update {
        ops.push(PlanOperation::UpdateMessage { external_id: named, name: name.clone(), sort: sort.clone(), send: from,
            receive: to, signature: sig, arguments: copy_strings(arguments) });
        it = item(k, ModelScriptAction::Update, "Message", Some(external_id.as_str()), Some(name.as_str()),
            "unified Behavior repository");
    } else {
        ops.push(PlanOperation::CreateMessage { external_id: external_id.clone(), interaction: named, name: name.clone(),
            sort: sort.clone(), send: from, receive: to, signature: sig, arguments: copy_strings(arguments) });
        it = item(k, ModelScriptAction::Create, "Message", Some(external_id.as_str()), Some(name.as_str()),
            "unified Behavior repository");
    }
    assert(ops@.map_values(|o: PlanOperation| op_view(o)) =~= seq![op_view(ops@[0])]);
    Ok((ops, it))
}

fn statement_id_of(s: &ScriptStatement) -> (r: Option<String>)
    ensures
        r == statement_id(*s),
{
    match s {
        ScriptStatement::Element { external_id, .. } => Some(external_id.clone()),
        ScriptStatement::Relationship { external_id, .. } => Some(external_id.clone()),
        ScriptStatement::Connector { external_id, .. } => Some(external_id.clone()),
        ScriptStatement::ItemFlow { external_id, .. } => Some(external_id.clone()),
        ScriptStatement::Activity { external_id, .. } => Some(external_id.clone()),
        ScriptStatement::Behavior { external_id, .. } => Some(external_id.clone()),
        ScriptStatement::Region { external_id, .. } => Some(external_id.clone()),
        ScriptStatement::Lifeline { external_id, .. } => Some(external_id.clone()),
        ScriptStatement::OnLifeline { external_id, .. } => Some(external_id.clone()),
        ScriptStatement::Execution { external_id, .. } => Some(external_id.clone()),
        ScriptStatement::CombinedFragment { external_id, .. } => Some(external_id.clone()),
        ScriptStatement::Operand { external_id, .. } => Some(external_id.clone()),
        ScriptStatement::ActivityPartition { external_id, .. } => Some(external_id.clone()),
        ScriptStatement::StructuredActivityNode { external_id, .. } => Some(external_id.clone()),
        ScriptStatement::ActivityEdge { external_id, .. } => Some(external_id.clone()),
        ScriptStatement::Transition { external_id, .. } => Some(external_id.clone()),
        ScriptStatement::Binding { external_id, .. } => Some(external_id.clone()),
        ScriptStatement::Vertex { external_id, .. } => Some(external_id.clone()),
        ScriptStatement::Message { external_id, .. } => Some(external_id.clone()),
        ScriptStatement::ActivityNode { external_id, .. } => Some(external_id.clone()),
        ScriptStatement::Pin { external_id, .. } => Some(external_id.clone()),
        ScriptStatement::Deferred { external_id } => match external_id {
            Some(x) => Some(x.clone()),
            None => None,
        },
    }
}

/// Append `ops` to `operations`, each tagged with statement number `k`.
fn append_tagged(operations: &mut Vec<PlanOperation>, statements: &mut Vec<usize>, ops: Vec<PlanOperation>, k: usize)
    ensures
        final(operations)@.map_values(|o: PlanOperation| op_view(o)) == old(operations)@.map_values(
            |o: PlanOperation| op_view(o)) + ops@.map_values(|o: PlanOperation| op_view(o)),
        final(statements)@ == old(statements)@ + Seq::new(ops@.len(), |x: int| k),
{
    let mut ops = ops;
    let ghost ops0 = ops@;
    let ghost ps0 = statements@;
    let ghost os0 = operations@;
    let mut j: usize = 0;
    while j < ops.len()
        invariant
            j <= ops@.len(),
            ops@ == ops0,
            operations@ == os0,
            statements@ == ps0 + Seq::new(j as nat, |x: int| k),
        decreases ops.len() - j,
    {
        statements.push(k);
        assert(statements@ =~= ps0 + Seq::new((j + 1) as nat, |x: int| k));
        j = j + 1;
    }
    operations.append(&mut ops);
    assert(operations@.map_values(|o: PlanOperation| op_view(o)) =~= os0.map_values(|o: PlanOperation| op_view(o))
        + ops0.map_values(|o: PlanOperation| op_view(o)));
}

/// Compile the statements of the script `script_name` whose source namespace
/// is `namespace` against the facts `project`: the External IDs are screened,
/// every other statement is reconciled and compiled in order (see
/// [`compile_spec`]), and parametric metadata is deferred. Any diagnostic refuses the script,
/// and all of them are reported in statement order.
pub fn compile_statements(
    script_name: &str,
    namespace: &str,
    statements: &Vec<ScriptStatement>,
    project: &ProjectFacts,
) -> (r: Result<CompiledPlan, Vec<ModelScriptDiagnostic>>)
    requires
        statements@.len() < usize::MAX,
    ensures
        match (r, compile_spec(script_name@, namespace@, statements@, *project)) {
            (Ok(p), Ok(v)) => plan_view(p) == v,
            (Err(ds), Err(vs)) => diags_view(ds@) == vs,
            _ => false,
        },
{
    let ghost ss = statements@;
    let ns_chars = trimmed(chars_of(namespace).as_slice());
    if ns_chars.len() == 0 {
        let mut ds: Vec<ModelScriptDiagnostic> = Vec::new();
        ds.push(diag(script_name, None, Some("compile".to_owned()), None, "SOURCE_NAMESPACE_REQUIRED",
            "source_namespace must not be blank"));
        assert(diags_view(ds@) =~= seq![diag_of(script_name@, None, "compile"@, None,
            "SOURCE_NAMESPACE_REQUIRED"@, "source_namespace must not be blank"@)]);
        return Err(ds);
    }
    let ns = string_from_chars(ns_chars.as_slice());
    let ghost nsv = ns@;
    let n = statements.len();
    let mut ids: Vec<Option<String>> = Vec::new();
    let mut i: usize = 0;
    while i < n
        invariant
            n == ss.len(),
            ss == statements@,
            i <= n,
            ids@ == statement_ids(ss).take(i as int),
        decreases n - i,
    {
        ids.push(statement_id_of(&statements[i]));
        assert(ids@ =~= statement_ids(ss).take(i + 1));
        i = i + 1;
    }
    assert(ids@ =~= statement_ids(ss));
    let mut screens = screen_external_ids(script_name, ids.as_slice());
    let ghost all_screens = screens@;
    let mut operations: Vec<PlanOperation> = Vec::new();
    let mut plan_statements: Vec<usize> = Vec::new();
    let mut specialized: Vec<PlanOperation> = Vec::new();
    let mut specialized_statements: Vec<usize> = Vec::new();
    let mut items: Vec<ModelScriptPreviewItem> = Vec::new();
    let mut deferred: Vec<usize> = Vec::new();
    let mut diagnostics: Vec<ModelScriptDiagnostic> = Vec::new();
    let mut i: usize = 0;
    while i < n
        invariant
            n == ss.len() < usize::MAX,
            ss == statements@,
            ids@ == statement_ids(ss),
            nsv == ns@,
            nsv == trim(namespace@),
            i <= n,
            all_screens.len() == n,
            screens@ == all_screens.skip(i as int),
            forall|j: int|
                0 <= j < n ==> match (#[trigger] all_screens[j], screening_code(ids@, j)) {
                    (None, None) => true,
                    (Some(d), Some(code)) => d.code@ == code && d.script@ == script_name@
                        && d.statement == Some((j + 1) as usize) && opt_str(d.operation) == Some("compile"@)
                        && opt_str(d.external_id) == opt_str(ids@[j]) && d.line is None
                        && d.semantic_name is None && d.reason@ == screening_reason(code),
                    _ => false,
                },
            operations@.map_values(|o: PlanOperation| op_view(o)) == compile_prefix(script_name@, nsv, ss, *project, i as int).operations,
            plan_statements@ == compile_prefix(script_name@, nsv, ss, *project, i as int).plan_statements,
            specialized@.map_values(|o: PlanOperation| op_view(o)) == compile_prefix(script_name@, nsv, ss, *project, i as int).specialized,
            specialized_statements@ == compile_prefix(script_name@, nsv, ss, *project, i as int).specialized_statements,
            items@.map_values(|x: ModelScriptPreviewItem| item_view(x)) == compile_prefix(script_name@, nsv, ss, *project, i as int).items,
            deferred@ == compile_prefix(script_name@, nsv, ss, *project, i as int).deferred,
            diags_view(diagnostics@) == compile_prefix(script_name@, nsv, ss, *project, i as int).diagnostics,
        decreases n - i,
    {
        let k = i + 1;
        let ghost acc = compile_prefix(script_name@, nsv, ss, *project, i as int);
        assert(all_screens.skip(i as int)[0] == all_screens[i as int]);
        let screen = screens.remove(0);
        assert(screens@ =~= all_screens.skip(i + 1));
        match screen {
            Some(d) => {
                let ghost before = diagnostics@;
                diagnostics.push(d);
                assert(diags_view(diagnostics@) =~= diags_view(before).push(diag_view(d)));
            },
            None => {
                match &statements[i] {
                    ScriptStatement::Deferred { .. } => {
                        deferred.push(k);
                    },
                    _ => {
                        let r = match &statements[i] {
                            ScriptStatement::Element { external_id, kind, name, owner, type_ref, optional_fields } =>
                                compile_element(k, ns.as_str(), project, external_id, kind, name, owner, type_ref, *optional_fields),
                            ScriptStatement::Relationship { external_id, kind, source, target, owner, name, optional_fields } =>
                                compile_relationship(k, ns.as_str(), project, external_id, kind, source, target, owner, name, *optional_fields),
                            ScriptStatement::Connector { external_id, context, kind, source_path, target_path, name } =>
                                compile_connector(k, ns.as_str(), project, external_id, context, kind, source_path, target_path, name),
                            ScriptStatement::ItemFlow { external_id, connector, source_path, target_path, conveyed_items, name } =>
                                compile_item_flow(k, ns.as_str(), project, external_id, connector, source_path, target_path, conveyed_items, name),
                            ScriptStatement::Activity { external_id, name, owner, context } =>
                                compile_activity(k, ns.as_str(), project, external_id, name, owner, context),
                            ScriptStatement::Behavior { family, external_id, name, context } =>
                                compile_behavior(k, ns.as_str(), project, *family, external_id, name, context),
                            ScriptStatement::Region { external_id, name, state_machine, state } =>
                                compile_region(k, ns.as_str(), project, external_id, name, state_machine, state),
                            ScriptStatement::Lifeline { external_id, interaction, name, represented_path } =>
                                compile_lifeline(k, ns.as_str(), project, external_id, interaction, name, represented_path),
                            ScriptStatement::OnLifeline { external_id, interaction, lifeline, order, constraint } =>
                                compile_on_lifeline(k, ns.as_str(), project, external_id, interaction, lifeline, *order, constraint),
                            ScriptStatement::Execution { external_id, interaction, lifeline, start, finish, behavior } =>
                                compile_execution(k, ns.as_str(), project, external_id, interaction, lifeline, start, finish, behavior),
                            ScriptStatement::CombinedFragment { external_id, interaction, operator, covered_lifelines } =>
                                compile_fragment(k, ns.as_str(), project, external_id, interaction, operator, covered_lifelines),
                            ScriptStatement::Operand { external_id, fragment, guard, start_order, end_order } =>
                                compile_operand(k, ns.as_str(), project, external_id, fragment, guard, *start_order, *end_order),
                            ScriptStatement::ActivityPartition { external_id, activity, name, represented_element, is_dimension, is_external } =>
                                compile_partition(k, ns.as_str(), project, external_id, activity, name, represented_element,
                                    *is_dimension, *is_external),
                            ScriptStatement::StructuredActivityNode { external_id, activity, name, kind, parent } =>
                                compile_structured_node(k, ns.as_str(), project, external_id, activity, name, kind, parent),
                            ScriptStatement::ActivityEdge {
                                external_id, activity, name, kind, source, target, source_is_pin, target_is_pin, texts,
                                interrupting_region,
                            } => compile_edge(k, ns.as_str(), project, external_id, activity, name, kind, source, target,
                                *source_is_pin, *target_is_pin, texts, interrupting_region),
                            ScriptStatement::Transition { external_id, region, source, target, kind, trigger, guard, effect } =>
                                compile_transition(k, ns.as_str(), project, external_id, region, source, target, kind,
                                    trigger, guard, effect),
                            ScriptStatement::Binding { external_id, name, owner, source, target } =>
                                compile_binding(k, ns.as_str(), project, external_id, name, owner, source, target),
                            ScriptStatement::Vertex { external_id, region, name, vertex } =>
                                compile_vertex(k, ns.as_str(), project, external_id, region, name, vertex),
                            ScriptStatement::Pin {
                                external_id, owner_action, name, direction, type_ref, multiplicity, is_ordered, is_unique,
                                value, parameter,
                            } => compile_pin(k, ns.as_str(), project, external_id, owner_action, name, PinFields {
                                direction: direction.clone(),
                                multiplicity: multiplicity.clone(),
                                is_ordered: *is_ordered,
                                is_unique: *is_unique,
                                value: some_clone(value),
                            }, type_ref, parameter),
                            ScriptStatement::ActivityNode { external_id, activity, name, node, partition, structured_node } =>
                                compile_node(k, ns.as_str(), project, external_id, activity, name, node, partition,
                                    structured_node),
                            ScriptStatement::Message { external_id, interaction, name, sort, send, receive, signature, arguments } =>
                                compile_message(k, ns.as_str(), project, external_id, interaction, name, sort, send,
                                    receive, signature, arguments),
                            ScriptStatement::Deferred { .. } => {
                                assert(false);
                                Err(diag("", None, None, None, "", ""))
                            },
                        };
                        assert(statement_spec(ss[i as int], k, nsv, *project) == Some(compiled_view(r)));
                        match r {
                            Err(d) => {
                                let mut d = d;
                                d.script = script_name.to_owned();
                                let ghost before = diagnostics@;
                                diagnostics.push(d);
                                assert(diags_view(diagnostics@) =~= diags_view(before).push(diag_view(d)));
                            },
                            Ok((ops, it)) => {
                                let ghost is0 = items@;
                                let special = match &statements[i] {
                                    ScriptStatement::Activity { .. } | ScriptStatement::Behavior { .. }
                                    | ScriptStatement::Region { .. } | ScriptStatement::Lifeline { .. }
                                    | ScriptStatement::OnLifeline { .. } | ScriptStatement::Execution { .. }
                                    | ScriptStatement::CombinedFragment { .. } | ScriptStatement::Operand { .. }
                                    | ScriptStatement::ActivityPartition { .. } | ScriptStatement::StructuredActivityNode { .. }
                                    | ScriptStatement::ActivityEdge { .. } | ScriptStatement::Transition { .. }
                                    | ScriptStatement::Binding { .. } | ScriptStatement::Vertex { .. }
                                    | ScriptStatement::Message { .. } | ScriptStatement::ActivityNode { .. }
                                    | ScriptStatement::Pin { .. } => true,
                                    _ => false,
                                };
                                if special {
                                    append_tagged(&mut specialized, &mut specialized_statements, ops, k);
                                } else {
                                    append_tagged(&mut operations, &mut plan_statements, ops, k);
                                }
                                items.push(it);
                                assert(items@.map_values(|x: ModelScriptPreviewItem| item_view(x)) =~= is0.map_values(
                                    |x: ModelScriptPreviewItem| item_view(x)).push(item_view(it)));
                            },
                        }
                    },
                }
            },
        }
        i = i + 1;
    }
    let ghost fin = compile_prefix(script_name@, nsv, ss, *project, n as int);
    if diagnostics.len() > 0 {
        return Err(diagnostics);
    }
    let ghost os0 = operations@;
    let ghost ps0 = plan_statements@;
    operations.append(&mut specialized);
    plan_statements.append(&mut specialized_statements);
    assert(operations@.map_values(|o: PlanOperation| op_view(o)) =~= os0.map_values(|o: PlanOperation| op_view(o))
        + fin.specialized);
    let p = CompiledPlan { operations, plan_statements, items, deferred };
    assert(fin.diagnostics =~= Seq::<DiagView>::empty());
    Ok(p)
}

/// Preview a script: compile its statements against `project`, then report
/// the compiled lines followed by one line per diagram request, or every
/// diagnostic. A preview is never applied.
pub fn preview_statements(
    script_name: &str,
    namespace: &str,
    statements: &Vec<ScriptStatement>,
    diagrams: Vec<ScriptDiagram>,
    project: &ProjectFacts,
) -> (p: ModelScriptPreview)
    requires
        statements@.len() + diagrams@.len() < usize::MAX,
    ensures
        !p.applied,
        p.host@ == script_host(),
        match compile_spec(script_name@, namespace@, statements@, *project) {
            Err(vs) => diags_view(p.diagnostics@) == vs && p.items@.len() == 0,
            Ok(v) => {
                &&& p.diagnostics@.len() == 0
                &&& p.source_namespace@ == namespace@
                &&& p.items@.len() == v.items.len() + diagrams@.len()
                &&& p.items@.take(v.items.len() as int).map_values(|x: ModelScriptPreviewItem| item_view(x)) == v.items
                &&& forall|k: int|
                    0 <= k < diagrams@.len() ==> diagram_item_ok(
                        #[trigger] p.items@[v.items.len() + k],
                        statements@.len() as int,
                        k,
                        diagrams@[k],
                    )
            },
        },
{
    match compile_statements(script_name, namespace, statements, project) {
        Ok(plan) => {
            let ghost n = plan.items@.len();
            let compiled = CompiledScript {
                source_namespace: namespace.to_owned(),
                operation_count: statements.len(),
                items: plan.items,
                diagrams,
            };
            let p = preview_impl(Ok(compiled));
            assert(p.items@.take(n as int) == compiled.items@);
            p
        },
        Err(ds) => preview_impl(Err(ds)),
    }
}

/// An element statement is left unchanged only when its namespaced External
/// ID names exactly one element, of the statement's kind and name, and the
/// statement gives no type and no optional field; it then adds no operation.
pub proof fn lemma_unchanged_element_matches(
    k: usize,
    namespace: Seq<char>,
    facts: ProjectFacts,
    external_id: Seq<char>,
    kind: Seq<char>,
    name: Seq<char>,
    owner: Seq<char>,
    type_ref: Option<Seq<char>>,
    optional_fields: bool,
)
    ensures
        match element_spec(k, namespace, facts, external_id, kind, name, owner, type_ref, optional_fields) {
            Ok((ops, it)) => if it.action == ModelScriptAction::NoChange {
                let rs = facts.elements@;
                let ex = records_with(rs, external_key(namespace, external_id), rs.len() as int);
                &&& ex.len() == 1
                &&& rs[ex[0]].kind@ == kind
                &&& rs[ex[0]].name@ == name
                &&& type_ref is None
                &&& !optional_fields
                &&& ops.len() == 0
            } else {
                ops.len() >= 1
            },
            Err(_) => true,
        },
{
}

/// A relationship statement is left unchanged only when its namespaced
/// External ID names exactly one relationship of its kind and the statement
/// gives no name and no optional field; it then adds no operation.
pub proof fn lemma_unchanged_relationship_matches(
    k: usize,
    namespace: Seq<char>,
    facts: ProjectFacts,
    external_id: Seq<char>,
    kind: Seq<char>,
    source: Seq<char>,
    target: Seq<char>,
    owner: Option<Seq<char>>,
    name: Option<Seq<char>>,
    optional_fields: bool,
)
    ensures
        match relationship_spec(k, namespace, facts, external_id, kind, source, target, owner, name, optional_fields) {
            Ok((ops, it)) => if it.action == ModelScriptAction::NoChange {
                let rs = facts.relationships@;
                let ex = records_with(rs, external_key(namespace, external_id), rs.len() as int);
                &&& ex.len() == 1
                &&& rs[ex[0]].kind@ == kind
                &&& name is None
                &&& !optional_fields
                &&& ops.len() == 0
            } else {
                ops.len() >= 1
            },
            Err(_) => true,
        },
{
}

/// An element statement that gives a type reference is never left
/// unchanged: it creates the element or updates it, and whenever its
/// namespaced External ID names one element of its kind (and its owner and
/// type resolve) it updates that element with the resolved type.
pub proof fn lemma_typed_element_is_updated(
    k: usize,
    namespace: Seq<char>,
    facts: ProjectFacts,
    external_id: Seq<char>,
    kind: Seq<char>,
    name: Seq<char>,
    owner: Seq<char>,
    type_ref: Seq<char>,
    optional_fields: bool,
)
    ensures
        element_spec(k, namespace, facts, external_id, kind, name, owner, Some(type_ref), optional_fields) matches Ok(
            (ops, it)) ==> it.action != ModelScriptAction::NoChange && ops.len() >= 1,
        ({
            let rs = facts.elements@;
            let ex = records_with(rs, external_key(namespace, external_id), rs.len() as int);
            ex.len() == 1 && rs[ex[0]].kind@ == kind
        }) ==> match (ref_spec(owner, facts.root, facts.qualified_names@, k), ref_spec(type_ref, facts.root,
            facts.qualified_names@, k)) {
            (Ok(o), Ok(t)) => element_spec(k, namespace, facts, external_id, kind, name, owner, Some(type_ref),
                optional_fields) matches Ok((ops, it)) && it.action == ModelScriptAction::Update && ops
                == seq![OpView::UpdateElementFields { external_id, name: Some(name), owner: Some(o), type_ref: Some(t) }],
            _ => element_spec(k, namespace, facts, external_id, kind, name, owner, Some(type_ref), optional_fields) is Err,
        },
{
}

} // verus!
