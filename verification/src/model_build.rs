//! Construction requests of the unified model build plan that model scripts
//! and bulk imports compile into.

use vstd::prelude::*;

verus! {

/// Identity of a semantic element (the 128 bits of its UUID, most significant
/// byte first).
#[derive(Debug, Clone, Copy, PartialEq, Eq, Structural, Hash)]
pub struct ElementId(pub u128);

/// A reference to an element that already exists, or to one named by the
/// External ID (or plan-local handle) of a build request.
#[derive(Debug, Clone)]
pub enum BuildReference<T> {
    Existing(T),
    External(String),
}

/// A reference to a semantic element.
pub type ElementReference = BuildReference<ElementId>;

/// The event that fires a state-machine transition.
#[derive(Debug, Clone)]
pub enum TriggerBuild {
    Signal(ElementReference),
    Call(ElementReference),
    Time { expression: String, is_relative: bool },
    Change { expression: String },
    AnyReceive,
}

/// The operation or signal a sequence message invokes.
#[derive(Debug, Clone)]
pub enum MessageSignatureBuild {
    Operation(ElementReference),
    Signal(ElementReference),
}

/// One end of a binding connector: a role and optionally a parameter of it.
#[derive(Debug, Clone)]
pub struct BindingEndpointBuild {
    pub role: ElementReference,
    pub parameter: Option<ElementReference>,
}

/// The store a build request goes to: the project itself, or one of the
/// behavior and parametric stores built after it.
#[derive(Debug, Clone, Copy, PartialEq, Eq, Structural)]
pub enum BuildOperationFamily {
    /// Element, relationship, connector, item flow or diagram requests.
    Project,
    Activity,
    StateMachine,
    Sequence,
    Parametric,
}

/// Whether requests of this family are behavior or parametric requests, which
/// are built after every project request.
pub open spec fn is_behavior_family(f: BuildOperationFamily) -> bool {
    f != BuildOperationFamily::Project
}

/// Whether a request of family `operation` belongs to a behavior or parametric store.
pub fn is_behavior_operation(operation: &BuildOperationFamily) -> (r: bool)
    ensures
        r == is_behavior_family(*operation),
{
    match operation {
        BuildOperationFamily::Activity | BuildOperationFamily::StateMachine
        | BuildOperationFamily::Sequence | BuildOperationFamily::Parametric => true,
        BuildOperationFamily::Project => false,
    }
}

/// The position of the first behavior or parametric request among the first
/// `n` requests, or `n` when there is none.
pub open spec fn first_behavior(fs: Seq<BuildOperationFamily>, n: int) -> int
    decreases n,
{
    if n <= 0 {
        0
    } else if first_behavior(fs, n - 1) < n - 1 {
        first_behavior(fs, n - 1)
    } else if is_behavior_family(fs[n - 1]) {
        n - 1
    } else {
        n
    }
}

/// The split of a unified plan whose requests have the families `fs`: the
/// position of its first behavior or parametric request (the length when
/// there is none), provided every request from there on is one too;
/// otherwise the plan is out of order.
pub open spec fn build_order_spec(fs: Seq<BuildOperationFamily>) -> Option<int> {
    let f = first_behavior(fs, fs.len() as int);
    if forall|i: int| f <= i < fs.len() ==> is_behavior_family(#[trigger] fs[i]) {
        Some(f)
    } else {
        None
    }
}

/// The code and message of a unified plan whose project requests do not all
/// come first.
pub open spec fn build_order_error() -> (Seq<char>, Seq<char>) {
    ("BUILD_ORDER_INVALID"@,
        "unified plans require ordinary Project operations before specialized repository operations"@)
}

/// Split a unified plan, given its requests' families: project requests must
/// all come before the behavior and parametric ones. Returns the position of
/// the first behavior or parametric request, or the code and message of the
/// refusal.
pub fn build_order(families: &[BuildOperationFamily]) -> (r: Result<usize, (String, String)>)
    ensures
        match r {
            Ok(f) => build_order_spec(families@) == Some(f as int),
            Err((code, message)) => build_order_spec(families@) is None && (code@, message@)
                == build_order_error(),
        },
{
    let n = families.len();
    let mut first: usize = 0;
    while first < n && !is_behavior_operation(&families[first])
        invariant
            first <= n == families@.len(),
            first_behavior(families@, first as int) == first,
            forall|i: int| 0 <= i < first ==> !is_behavior_family(#[trigger] families@[i]),
        decreases n - first,
    {
        first = first + 1;
    }
    let ghost f = first;
    proof {
        lemma_first_behavior_stays(families@, f as int, n as int);
    }
    let mut i = first;
    while i < n
        invariant
            f <= i <= n == families@.len(),
            first_behavior(families@, n as int) == f,
            forall|j: int| f <= j < i ==> is_behavior_family(#[trigger] families@[j]),
        decreases n - i,
    {
        if !is_behavior_operation(&families[i]) {
            assert(!is_behavior_family(families@[i as int]));
            return Err((
                "BUILD_ORDER_INVALID".to_owned(),
                "unified plans require ordinary Project operations before specialized repository operations".to_owned(),
            ));
        }
        i = i + 1;
    }
    Ok(first)
}

/// Once the first behavior request is found (or the requests end), longer
/// prefixes keep it.
proof fn lemma_first_behavior_stays(fs: Seq<BuildOperationFamily>, f: int, n: int)
    requires
        0 <= f <= n <= fs.len(),
        first_behavior(fs, f) == f,
        forall|i: int| 0 <= i < f ==> !is_behavior_family(#[trigger] fs[i]),
        f < n ==> is_behavior_family(fs[f]),
    ensures
        first_behavior(fs, n) == f,
    decreases n,
{
    if n > f {
        if n - 1 > f {
            lemma_first_behavior_stays(fs, f, n - 1);
        }
    }
}

} // verus!
