//! Feature semantics a BDD edit can set: aggregation, parameter and flow
//! direction, and multiplicity bounds.

use vstd::prelude::*;
use crate::text::{chars_eq, chars_of, parse_u32, parse_u32_spec, slice_copy, trim, trimmed};

verus! {

/// How a part or reference property aggregates its values.
#[derive(Debug, Clone, Copy, PartialEq, Eq, Structural)]
pub enum AggregationKind {
    /// No aggregation (`none`).
    NoAggregation,
    Shared,
    Composite,
}

/// Direction of an operation parameter.
#[derive(Debug, Clone, Copy, PartialEq, Eq, Structural)]
pub enum ParameterDirection {
    In,
    Out,
    InOut,
    Return,
}

/// Direction of a flow property.
#[derive(Debug, Clone, Copy, PartialEq, Eq, Structural)]
pub enum FlowDirection {
    In,
    Out,
    InOut,
}

/// Lower and optional upper bound of a multiplicity (`None` is `*`).
#[derive(Debug, Clone, Copy, PartialEq, Eq, Structural)]
pub struct Multiplicity {
    pub lower: u32,
    pub upper: Option<u32>,
}

/// Bounds a multiplicity may take: an upper bound is never below the lower one.
pub open spec fn multiplicity_ok(lower: u32, upper: Option<u32>) -> bool {
    match upper {
        Some(u) => lower <= u,
        None => true,
    }
}

impl Multiplicity {
    /// Exactly one.
    pub fn one() -> (m: Multiplicity)
        ensures
            m == (Multiplicity { lower: 1, upper: Some(1u32) }),
    {
        Multiplicity { lower: 1, upper: Some(1) }
    }

    /// A multiplicity with the given bounds, or `None` when the upper bound is
    /// below the lower one.
    pub fn new(lower: u32, upper: Option<u32>) -> (m: Option<Multiplicity>)
        ensures
            m == (if multiplicity_ok(lower, upper) {
                Some(Multiplicity { lower, upper })
            } else {
                None
            }),
    {
        match upper {
            Some(u) => if lower <= u {
                Some(Multiplicity { lower, upper })
            } else {
                None
            },
            None => Some(Multiplicity { lower, upper }),
        }
    }
}

/// The aggregation named by an edit value.
pub open spec fn aggregation_spec(value: Seq<char>) -> Option<AggregationKind> {
    if value == "none"@ {
        Some(AggregationKind::NoAggregation)
    } else if value == "shared"@ {
        Some(AggregationKind::Shared)
    } else if value == "composite"@ {
        Some(AggregationKind::Composite)
    } else {
        None
    }
}

/// The parameter direction named by an edit value.
pub open spec fn parameter_direction_spec(value: Seq<char>) -> Option<ParameterDirection> {
    if value == "in"@ {
        Some(ParameterDirection::In)
    } else if value == "out"@ {
        Some(ParameterDirection::Out)
    } else if value == "inout"@ {
        Some(ParameterDirection::InOut)
    } else if value == "return"@ {
        Some(ParameterDirection::Return)
    } else {
        None
    }
}

/// The flow direction named by an edit value.
pub open spec fn flow_direction_spec(value: Seq<char>) -> Option<FlowDirection> {
    if value == "in"@ {
        Some(FlowDirection::In)
    } else if value == "out"@ {
        Some(FlowDirection::Out)
    } else if value == "inout"@ {
        Some(FlowDirection::InOut)
    } else {
        None
    }
}

/// `prefix` followed by `value`, as an error message.
fn message(prefix: &str, value: &str) -> (m: String)
    ensures
        m@ == prefix@ + value@,
{
    let mut m = prefix.to_owned();
    m.append(value);
    m
}

/// Parse an aggregation edit value (`none`, `shared` or `composite`).
pub fn parse_aggregation(value: &str) -> (r: Result<AggregationKind, String>)
    ensures
        match r {
            Ok(k) => aggregation_spec(value@) == Some(k),
            Err(m) => aggregation_spec(value@) is None && m@ == "invalid aggregation: "@ + value@,
        },
{
    let v = chars_of(value);
    if chars_eq(v.as_slice(), chars_of("none").as_slice()) {
        Ok(AggregationKind::NoAggregation)
    } else if chars_eq(v.as_slice(), chars_of("shared").as_slice()) {
        Ok(AggregationKind::Shared)
    } else if chars_eq(v.as_slice(), chars_of("composite").as_slice()) {
        Ok(AggregationKind::Composite)
    } else {
        Err(message("invalid aggregation: ", value))
    }
}


/// Parse a parameter direction edit value (`in`, `out`, `inout` or `return`).
pub fn parse_parameter_direction(value: &str) -> (r: Result<ParameterDirection, String>)
    ensures
        match r {
            Ok(k) => parameter_direction_spec(value@) == Some(k),
            Err(m) => parameter_direction_spec(value@) is None && m@
                == "invalid parameter direction: "@ + value@,
        },
{
    let v = chars_of(value);
    if chars_eq(v.as_slice(), chars_of("in").as_slice()) {
        Ok(ParameterDirection::In)
    } else if chars_eq(v.as_slice(), chars_of("out").as_slice()) {
        Ok(ParameterDirection::Out)
    } else if chars_eq(v.as_slice(), chars_of("inout").as_slice()) {
        Ok(ParameterDirection::InOut)
    } else if chars_eq(v.as_slice(), chars_of("return").as_slice()) {
        Ok(ParameterDirection::Return)
    } else {
        Err(message("invalid parameter direction: ", value))
    }
}

/// Parse a flow direction edit value (`in`, `out` or `inout`).
pub fn parse_flow_direction(value: &str) -> (r: Result<FlowDirection, String>)
    ensures
        match r {
            Ok(k) => flow_direction_spec(value@) == Some(k),
            Err(m) => flow_direction_spec(value@) is None && m@ == "invalid flow direction: "@
                + value@,
        },
{
    let v = chars_of(value);
    if chars_eq(v.as_slice(), chars_of("in").as_slice()) {
        Ok(FlowDirection::In)
    } else if chars_eq(v.as_slice(), chars_of("out").as_slice()) {
        Ok(FlowDirection::Out)
    } else if chars_eq(v.as_slice(), chars_of("inout").as_slice()) {
        Ok(FlowDirection::InOut)
    } else {
        Err(message("invalid flow direction: ", value))
    }
}

/// Why a multiplicity text is rejected.
#[derive(Debug, Clone, Copy, PartialEq, Eq, Structural)]
pub enum MultiplicityError {
    /// The text before `..` is not a `u32`.
    LowerBound,
    /// The text after `..` is neither `*` nor a `u32`.
    UpperBound,
    /// The text has no `..` and is neither `*` nor a `u32`.
    Format,
    /// The upper bound is below the lower bound.
    Bounds,
}

/// Index of the first `..` at or after `i`, or `-1`.
pub open spec fn dotdot_from(s: Seq<char>, i: int) -> int
    decreases s.len() - i,
{
    if i < 0 || i + 1 >= s.len() {
        -1
    } else if s[i] == '.' && s[i + 1] == '.' {
        i
    } else {
        dotdot_from(s, i + 1)
    }
}

/// The multiplicity a text denotes: `*`, `N`, `N..M` or `N..*`, the parts
/// trimmed; the text is split at its first `..`.
pub open spec fn multiplicity_spec(value: Seq<char>) -> Result<Multiplicity, MultiplicityError> {
    let v = trim(value);
    if v == seq!['*'] {
        Ok(Multiplicity { lower: 0, upper: None })
    } else {
        let k = dotdot_from(v, 0);
        if k >= 0 {
            match parse_u32_spec(trim(v.take(k))) {
                None => Err(MultiplicityError::LowerBound),
                Some(lower) => {
                    let u = trim(v.skip(k + 2));
                    let upper = if u == seq!['*'] {
                        Some(None)
                    } else {
                        match parse_u32_spec(u) {
                            Some(x) => Some(Some(x)),
                            None => None,
                        }
                    };
                    match upper {
                        None => Err(MultiplicityError::UpperBound),
                        Some(upper) => if multiplicity_ok(lower, upper) {
                            Ok(Multiplicity { lower, upper })
                        } else {
                            Err(MultiplicityError::Bounds)
                        },
                    }
                },
            }
        } else {
            match parse_u32_spec(v) {
                None => Err(MultiplicityError::Format),
                Some(exact) => Ok(Multiplicity { lower: exact, upper: Some(exact) }),
            }
        }
    }
}

fn is_star(v: &[char]) -> (r: bool)
    ensures
        r == (v@ == seq!['*']),
{
    let r = v.len() == 1 && v[0] == '*';
    proof {
        if v@.len() == 1 && v@[0] == '*' {
            assert(v@ =~= seq!['*']);
        }
    }
    r
}

/// Parse a multiplicity text such as `0..*`, `4`, `2..5` or `*`.
pub fn parse_multiplicity(value: &str) -> (r: Result<Multiplicity, MultiplicityError>)
    ensures
        r == multiplicity_spec(value@),
{
    let raw = chars_of(value);
    let v = trimmed(raw.as_slice());
    if is_star(v.as_slice()) {
        return Ok(Multiplicity { lower: 0, upper: None });
    }
    let n = v.len();
    let mut k: usize = 0;
    while k < n && k + 1 < n && !(v[k] == '.' && v[k + 1] == '.')
        invariant
            k <= n == v@.len(),
            dotdot_from(v@, 0) == dotdot_from(v@, k as int),
        decreases n - k,
    {
        k = k + 1;
    }
    if k < n && k + 1 < n {
        let head = slice_copy(v.as_slice(), 0, k);
        let tail = slice_copy(v.as_slice(), k + 2, n);
        assert(head@ == v@.take(k as int));
        assert(tail@ == v@.skip(k + 2));
        let lower = match parse_u32(trimmed(head.as_slice()).as_slice()) {
            None => {
                return Err(MultiplicityError::LowerBound);
            },
            Some(x) => x,
        };
        let u = trimmed(tail.as_slice());
        let upper = if is_star(u.as_slice()) {
            None
        } else {
            match parse_u32(u.as_slice()) {
                None => {
                    return Err(MultiplicityError::UpperBound);
                },
                Some(x) => Some(x),
            }
        };
        match Multiplicity::new(lower, upper) {
            Some(m) => Ok(m),
            None => Err(MultiplicityError::Bounds),
        }
    } else {
        match parse_u32(v.as_slice()) {
            None => Err(MultiplicityError::Format),
            Some(exact) => Ok(Multiplicity { lower: exact, upper: Some(exact) }),
        }
    }
}

} // verus!
