//! The allocation rules every internal block diagram keeps: occurrence
//! selections follow the property path, each selected range lies inside its
//! definition's multiplicity, and the groups of one population carry distinct
//! names and do not overlap.

use vstd::prelude::*;
use crate::features::Multiplicity;
use crate::ids::{parse_element_id, uuid_parse};
use crate::model_build::ElementId;
use crate::occurrences::{
    OccurrenceRange, PropertyOccurrence, range_at, range_at_spec, range_get, same_prefix,
    same_prefix_spec,
};
use crate::text::{chars_of, opt_str, push_text, opt_string_eq, string_from_chars, strings_eq, strs, trim, trimmed};

verus! {

/// A semantic property definition as the allocation rules read it: its
/// identity, name, multiplicity (absent means exactly one) and the notation
/// of that multiplicity.
#[derive(Debug, Clone)]
pub struct PropertyDefinition {
    pub id: ElementId,
    pub name: String,
    pub multiplicity: Option<Multiplicity>,
    pub notation: String,
}

/// Why a diagram's occurrence allocation is rejected.
#[derive(Debug, Clone)]
pub enum AllocationError {
    /// More occurrence selections than path levels.
    PathMismatch,
    /// A path level is not a UUID; the text of the parse error.
    BadIdentity(String),
    /// No definition has the identity a path level names.
    UnknownDefinition(ElementId),
    /// A selected range lies outside the multiplicity of the named definition.
    ExceedsMultiplicity { name: String, notation: String },
    /// A selected group has a blank name.
    MissingName,
    /// Two different groups of one population share a name.
    DuplicateName,
    /// Two groups of one population overlap.
    Overlap,
}

/// The content of an allocation error.
pub enum AllocationFault {
    PathMismatch,
    BadIdentity(Seq<char>),
    UnknownDefinition(ElementId),
    ExceedsMultiplicity(Seq<char>, Seq<char>),
    MissingName,
    DuplicateName,
    Overlap,
}

pub open spec fn fault_of(e: AllocationError) -> AllocationFault {
    match e {
        AllocationError::PathMismatch => AllocationFault::PathMismatch,
        AllocationError::BadIdentity(m) => AllocationFault::BadIdentity(m@),
        AllocationError::UnknownDefinition(id) => AllocationFault::UnknownDefinition(id),
        AllocationError::ExceedsMultiplicity { name, notation } => AllocationFault::ExceedsMultiplicity(
            name@,
            notation@,
        ),
        AllocationError::MissingName => AllocationFault::MissingName,
        AllocationError::DuplicateName => AllocationFault::DuplicateName,
        AllocationError::Overlap => AllocationFault::Overlap,
    }
}

/// The multiplicity a definition stands for: exactly one when it has none.
pub open spec fn effective_multiplicity(m: Option<Multiplicity>) -> Multiplicity {
    match m {
        Some(x) => x,
        None => Multiplicity { lower: 1, upper: Some(1u32) },
    }
}

/// A range that starts at zero, is empty, or runs past the upper bound.
pub open spec fn outside_multiplicity(r: OccurrenceRange, m: Multiplicity) -> bool {
    r.first == 0 || r.count == 0 || (m.upper matches Some(u) && r.first + r.count - 1 > u)
}

/// The first definition among `defs[k..]` with identity `id`.
pub open spec fn find_definition(defs: Seq<PropertyDefinition>, id: ElementId, k: int) -> Option<
    PropertyDefinition,
>
    decreases defs.len() - k,
{
    if k < 0 || k >= defs.len() {
        None
    } else if defs[k].id == id {
        Some(defs[k])
    } else {
        find_definition(defs, id, k + 1)
    }
}

/// The definition a path level names, or why there is none.
pub open spec fn definition_of(defs: Seq<PropertyDefinition>, text: Seq<char>) -> Result<
    PropertyDefinition,
    AllocationFault,
> {
    match uuid_parse(text) {
        Err(m) => Err(AllocationFault::BadIdentity(m)),
        Ok(v) => match find_definition(defs, ElementId(v), 0) {
            Some(d) => Ok(d),
            None => Err(AllocationFault::UnknownDefinition(ElementId(v))),
        },
    }
}

/// The fault of the selection of `p` at path level `i`, if any.
pub open spec fn level_fault(defs: Seq<PropertyDefinition>, p: PropertyOccurrence, i: int) -> Option<
    AllocationFault,
> {
    match range_get(p.occurrence_path@, i) {
        None => None,
        Some(r) => match definition_of(defs, p.property_path@[i]@) {
            Err(f) => Some(f),
            Ok(d) => if outside_multiplicity(r, effective_multiplicity(d.multiplicity)) {
                Some(AllocationFault::ExceedsMultiplicity(d.name@, d.notation@))
            } else {
                None
            },
        },
    }
}

/// The first fault of the selections of `p` from level `i` on.
pub open spec fn levels_fault(defs: Seq<PropertyDefinition>, p: PropertyOccurrence, i: int) -> Option<
    AllocationFault,
>
    decreases p.occurrence_path@.len() - i,
{
    if i < 0 || i >= p.occurrence_path@.len() {
        None
    } else {
        match level_fault(defs, p, i) {
            Some(f) => Some(f),
            None => levels_fault(defs, p, i + 1),
        }
    }
}

/// Two ranges share an occurrence.
pub open spec fn overlapping(a: OccurrenceRange, b: OccurrenceRange) -> bool {
    a.first < b.first + b.count && b.first < a.first + a.count
}

/// The group name of a presentation, empty when it has none.
pub open spec fn group_name(p: PropertyOccurrence) -> Seq<char> {
    match p.occurrence_name {
        Some(n) => n@,
        None => Seq::empty(),
    }
}

/// The fault between the selected group `p` (range `r` at depth `depth`) and
/// another presentation `o` of the same population, if any.
pub open spec fn pair_fault(p: PropertyOccurrence, r: OccurrenceRange, o: PropertyOccurrence, depth: int) -> Option<
    AllocationFault,
> {
    if p.id@ == o.id@ || strs(o.property_path@) != strs(p.property_path@) || !same_prefix_spec(
        p,
        o,
        depth - 1,
    ) {
        None
    } else {
        match range_at_spec(o, depth - 1) {
            None => None,
            Some(other) => if r == other && opt_str(p.occurrence_name) == opt_str(o.occurrence_name) {
                None
            } else if opt_str(p.occurrence_name) == opt_str(o.occurrence_name) {
                Some(AllocationFault::DuplicateName)
            } else if overlapping(r, other) {
                Some(AllocationFault::Overlap)
            } else {
                None
            },
        }
    }
}

/// The first fault between `p` and the presentations `ps[j..]`.
pub open spec fn pairs_fault(
    ps: Seq<PropertyOccurrence>,
    p: PropertyOccurrence,
    r: OccurrenceRange,
    depth: int,
    j: int,
) -> Option<AllocationFault>
    decreases ps.len() - j,
{
    if j < 0 || j >= ps.len() {
        None
    } else {
        match pair_fault(p, r, ps[j], depth) {
            Some(f) => Some(f),
            None => pairs_fault(ps, p, r, depth, j + 1),
        }
    }
}

/// The first fault of the presentation `p` among `ps`, in the order the rules
/// are checked: path length, each level's range, then the group's name and
/// its relation to the other groups of its population.
pub open spec fn property_fault(
    ps: Seq<PropertyOccurrence>,
    defs: Seq<PropertyDefinition>,
    p: PropertyOccurrence,
) -> Option<AllocationFault> {
    let depth = p.property_path@.len() as int;
    if p.occurrence_path@.len() > p.property_path@.len() {
        Some(AllocationFault::PathMismatch)
    } else {
        match levels_fault(defs, p, 0) {
            Some(f) => Some(f),
            None => if depth == 0 {
                None
            } else {
                match range_at_spec(p, depth - 1) {
                    None => None,
                    Some(r) => if trim(group_name(p)).len() == 0 {
                        Some(AllocationFault::MissingName)
                    } else {
                        pairs_fault(ps, p, r, depth, 0)
                    },
                }
            },
        }
    }
}

/// The first fault among the presentations `ps[i..]`.
pub open spec fn allocation_fault(ps: Seq<PropertyOccurrence>, defs: Seq<PropertyDefinition>, i: int) -> Option<
    AllocationFault,
>
    decreases ps.len() - i,
{
    if i < 0 || i >= ps.len() {
        None
    } else {
        match property_fault(ps, defs, ps[i]) {
            Some(f) => Some(f),
            None => allocation_fault(ps, defs, i + 1),
        }
    }
}

/// The definition that the path level `text` names.
fn lookup_definition(defs: &[PropertyDefinition], text: &String) -> (r: Result<usize, AllocationError>)
    ensures
        match r {
            Ok(k) => k < defs@.len() && definition_of(defs@, text@) == Ok::<
                PropertyDefinition,
                AllocationFault,
            >(defs@[k as int]),
            Err(e) => definition_of(defs@, text@) == Err::<PropertyDefinition, AllocationFault>(
                fault_of(e),
            ),
        },
{
    match parse_element_id(text.as_str()) {
        Err(m) => Err(AllocationError::BadIdentity(m)),
        Ok(id) => {
            let mut k: usize = 0;
            while k < defs.len()
                invariant
                    k <= defs@.len(),
                    uuid_parse(text@) == Ok::<u128, Seq<char>>(id.0),
                    find_definition(defs@, id, 0) == find_definition(defs@, id, k as int),
                decreases defs.len() - k,
            {
                if defs[k].id == id {
                    assert(ElementId(id.0) == id);
                    return Ok(k);
                }
                k = k + 1;
            }
            Err(AllocationError::UnknownDefinition(id))
        },
    }
}

/// Check the selections of `p`, level by level.
fn check_levels(defs: &[PropertyDefinition], p: &PropertyOccurrence) -> (r: Result<(), AllocationError>)
    requires
        p.occurrence_path@.len() <= p.property_path@.len(),
    ensures
        match levels_fault(defs@, *p, 0) {
            None => r is Ok,
            Some(f) => r is Err && fault_of(r->Err_0) == f,
        },
{
    let mut i: usize = 0;
    while i < p.occurrence_path.len()
        invariant
            i <= p.occurrence_path@.len() <= p.property_path@.len(),
            levels_fault(defs@, *p, 0) == levels_fault(defs@, *p, i as int),
        decreases p.occurrence_path.len() - i,
    {
        if let Some(range) = p.occurrence_path[i] {
            match lookup_definition(defs, &p.property_path[i]) {
                Err(e) => {
                    return Err(e);
                },
                Ok(k) => {
                    let m = match defs[k].multiplicity {
                        Some(x) => x,
                        None => Multiplicity { lower: 1, upper: Some(1) },
                    };
                    let outside = range.first == 0 || range.count == 0 || match m.upper {
                        Some(u) => range.first as u64 + range.count as u64 - 1 > u as u64,
                        None => false,
                    };
                    if outside {
                        return Err(
                            AllocationError::ExceedsMultiplicity {
                                name: defs[k].name.clone(),
                                notation: defs[k].notation.clone(),
                            },
                        );
                    }
                },
            }
        }
        i = i + 1;
    }
    Ok(())
}

/// Check the selected group `p` against every presentation of `ps`.
fn check_pairs(ps: &[PropertyOccurrence], p: &PropertyOccurrence, r: OccurrenceRange, depth: usize) -> (res:
    Result<(), AllocationError>)
    requires
        depth >= 1,
    ensures
        match pairs_fault(ps@, *p, r, depth as int, 0) {
            None => res is Ok,
            Some(f) => res is Err && fault_of(res->Err_0) == f,
        },
{
    let mut j: usize = 0;
    while j < ps.len()
        invariant
            j <= ps@.len(),
            depth >= 1,
            pairs_fault(ps@, *p, r, depth as int, 0) == pairs_fault(ps@, *p, r, depth as int, j as int),
        decreases ps.len() - j,
    {
        let o = &ps[j];
        if !(p.id == o.id || !strings_eq(o.property_path.as_slice(), p.property_path.as_slice())
            || !same_prefix(p, o, depth - 1)) {
            if let Some(other) = range_at(o, depth - 1) {
                let same_name = opt_string_eq(&p.occurrence_name, &o.occurrence_name);
                let same_range = r.first == other.first && r.count == other.count;
                if !(same_range && same_name) {
                    if same_name {
                        return Err(AllocationError::DuplicateName);
                    }
                    if (r.first as u64) < other.first as u64 + other.count as u64 && (other.first as u64)
                        < r.first as u64 + r.count as u64 {
                        return Err(AllocationError::Overlap);
                    }
                }
            }
        }
        j = j + 1;
    }
    Ok(())
}

/// Check one presentation against the allocation rules.
fn check_property(ps: &[PropertyOccurrence], defs: &[PropertyDefinition], p: &PropertyOccurrence) -> (r:
    Result<(), AllocationError>)
    ensures
        match property_fault(ps@, defs@, *p) {
            None => r is Ok,
            Some(f) => r is Err && fault_of(r->Err_0) == f,
        },
{
    if p.occurrence_path.len() > p.property_path.len() {
        return Err(AllocationError::PathMismatch);
    }
    check_levels(defs, p)?;
    let depth = p.property_path.len();
    if depth == 0 {
        return Ok(());
    }
    match range_at(p, depth - 1) {
        None => Ok(()),
        Some(r) => {
            let name: Vec<char> = match &p.occurrence_name {
                Some(n) => chars_of(n.as_str()),
                None => Vec::new(),
            };
            assert(name@ == group_name(*p));
            if trimmed(name.as_slice()).len() == 0 {
                return Err(AllocationError::MissingName);
            }
            check_pairs(ps, p, r, depth)
        },
    }
}

/// Check a diagram's property presentations against the allocation rules,
/// reporting the first fault in presentation order.
pub fn validate(properties: &[PropertyOccurrence], definitions: &[PropertyDefinition]) -> (r: Result<
    (),
    AllocationError,
>)
    ensures
        match allocation_fault(properties@, definitions@, 0) {
            None => r is Ok,
            Some(f) => r is Err && fault_of(r->Err_0) == f,
        },
{
    let mut i: usize = 0;
    while i < properties.len()
        invariant
            i <= properties@.len(),
            allocation_fault(properties@, definitions@, 0) == allocation_fault(
                properties@,
                definitions@,
                i as int,
            ),
        decreases properties.len() - i,
    {
        check_property(properties, definitions, &properties[i])?;
        i = i + 1;
    }
    Ok(())
}

/// The message the editor shows for an allocation fault; the project words
/// the message for an unknown definition itself.
pub open spec fn allocation_message(f: AllocationFault) -> Option<Seq<char>> {
    match f {
        AllocationFault::PathMismatch => Some(
            "Occurrence selections must follow the semantic property path"@,
        ),
        AllocationFault::BadIdentity(m) => Some(m),
        AllocationFault::UnknownDefinition(_) => None,
        AllocationFault::ExceedsMultiplicity(name, notation) => Some(
            "Occurrence allocation for '"@ + name + "' exceeds multiplicity ["@ + notation
                + "]; adjust its displayed groups first"@,
        ),
        AllocationFault::MissingName => Some("Allocated occurrences require a display name"@),
        AllocationFault::DuplicateName => Some(
            "Different occurrence groups require distinct display names"@,
        ),
        AllocationFault::Overlap => Some(
            "Occurrence groups overlap; repeating a symbol does not allocate another instance"@,
        ),
    }
}

/// The message of an allocation error, absent for an unknown definition.
pub fn allocation_error_message(e: &AllocationError) -> (m: Option<String>)
    ensures
        match m {
            Some(t) => allocation_message(fault_of(*e)) == Some(t@),
            None => allocation_message(fault_of(*e)) is None,
        },
{
    match e {
        AllocationError::PathMismatch => Some(
            "Occurrence selections must follow the semantic property path".to_owned(),
        ),
        AllocationError::BadIdentity(m) => Some(m.clone()),
        AllocationError::UnknownDefinition(_) => None,
        AllocationError::ExceedsMultiplicity { name, notation } => {
            let mut v: Vec<char> = Vec::new();
            push_text(&mut v, "Occurrence allocation for '");
            push_text(&mut v, name.as_str());
            push_text(&mut v, "' exceeds multiplicity [");
            push_text(&mut v, notation.as_str());
            push_text(&mut v, "]; adjust its displayed groups first");
            assert(v@ =~= Seq::<char>::empty() + "Occurrence allocation for '"@ + name@
                + "' exceeds multiplicity ["@ + notation@ + "]; adjust its displayed groups first"@);
            Some(string_from_chars(v.as_slice()))
        },
        AllocationError::MissingName => Some("Allocated occurrences require a display name".to_owned()),
        AllocationError::DuplicateName => Some(
            "Different occurrence groups require distinct display names".to_owned(),
        ),
        AllocationError::Overlap => Some(
            "Occurrence groups overlap; repeating a symbol does not allocate another instance".to_owned(),
        ),
    }
}

proof fn lemma_pairs_fault_none(
    ps: Seq<PropertyOccurrence>,
    p: PropertyOccurrence,
    r: OccurrenceRange,
    depth: int,
    j: int,
    b: int,
)
    requires
        0 <= j <= b < ps.len(),
        pairs_fault(ps, p, r, depth, j) is None,
    ensures
        pair_fault(p, r, ps[b], depth) is None,
    decreases b - j,
{
    if j < b {
        lemma_pairs_fault_none(ps, p, r, depth, j + 1, b);
    }
}

proof fn lemma_allocation_fault_none(ps: Seq<PropertyOccurrence>, defs: Seq<PropertyDefinition>, i: int, a: int)
    requires
        0 <= i <= a < ps.len(),
        allocation_fault(ps, defs, i) is None,
    ensures
        property_fault(ps, defs, ps[a]) is None,
    decreases a - i,
{
    if i < a {
        lemma_allocation_fault_none(ps, defs, i + 1, a);
    }
}

/// In an accepted diagram, two presentations of one population that show
/// different groups (another range or another name) carry different names
/// and disjoint ranges.
pub proof fn lemma_accepted_groups_are_disjoint(
    ps: Seq<PropertyOccurrence>,
    defs: Seq<PropertyDefinition>,
    a: int,
    b: int,
)
    requires
        allocation_fault(ps, defs, 0) is None,
        0 <= a < ps.len(),
        0 <= b < ps.len(),
        ps[a].id@ != ps[b].id@,
        strs(ps[a].property_path@) == strs(ps[b].property_path@),
        ps[a].property_path@.len() > 0,
        same_prefix_spec(ps[a], ps[b], ps[a].property_path@.len() - 1),
        range_at_spec(ps[a], ps[a].property_path@.len() - 1) is Some,
        range_at_spec(ps[b], ps[a].property_path@.len() - 1) is Some,
        range_at_spec(ps[a], ps[a].property_path@.len() - 1) != range_at_spec(
            ps[b],
            ps[a].property_path@.len() - 1,
        ) || opt_str(ps[a].occurrence_name) != opt_str(ps[b].occurrence_name),
    ensures
        opt_str(ps[a].occurrence_name) != opt_str(ps[b].occurrence_name),
        !overlapping(
            range_at_spec(ps[a], ps[a].property_path@.len() - 1)->0,
            range_at_spec(ps[b], ps[a].property_path@.len() - 1)->0,
        ),
{
    let p = ps[a];
    let depth = p.property_path@.len() as int;
    lemma_allocation_fault_none(ps, defs, 0, a);
    let r = range_at_spec(p, depth - 1)->0;
    lemma_pairs_fault_none(ps, p, r, depth, 0, b);
}

/// In an accepted diagram every selected range lies inside the multiplicity
/// of the definition its path level names.
pub proof fn lemma_accepted_ranges_fit(
    ps: Seq<PropertyOccurrence>,
    defs: Seq<PropertyDefinition>,
    a: int,
    i: int,
)
    requires
        allocation_fault(ps, defs, 0) is None,
        0 <= a < ps.len(),
        0 <= i < ps[a].occurrence_path@.len(),
        ps[a].occurrence_path@[i] is Some,
    ensures
        i < ps[a].property_path@.len(),
        definition_of(defs, ps[a].property_path@[i]@) is Ok,
        !outside_multiplicity(
            ps[a].occurrence_path@[i]->0,
            effective_multiplicity(definition_of(defs, ps[a].property_path@[i]@)->Ok_0.multiplicity),
        ),
{
    lemma_allocation_fault_none(ps, defs, 0, a);
    lemma_levels_fault_none(defs, ps[a], 0, i);
}

proof fn lemma_levels_fault_none(defs: Seq<PropertyDefinition>, p: PropertyOccurrence, j: int, i: int)
    requires
        0 <= j <= i < p.occurrence_path@.len(),
        levels_fault(defs, p, j) is None,
    ensures
        level_fault(defs, p, i) is None,
    decreases i - j,
{
    if j < i {
        lemma_levels_fault_none(defs, p, j + 1, i);
    }
}

} // verus!
