//! The occurrence-group text an editor shows for a property presentation
//! ("north = 1" per line): one line per distinct range its population
//! selects, ordered by first display position, and the specification record
//! that carries it.

use vstd::prelude::*;
use crate::features::Multiplicity;
use crate::ids::{element_id_text, uuid_text_spec};
use crate::item_flows::is_permutation;
use crate::model_build::ElementId;
use crate::occurrences::{
    GroupsError, MAX_GROUPS, groups_from, last_index_of, parse_groups_spec,
    OccurrenceCoverage, OccurrenceRange, PropertyOccurrence, any_compact, coverage, coverage_status,
    distinct_total, is_peer, peer_ranges, range_at, range_at_spec, same_prefix,
};
use crate::regrouping::{find_presentation, position_of};
use crate::text::{
    all_digits, digits_value, is_ws, parse_u32_spec, push_text, string_from_chars, strings_eq,
    trim, trim_end, trim_start, lines, lines_from, next_nl, lemma_next_nl,
};

verus! {

/// The decimal digit for `d < 10`.
pub open spec fn dec_digit(d: nat) -> char {
    if d == 0 {
        '0'
    } else if d == 1 {
        '1'
    } else if d == 2 {
        '2'
    } else if d == 3 {
        '3'
    } else if d == 4 {
        '4'
    } else if d == 5 {
        '5'
    } else if d == 6 {
        '6'
    } else if d == 7 {
        '7'
    } else if d == 8 {
        '8'
    } else {
        '9'
    }
}

/// The decimal text of `n`, without leading zeros.
pub open spec fn decimal(n: nat) -> Seq<char>
    decreases n,
{
    if n < 10 {
        seq![dec_digit(n)]
    } else {
        decimal(n / 10).push(dec_digit(n % 10))
    }
}

fn digit_char(d: u32) -> (c: char)
    requires
        d < 10,
    ensures
        c == dec_digit(d as nat),
{
    if d == 0 {
        '0'
    } else if d == 1 {
        '1'
    } else if d == 2 {
        '2'
    } else if d == 3 {
        '3'
    } else if d == 4 {
        '4'
    } else if d == 5 {
        '5'
    } else if d == 6 {
        '6'
    } else if d == 7 {
        '7'
    } else if d == 8 {
        '8'
    } else {
        '9'
    }
}

/// The decimal text of `n`.
pub fn decimal_chars(n: u32) -> (v: Vec<char>)
    ensures
        v@ == decimal(n as nat),
    decreases n,
{
    if n < 10 {
        let mut v: Vec<char> = Vec::new();
        v.push(digit_char(n));
        assert(v@ =~= seq![dec_digit(n as nat)]);
        v
    } else {
        let mut v = decimal_chars(n / 10);
        v.push(digit_char(n % 10));
        v
    }
}

/// The last level of `property`'s path, where its population's ranges lie.
pub open spec fn last_level(property: PropertyOccurrence) -> int {
    property.property_path@.len() - 1
}

/// The positions below `k` of the peers of `property` that select a range at
/// the last level, in caller order.
pub open spec fn ranged_peers(ps: Seq<PropertyOccurrence>, property: PropertyOccurrence, k: int) -> Seq<
    usize,
>
    decreases k,
{
    if k <= 0 {
        Seq::empty()
    } else if is_peer(ps[k - 1], property) && range_at_spec(ps[k - 1], last_level(property)) is Some {
        ranged_peers(ps, property, k - 1).push((k - 1) as usize)
    } else {
        ranged_peers(ps, property, k - 1)
    }
}

/// The range the presentation at `i` selects at the last level of `property`.
pub open spec fn range_of(ps: Seq<PropertyOccurrence>, property: PropertyOccurrence, i: usize) -> Option<
    OccurrenceRange,
> {
    range_at_spec(ps[i as int], last_level(property))
}

/// The first display position the presentation at `i` selects (zero without a range).
pub open spec fn first_of(ps: Seq<PropertyOccurrence>, property: PropertyOccurrence, i: usize) -> u32 {
    match range_of(ps, property, i) {
        Some(r) => r.first,
        None => 0,
    }
}

/// `out` lists `src` ordered by first display position; entries with the same
/// first position keep their order in `src`.
pub open spec fn sorted_by_first(
    ps: Seq<PropertyOccurrence>,
    property: PropertyOccurrence,
    src: Seq<usize>,
    out: Seq<usize>,
) -> bool {
    exists|perm: Seq<int>|
        {
            &&& is_permutation(perm, src.len() as int)
            &&& out.len() == src.len()
            &&& forall|k: int| 0 <= k < out.len() ==> out[k] == src[#[trigger] perm[k]]
            &&& forall|a: int, b: int|
                0 <= a < b < out.len() ==> first_of(ps, property, out[a]) <= first_of(
                    ps,
                    property,
                    out[b],
                )
            &&& forall|a: int, b: int|
                0 <= a < b < out.len() && first_of(ps, property, out[a]) == first_of(
                    ps,
                    property,
                    out[b],
                ) ==> perm[a] < perm[b]
        }
}

/// The entries among the first `k` of `out` whose range no earlier entry selects.
pub open spec fn first_of_each_range(
    ps: Seq<PropertyOccurrence>,
    property: PropertyOccurrence,
    out: Seq<usize>,
    k: int,
) -> Seq<usize>
    decreases k,
{
    if k <= 0 {
        Seq::empty()
    } else if exists|j: int|
        0 <= j < k - 1 && range_of(ps, property, #[trigger] out[j]) == range_of(ps, property, out[k - 1]) {
        first_of_each_range(ps, property, out, k - 1)
    } else {
        first_of_each_range(ps, property, out, k - 1).push(out[k - 1])
    }
}

/// The line of one group: its name (the definition's name when the
/// presentation has none), `" = "`, and its count.
pub open spec fn group_line(p: PropertyOccurrence, level: int, default_name: Seq<char>) -> Seq<char> {
    (match p.occurrence_name {
        Some(n) => n@,
        None => default_name,
    }) + " = "@ + decimal(
        match range_at_spec(p, level) {
            Some(r) => r.count as nat,
            None => 0,
        },
    )
}

/// The lines `ls` joined by line feeds.
pub open spec fn join_lines(ls: Seq<Seq<char>>) -> Seq<char>
    decreases ls.len(),
{
    if ls.len() == 0 {
        Seq::empty()
    } else if ls.len() == 1 {
        ls[0]
    } else {
        join_lines(ls.drop_last()) + "\n"@ + ls.last()
    }
}

/// The group text of the presentations at `kept`.
pub open spec fn groups_text_of(
    ps: Seq<PropertyOccurrence>,
    property: PropertyOccurrence,
    kept: Seq<usize>,
    default_name: Seq<char>,
) -> Seq<char> {
    join_lines(kept.map_values(|i: usize| group_line(ps[i as int], last_level(property), default_name)))
}

fn peer_range(
    properties: &Vec<PropertyOccurrence>,
    property: &PropertyOccurrence,
    i: usize,
) -> (r: Option<OccurrenceRange>)
    requires
        i < properties@.len(),
        property.property_path@.len() > 0,
    ensures
        r == range_of(properties@, *property, i),
{
    range_at(&properties[i], property.property_path.len() - 1)
}

fn first_key(properties: &Vec<PropertyOccurrence>, property: &PropertyOccurrence, i: usize) -> (r: u32)
    requires
        i < properties@.len(),
        property.property_path@.len() > 0,
    ensures
        r == first_of(properties@, *property, i),
{
    match peer_range(properties, property, i) {
        Some(x) => x.first,
        None => 0,
    }
}

fn collect_ranged_peers(properties: &Vec<PropertyOccurrence>, property: &PropertyOccurrence) -> (src:
    Vec<usize>)
    requires
        property.property_path@.len() > 0,
    ensures
        src@ == ranged_peers(properties@, *property, properties@.len() as int),
        forall|k: int| 0 <= k < src@.len() ==> #[trigger] src@[k] < properties@.len(),
{
    let depth = property.property_path.len();
    let mut src: Vec<usize> = Vec::new();
    let mut k: usize = 0;
    while k < properties.len()
        invariant
            k <= properties@.len(),
            depth == property.property_path@.len() > 0,
            src@ == ranged_peers(properties@, *property, k as int),
            forall|j: int| 0 <= j < src@.len() ==> #[trigger] src@[j] < k,
        decreases properties.len() - k,
    {
        let peer = &properties[k];
        if strings_eq(peer.property_path.as_slice(), property.property_path.as_slice()) && same_prefix(
            property,
            peer,
            depth - 1,
        ) && peer_range(properties, property, k).is_some() {
            src.push(k);
        }
        k = k + 1;
    }
    src
}

fn sort_by_first(
    properties: &Vec<PropertyOccurrence>,
    property: &PropertyOccurrence,
    src: &Vec<usize>,
) -> (out: Vec<usize>)
    requires
        property.property_path@.len() > 0,
        forall|k: int| 0 <= k < src@.len() ==> #[trigger] src@[k] < properties@.len(),
    ensures
        sorted_by_first(properties@, *property, src@, out@),
        forall|k: int| 0 <= k < out@.len() ==> #[trigger] out@[k] < properties@.len(),
{
    let ghost ps = properties@;
    let ghost prop = *property;
    let n = src.len();
    let mut out: Vec<usize> = Vec::new();
    let ghost mut perm: Seq<int> = Seq::empty();
    let mut i: usize = 0;
    while i < n
        invariant
            n == src@.len(),
            ps == properties@,
            prop == *property,
            property.property_path@.len() > 0,
            forall|k: int| 0 <= k < src@.len() ==> #[trigger] src@[k] < properties@.len(),
            i <= n,
            out@.len() == i,
            forall|q: int| 0 <= q < out@.len() ==> #[trigger] out@[q] < properties@.len(),
            perm.len() == i,
            forall|k: int| 0 <= k < i ==> 0 <= #[trigger] perm[k] < i,
            forall|a: int, b: int| 0 <= a < b < i ==> perm[a] != perm[b],
            forall|k: int| 0 <= k < i ==> out@[k] == src@[#[trigger] perm[k]],
            forall|a: int, b: int|
                0 <= a < b < i ==> first_of(ps, prop, out@[a]) <= first_of(ps, prop, out@[b]),
            forall|a: int, b: int|
                0 <= a < b < i && first_of(ps, prop, out@[a]) == first_of(ps, prop, out@[b]) ==> perm[a]
                    < perm[b],
        decreases n - i,
    {
        let x = src[i];
        let key = first_key(properties, property, x);
        let mut p: usize = 0;
        while p < out.len()
            invariant
                p <= out@.len(),
                forall|q: int| 0 <= q < out@.len() ==> #[trigger] out@[q] < properties@.len(),
                property.property_path@.len() > 0,
                key == first_of(ps, prop, x),
                ps == properties@,
                prop == *property,
                forall|q: int| 0 <= q < p ==> first_of(ps, prop, #[trigger] out@[q]) <= key,
            ensures
                p <= out@.len(),
                forall|q: int| 0 <= q < p ==> first_of(ps, prop, #[trigger] out@[q]) <= key,
                p < out@.len() ==> key < first_of(ps, prop, out@[p as int]),
            decreases out.len() - p,
        {
            let y = out[p];
            assert(out@[p as int] < properties@.len());
            if key < first_key(properties, property, y) {
                break;
            }
            p = p + 1;
        }
        let ghost old_out = out@;
        let ghost old_perm = perm;
        proof {
            assert forall|q: int| p <= q < old_out.len() implies key < first_of(
                ps,
                prop,
                #[trigger] old_out[q],
            ) by {
                assert(first_of(ps, prop, old_out[p as int]) <= first_of(ps, prop, old_out[q]) || q
                    == p);
            }
        }
        out.insert(p, x);
        proof {
            assert forall|q: int| 0 <= q < out@.len() implies #[trigger] out@[q] < properties@.len() by {
                if q < p {
                    assert(out@[q] == old_out[q]);
                } else if q > p {
                    assert(out@[q] == old_out[q - 1]);
                }
            }
            perm = old_perm.insert(p as int, i as int);
            assert forall|k: int| 0 <= k < i + 1 implies out@[k] == src@[#[trigger] perm[k]] by {
                if k < p {
                    assert(out@[k] == old_out[k] && perm[k] == old_perm[k]);
                } else if k > p {
                    assert(out@[k] == old_out[k - 1] && perm[k] == old_perm[k - 1]);
                }
            }
            assert forall|a: int, b: int|
                0 <= a < b < i + 1 implies first_of(ps, prop, out@[a]) <= first_of(ps, prop, out@[b]) by {
                if a < p && b == p {
                    assert(out@[a] == old_out[a]);
                } else if a == p && b > p {
                    assert(out@[b] == old_out[b - 1]);
                } else if a < p && b < p {
                    assert(out@[a] == old_out[a] && out@[b] == old_out[b]);
                } else if a < p {
                    assert(out@[a] == old_out[a] && out@[b] == old_out[b - 1]);
                } else {
                    assert(out@[a] == old_out[a - 1] && out@[b] == old_out[b - 1]);
                }
            }
            assert forall|a: int, b: int|
                0 <= a < b < i + 1 && first_of(ps, prop, out@[a]) == first_of(ps, prop, out@[b])
                    implies perm[a] < perm[b] by {
                if a == p {
                    assert(out@[b] == old_out[b - 1]);
                } else if b == p {
                    assert(out@[a] == old_out[a]);
                    assert(perm[a] == old_perm[a]);
                } else if a < p && b < p {
                    assert(out@[a] == old_out[a] && out@[b] == old_out[b]);
                } else if a < p {
                    assert(out@[a] == old_out[a] && out@[b] == old_out[b - 1]);
                } else {
                    assert(out@[a] == old_out[a - 1] && out@[b] == old_out[b - 1]);
                }
            }
            assert forall|a: int, b: int| 0 <= a < b < i + 1 implies perm[a] != perm[b] by {
                if a != p && b != p {
                    let a0 = if a < p { a } else { a - 1 };
                    let b0 = if b < p { b } else { b - 1 };
                    assert(perm[a] == old_perm[a0] && perm[b] == old_perm[b0]);
                }
            }
        }
        i = i + 1;
    }
    assert(is_permutation(perm, n as int));
    out
}

fn first_ranges(
    properties: &Vec<PropertyOccurrence>,
    property: &PropertyOccurrence,
    out: &Vec<usize>,
) -> (kept: Vec<usize>)
    requires
        property.property_path@.len() > 0,
        forall|k: int| 0 <= k < out@.len() ==> #[trigger] out@[k] < properties@.len(),
    ensures
        kept@ == first_of_each_range(properties@, *property, out@, out@.len() as int),
        forall|k: int| 0 <= k < kept@.len() ==> #[trigger] kept@[k] < properties@.len(),
{
    let mut kept: Vec<usize> = Vec::new();
    let mut k: usize = 0;
    while k < out.len()
        invariant
            k <= out@.len(),
            property.property_path@.len() > 0,
            forall|q: int| 0 <= q < out@.len() ==> #[trigger] out@[q] < properties@.len(),
            kept@ == first_of_each_range(properties@, *property, out@, k as int),
            forall|q: int| 0 <= q < kept@.len() ==> #[trigger] kept@[q] < properties@.len(),
        decreases out.len() - k,
    {
        let r = peer_range(properties, property, out[k]);
        let mut seen = false;
        let mut j: usize = 0;
        while j < k
            invariant
                j <= k < out@.len(),
                property.property_path@.len() > 0,
                forall|q: int| 0 <= q < out@.len() ==> #[trigger] out@[q] < properties@.len(),
                r == range_of(properties@, *property, out@[k as int]),
                seen == exists|w: int|
                    0 <= w < j && range_of(properties@, *property, #[trigger] out@[w]) == r,
            decreases k - j,
        {
            let s = peer_range(properties, property, out[j]);
            let same = match (s, r) {
                (Some(a), Some(b)) => a.first == b.first && a.count == b.count,
                (None, None) => true,
                _ => false,
            };
            if same {
                seen = true;
            }
            j = j + 1;
        }
        if !seen {
            kept.push(out[k]);
        }
        k = k + 1;
    }
    kept
}

/// The occurrence-group text for `property` among `properties`: for each
/// distinct range its peers select at the last level, ordered by first
/// display position (peers with the same first position in caller order, the
/// first of them giving the line), the line `name = count`, where a
/// presentation without a group name is named `default_name`; lines are
/// joined by line feeds.
pub fn groups_text(properties: &Vec<PropertyOccurrence>, property: &PropertyOccurrence, default_name: &str) -> (r:
    String)
    requires
        property.property_path@.len() > 0,
    ensures
        exists|out: Seq<usize>|
            sorted_by_first(
                properties@,
                *property,
                ranged_peers(properties@, *property, properties@.len() as int),
                out,
            ) && r@ == groups_text_of(
                properties@,
                *property,
                first_of_each_range(properties@, *property, out, out.len() as int),
                default_name@,
            ),
{
    let src = collect_ranged_peers(properties, property);
    let out = sort_by_first(properties, property, &src);
    let kept = first_ranges(properties, property, &out);
    let ghost lines = kept@.map_values(
        |i: usize| group_line(properties@[i as int], last_level(*property), default_name@),
    );
    let mut v: Vec<char> = Vec::new();
    let mut k: usize = 0;
    while k < kept.len()
        invariant
            k <= kept@.len(),
            property.property_path@.len() > 0,
            forall|q: int| 0 <= q < kept@.len() ==> #[trigger] kept@[q] < properties@.len(),
            lines == kept@.map_values(
                |i: usize| group_line(properties@[i as int], last_level(*property), default_name@),
            ),
            v@ == join_lines(lines.take(k as int)),
        decreases kept.len() - k,
    {
        let ghost before = v@;
        assert(lines.take(k + 1).drop_last() =~= lines.take(k as int));
        if k > 0 {
            push_text(&mut v, "\n");
        }
        let p = &properties[kept[k]];
        match &p.occurrence_name {
            Some(n) => push_text(&mut v, n.as_str()),
            None => push_text(&mut v, default_name),
        }
        push_text(&mut v, " = ");
        let count = match peer_range(properties, property, kept[k]) {
            Some(x) => x.count,
            None => 0,
        };
        let digits = decimal_chars(count);
        let ghost mid = v@;
        let mut d: usize = 0;
        while d < digits.len()
            invariant
                d <= digits@.len(),
                v@ == mid + digits@.take(d as int),
            decreases digits.len() - d,
        {
            assert(digits@.take(d + 1) =~= digits@.take(d as int).push(digits@[d as int]));
            v.push(digits[d]);
            d = d + 1;
        }
        assert(digits@.take(digits@.len() as int) =~= digits@);
        proof {
            assert(lines[k as int] == group_line(properties@[kept@[k as int] as int], last_level(*property), default_name@));
            if k == 0 {
                assert(lines.take(1) =~= seq![lines[0]]);
                assert(v@ =~= join_lines(lines.take(1)));
            } else {
                assert(lines.take(k + 1).last() == lines[k as int]);
                assert(v@ =~= join_lines(lines.take(k + 1)));
            }
        }
        k = k + 1;
    }
    assert(lines.take(kept@.len() as int) =~= lines);
    string_from_chars(v.as_slice())
}

/// The position of the presentation with identity `presentation_id` (the
/// first one with it).
pub fn occurrence_index(properties: &Vec<PropertyOccurrence>, presentation_id: &String) -> (r: Result<
    usize,
    String,
>)
    ensures
        match r {
            Ok(k) => position_of(properties@, presentation_id@, 0) == Some(k as int) && k
                < properties@.len(),
            Err(m) => position_of(properties@, presentation_id@, 0) is None && m@
                == "IBD occurrence not found"@,
        },
{
    match find_presentation(properties, presentation_id) {
        Some(k) => Ok(k),
        None => Err("IBD occurrence not found".to_string()),
    }
}

/// What the occurrence editor reads of the definition a presentation shows.
#[derive(Debug, Clone)]
pub struct DefinitionFacts {
    pub id: ElementId,
    pub name: String,
    pub type_id: Option<ElementId>,
    /// Absent for a definition that states none (one occurrence).
    pub multiplicity: Option<Multiplicity>,
}

/// What the occurrence editor shows for one presentation: its population's
/// group text, the coverage of the definition's multiplicity, and the
/// identities of the definition and of its type.
#[derive(Debug)]
pub struct OccurrenceSpecification {
    pub groups: String,
    pub coverage: OccurrenceCoverage,
    pub definition_id: String,
    pub type_id: Option<String>,
}

/// The multiplicity a definition stands for: its own, or exactly one.
pub open spec fn effective_multiplicity(m: Option<Multiplicity>) -> Multiplicity {
    match m {
        Some(x) => x,
        None => Multiplicity { lower: 1, upper: Some(1u32) },
    }
}

/// The occurrence specification of the presentation at `index`, whose
/// definition is `definition`; `constraint` is the notation of the
/// definition's multiplicity.
pub fn occurrence_specification(
    properties: &Vec<PropertyOccurrence>,
    index: usize,
    definition: &DefinitionFacts,
    constraint: String,
) -> (s: OccurrenceSpecification)
    requires
        index < properties@.len() <= u32::MAX,
        properties@[index as int].property_path@.len() > 0,
    ensures
        ({
            let ps = properties@;
            let property = ps[index as int];
            &&& exists|out: Seq<usize>|
                sorted_by_first(ps, property, ranged_peers(ps, property, ps.len() as int), out)
                    && s.groups@ == groups_text_of(
                    ps,
                    property,
                    first_of_each_range(ps, property, out, out.len() as int),
                    definition.name@,
                )
            &&& s.coverage.displayed == (if any_compact(ps, property) {
                None
            } else {
                Some(distinct_total(peer_ranges(ps, property)) as u64)
            })
            &&& s.coverage.constraint@ == constraint@
            &&& s.coverage.status@ == coverage_status(
                any_compact(ps, property),
                distinct_total(peer_ranges(ps, property)),
                effective_multiplicity(definition.multiplicity),
            )
            &&& s.definition_id@ == uuid_text_spec(definition.id.0)
            &&& match s.type_id {
                Some(t) => definition.type_id matches Some(id) && t@ == uuid_text_spec(id.0),
                None => definition.type_id is None,
            }
        }),
{
    let property = &properties[index];
    let groups = groups_text(properties, property, definition.name.as_str());
    let multiplicity = match definition.multiplicity {
        Some(m) => m,
        None => Multiplicity::one(),
    };
    let coverage = coverage(properties.as_slice(), property, multiplicity, constraint);
    let type_id = match definition.type_id {
        Some(t) => Some(element_id_text(t)),
        None => None,
    };
    OccurrenceSpecification { groups, coverage, definition_id: element_id_text(definition.id), type_id }
}

/// A digit's character code lies that far above `'0'`.
proof fn lemma_dec_digit_value(d: nat)
    requires
        d < 10,
    ensures
        dec_digit(d) as int - '0' as int == d,
        '0' <= dec_digit(d) <= '9',
{
}

/// The decimal text of a number is a nonempty run of digits whose value is the number.
pub proof fn lemma_decimal_digits(n: nat)
    ensures
        decimal(n).len() > 0,
        all_digits(decimal(n)),
        digits_value(decimal(n)) == n,
    decreases n,
{
    lemma_dec_digit_value(n % 10);
    if n < 10 {
        assert(n % 10 == n);
        assert(decimal(n).drop_last() =~= Seq::<char>::empty());
        assert(decimal(n).last() == dec_digit(n));
        assert(digits_value(decimal(n)) == digits_value(decimal(n).drop_last()) * 10 + (
        decimal(n).last() as int - '0' as int));
    } else {
        lemma_decimal_digits(n / 10);
        let d = decimal(n / 10);
        assert(decimal(n).drop_last() =~= d);
        assert(decimal(n).last() == dec_digit(n % 10));
        assert(digits_value(decimal(n)) == digits_value(d) * 10 + (dec_digit(n % 10) as int
            - '0' as int));
        assert(n / 10 * 10 + n % 10 == n) by (nonlinear_arith);
        assert forall|i: int| 0 <= i < decimal(n).len() implies '0' <= #[trigger] decimal(n)[i] <= '9' by {
            if i < d.len() {
                assert(decimal(n)[i] == d[i]);
            }
        }
    }
}

/// The decimal text of a `u32` reads back as that number.
proof fn lemma_decimal_parses(c: u32)
    ensures
        parse_u32_spec(decimal(c as nat)) == Some(c),
{
    lemma_decimal_digits(c as nat);
    let d = decimal(c as nat);
    assert('0' <= d[0] <= '9');
}

proof fn lemma_trim_start_len(s: Seq<char>)
    ensures
        trim_start(s).len() <= s.len(),
    decreases s.len(),
{
    if s.len() > 0 && is_ws(s[0]) {
        lemma_trim_start_len(s.drop_first());
    }
}

proof fn lemma_trim_end_len(s: Seq<char>)
    ensures
        trim_end(s).len() <= s.len(),
    decreases s.len(),
{
    if s.len() > 0 && is_ws(s.last()) {
        lemma_trim_end_len(s.drop_last());
    }
}

/// A nonempty text that trimming leaves alone neither starts nor ends with
/// white space.
proof fn lemma_trimmed_ends(s: Seq<char>)
    requires
        s.len() > 0,
        trim(s) == s,
    ensures
        !is_ws(s[0]),
        !is_ws(s.last()),
{
    lemma_trim_start_len(s);
    if is_ws(s[0]) {
        lemma_trim_start_len(s.drop_first());
        lemma_trim_end_len(trim_start(s));
    } else {
        assert(trim_start(s) == s);
        if is_ws(s.last()) {
            lemma_trim_end_len(s.drop_last());
        }
    }
}

/// A text that neither starts nor ends with white space is its own trim.
proof fn lemma_unpadded_trim(s: Seq<char>)
    requires
        s.len() > 0,
        !is_ws(s[0]),
        !is_ws(s.last()),
    ensures
        trim(s) == s,
{
    assert(trim_start(s) == s);
}

/// The index of the last `c` is `k` when `s[k]` is `c` and no later character is.
proof fn lemma_last_index_at(s: Seq<char>, c: char, k: int)
    requires
        0 <= k < s.len(),
        s[k] == c,
        forall|j: int| k < j < s.len() ==> s[j] != c,
    ensures
        last_index_of(s, c) == k,
    decreases s.len(),
{
    if k < s.len() - 1 {
        lemma_last_index_at(s.drop_last(), c, k);
    }
}

/// The line of a group, `name = count`.
pub open spec fn group_line_text(name: Seq<char>, count: u32) -> Seq<char> {
    name + " = "@ + decimal(count as nat)
}

/// How the parser reads the line of a group with a trimmed, nonempty name:
/// the line is not blank, its last `=` follows the name and a space, and the
/// two sides trim to the name and the count's digits.
proof fn lemma_group_line_reads(name: Seq<char>, count: u32)
    requires
        name.len() > 0,
        trim(name) == name,
    ensures
        ({
            let l = group_line_text(name, count);
            let k = name.len() + 1int;
            &&& trim(l).len() != 0
            &&& last_index_of(l, '=') == k
            &&& trim(l.take(k)) == name
            &&& parse_u32_spec(trim(l.skip(k + 1))) == Some(count)
        }),
{
    let l = group_line_text(name, count);
    let d = decimal(count as nat);
    let k = name.len() + 1int;
    reveal_strlit(" = ");
    assert(" = "@ =~= seq![' ', '=', ' ']);
    lemma_trimmed_ends(name);
    lemma_decimal_digits(count as nat);
    lemma_decimal_parses(count);
    assert('0' <= d[0] <= '9' && '0' <= d.last() <= '9');
    assert(l.len() == name.len() + 3 + d.len());
    assert(l[0] == name[0]);
    assert(l.last() == d.last());
    lemma_unpadded_trim(l);
    assert(l[k] == '=');
    assert forall|j: int| k < j < l.len() implies l[j] != '=' by {
        if j > k + 1 {
            assert(l[j] == d[j - k - 2]);
            assert('0' <= d[j - k - 2] <= '9');
        }
    }
    lemma_last_index_at(l, '=', k);
    let left = l.take(k);
    assert(left =~= name.push(' '));
    assert(trim_start(left) == left);
    assert(left.drop_last() =~= name);
    assert(trim_end(left) == trim_end(name));
    assert(trim_end(name) == name);
    let right = l.skip(k + 1);
    assert(right =~= seq![' '] + d);
    assert(right.drop_first() =~= d);
    assert(trim_start(right) == trim_start(d));
    assert(trim_start(d) == d);
    assert(trim_end(d) == d);
}

/// Joining lines peels off the first line.
proof fn lemma_join_front(ls: Seq<Seq<char>>)
    requires
        ls.len() >= 2,
    ensures
        join_lines(ls) == ls[0] + "\n"@ + join_lines(ls.drop_first()),
    decreases ls.len(),
{
    if ls.len() == 2 {
        assert(ls.drop_last() =~= seq![ls[0]]);
        assert(ls.drop_first() =~= seq![ls[1]]);
        assert(join_lines(ls.drop_last()) == ls[0]);
        assert(join_lines(ls.drop_first()) == ls[1]);
    } else {
        lemma_join_front(ls.drop_last());
        assert(ls.drop_last().drop_first() =~= ls.drop_first().drop_last());
        assert(ls.drop_first().last() == ls.last());
        assert(ls.drop_last()[0] == ls[0]);
        let a = ls[0];
        let m = join_lines(ls.drop_first().drop_last());
        assert(join_lines(ls.drop_first()) == m + "\n"@ + ls.last());
        assert(join_lines(ls) == (a + "\n"@ + m) + "\n"@ + ls.last());
        assert((a + "\n"@ + m) + "\n"@ + ls.last() =~= a + "\n"@ + (m + "\n"@ + ls.last()));
    }
}

proof fn lemma_next_nl_shift(pre: Seq<char>, t: Seq<char>, j: int)
    requires
        0 <= j,
    ensures
        next_nl(pre + t, pre.len() + j) == pre.len() + next_nl(t, j),
    decreases t.len() - j,
{
    if j < t.len() {
        assert((pre + t)[pre.len() + j] == t[j]);
        if t[j] != '\n' {
            lemma_next_nl_shift(pre, t, j + 1);
        }
    }
}

/// The lines from a position inside the tail of a text are the tail's lines.
proof fn lemma_lines_shift(pre: Seq<char>, t: Seq<char>, j: int)
    requires
        0 <= j,
    ensures
        lines_from(pre + t, pre.len() + j) == lines_from(t, j),
    decreases t.len() - j,
{
    let s = pre + t;
    if j < t.len() {
        lemma_next_nl_shift(pre, t, j);
        lemma_next_nl(t, j);
        let e = next_nl(t, j);
        if e >= t.len() {
            assert(s.subrange(pre.len() + j, s.len() as int) =~= t.subrange(j, t.len() as int));
        } else {
            assert(s.subrange(pre.len() + j, pre.len() + e) =~= t.subrange(j, e));
            lemma_lines_shift(pre, t, e + 1);
        }
    }
}

/// A text without line feeds lies on one line.
proof fn lemma_next_nl_none(s: Seq<char>)
    requires
        forall|i: int| 0 <= i < s.len() ==> s[i] != '\n',
    ensures
        next_nl(s, 0) == s.len(),
{
    lemma_next_nl(s, 0);
}

/// A line of a joined text: nonempty, without line feed, not ending in a carriage return.
pub open spec fn plain_line(l: Seq<char>) -> bool {
    &&& l.len() > 0
    &&& forall|i: int| 0 <= i < l.len() ==> l[i] != '\n'
    &&& l.last() != '\r'
}

/// Splitting joined plain lines gives them back.
proof fn lemma_lines_of_joined(ls: Seq<Seq<char>>)
    requires
        ls.len() > 0,
        forall|k: int| 0 <= k < ls.len() ==> plain_line(#[trigger] ls[k]),
    ensures
        lines(join_lines(ls)) == ls,
    decreases ls.len(),
{
    reveal_strlit("\n");
    let l0 = ls[0];
    assert(plain_line(l0));
    if ls.len() == 1 {
        lemma_next_nl_none(l0);
        assert(l0.subrange(0, l0.len() as int) =~= l0);
        assert(lines(join_lines(ls)) =~= seq![l0]);
        assert(ls =~= seq![l0]);
    } else {
        lemma_join_front(ls);
        let rest = join_lines(ls.drop_first());
        assert forall|k: int| 0 <= k < ls.drop_first().len() implies plain_line(
            #[trigger] ls.drop_first()[k],
        ) by {
            assert(ls.drop_first()[k] == ls[k + 1]);
        }
        lemma_lines_of_joined(ls.drop_first());
        let pre = l0 + "\n"@;
        let s = pre + rest;
        assert(join_lines(ls) =~= s);
        assert(s[l0.len() as int] == '\n');
        assert forall|i: int| 0 <= i < l0.len() implies s[i] != '\n' by {
            assert(s[i] == l0[i]);
        }
        lemma_next_nl(s, 0);
        assert(next_nl(s, 0) == l0.len()) by {
            let e = next_nl(s, 0);
            if e < l0.len() {
                assert(s[e] == '\n');
            }
            if e > l0.len() {
                assert(s[l0.len() as int] != '\n');
            }
        }
        assert(s.subrange(0, l0.len() as int) =~= l0);
        lemma_lines_shift(pre, rest, 0);
        assert(lines(s) =~= seq![l0] + ls.drop_first());
        assert(seq![l0] + ls.drop_first() =~= ls);
    }
}

/// Named groups that a group text can carry and that parsing gives back: at
/// least one and at most [`MAX_GROUPS`]; names nonempty, trimmed, distinct and
/// without line feeds; counts positive; ranges laid out one after another
/// from display position 1 and ending within `u32`.
pub open spec fn renderable(g: Seq<(Seq<char>, OccurrenceRange)>) -> bool {
    &&& 0 < g.len() <= MAX_GROUPS
    &&& forall|k: int|
        0 <= k < g.len() ==> {
            let x = #[trigger] g[k];
            &&& x.0.len() > 0
            &&& trim(x.0) == x.0
            &&& forall|i: int| 0 <= i < x.0.len() ==> x.0[i] != '\n'
            &&& x.1.count > 0
            &&& x.1.first + x.1.count <= u32::MAX
        }
    &&& forall|i: int, j: int| 0 <= i < j < g.len() ==> g[i].0 != g[j].0
    &&& g[0].1.first == 1
    &&& forall|k: int| 0 < k < g.len() ==> (#[trigger] g[k]).1.first == g[k - 1].1.first + g[k - 1].1.count
}

/// The lines of named groups.
pub open spec fn rendered_lines(g: Seq<(Seq<char>, OccurrenceRange)>) -> Seq<Seq<char>> {
    g.map_values(|x: (Seq<char>, OccurrenceRange)| group_line_text(x.0, x.1.count))
}

/// Named groups as the parser reports them.
pub open spec fn parsed_form(g: Seq<(Seq<char>, OccurrenceRange)>) -> Seq<
    (Option<Seq<char>>, Option<OccurrenceRange>),
> {
    g.map_values(|x: (Seq<char>, OccurrenceRange)| (Some(x.0), Some(x.1)))
}

proof fn lemma_groups_from_rendered(g: Seq<(Seq<char>, OccurrenceRange)>, j: int, first: u32)
    requires
        renderable(g),
        0 <= j <= g.len(),
        j < g.len() ==> first == g[j].1.first,
    ensures
        groups_from(
            rendered_lines(g).skip(j),
            first,
            g.take(j).map_values(|x: (Seq<char>, OccurrenceRange)| x.0),
            parsed_form(g.take(j)),
        ) == Ok::<Seq<(Option<Seq<char>>, Option<OccurrenceRange>)>, GroupsError>(parsed_form(g)),
    decreases g.len() - j,
{
    let lines = rendered_lines(g).skip(j);
    let names = g.take(j).map_values(|x: (Seq<char>, OccurrenceRange)| x.0);
    let acc = parsed_form(g.take(j));
    if j == g.len() {
        assert(lines =~= Seq::<Seq<char>>::empty());
        assert(g.take(j) =~= g);
    } else {
        let x = g[j];
        assert(lines[0] == group_line_text(x.0, x.1.count));
        lemma_group_line_reads(x.0, x.1.count);
        assert(!names.contains(x.0)) by {
            if names.contains(x.0) {
                let i = choose|i: int| 0 <= i < names.len() && names[i] == x.0;
                assert(names[i] == g[i].0);
            }
        }
        let next = acc.push((Some(x.0), Some(OccurrenceRange { first, count: x.1.count })));
        assert(OccurrenceRange { first, count: x.1.count } == x.1);
        assert(next =~= parsed_form(g.take(j + 1)));
        assert(names.push(x.0) =~= g.take(j + 1).map_values(|y: (Seq<char>, OccurrenceRange)| y.0));
        assert(lines.drop_first() =~= rendered_lines(g).skip(j + 1));
        if j + 1 < g.len() {
            assert(g[j + 1].1.first == x.1.first + x.1.count);
        }
        lemma_groups_from_rendered(g, j + 1, (first + x.1.count) as u32);
    }
}

/// The group text of laid-out named groups parses back to exactly those
/// groups.
pub proof fn lemma_group_text_parses_back(g: Seq<(Seq<char>, OccurrenceRange)>)
    requires
        renderable(g),
    ensures
        parse_groups_spec(Some(join_lines(rendered_lines(g)))) == Ok::<
            Seq<(Option<Seq<char>>, Option<OccurrenceRange>)>,
            GroupsError,
        >(parsed_form(g)),
{
    reveal_strlit(" = ");
    let ls = rendered_lines(g);
    assert forall|k: int| 0 <= k < ls.len() implies plain_line(#[trigger] ls[k]) by {
        let x = g[k];
        let d = decimal(x.1.count as nat);
        lemma_decimal_digits(x.1.count as nat);
        let l = group_line_text(x.0, x.1.count);
        assert(ls[k] == l);
        assert(l.last() == d.last());
        assert('0' <= d.last() <= '9');
        assert forall|i: int| 0 <= i < l.len() implies l[i] != '\n' by {
            if i < x.0.len() {
                assert(l[i] == x.0[i]);
            } else if i >= x.0.len() + 3 {
                assert(l[i] == d[i - x.0.len() - 3]);
                assert('0' <= d[i - x.0.len() - 3] <= '9');
            } else {
                assert(" = "@ =~= seq![' ', '=', ' ']);
            }
        }
    }
    lemma_lines_of_joined(ls);
    assert(ls.skip(0) =~= ls);
    assert(g.take(0) =~= Seq::<(Seq<char>, OccurrenceRange)>::empty());
    assert(g.take(0).map_values(|x: (Seq<char>, OccurrenceRange)| x.0) =~= Seq::<Seq<char>>::empty());
    assert(parsed_form(g.take(0)) =~= Seq::<(Option<Seq<char>>, Option<OccurrenceRange>)>::empty());
    lemma_groups_from_rendered(g, 0, 1);
}

/// The named groups of the presentations at `kept`: each one's group name
/// (`default_name` without one) and its range at the last level.
pub open spec fn kept_groups(
    ps: Seq<PropertyOccurrence>,
    property: PropertyOccurrence,
    kept: Seq<usize>,
    default_name: Seq<char>,
) -> Seq<(Seq<char>, OccurrenceRange)> {
    kept.map_values(
        |i: usize|
            (
                match ps[i as int].occurrence_name {
                    Some(n) => n@,
                    None => default_name,
                },
                match range_of(ps, property, i) {
                    Some(r) => r,
                    None => OccurrenceRange { first: 0, count: 0 },
                },
            ),
    )
}

/// The group text shown for a population parses back to the groups it
/// shows, whenever those are laid out one after another from position 1
/// with distinct trimmed names.
pub proof fn lemma_shown_groups_parse_back(
    ps: Seq<PropertyOccurrence>,
    property: PropertyOccurrence,
    kept: Seq<usize>,
    default_name: Seq<char>,
)
    requires
        renderable(kept_groups(ps, property, kept, default_name)),
    ensures
        parse_groups_spec(Some(groups_text_of(ps, property, kept, default_name))) == Ok::<
            Seq<(Option<Seq<char>>, Option<OccurrenceRange>)>,
            GroupsError,
        >(parsed_form(kept_groups(ps, property, kept, default_name))),
{
    let g = kept_groups(ps, property, kept, default_name);
    let shown = kept.map_values(|i: usize| group_line(ps[i as int], last_level(property), default_name));
    assert(shown =~= rendered_lines(g));
    lemma_group_text_parses_back(g);
}

} // verus!
