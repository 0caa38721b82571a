//! Explicit presentation allocation of a reusable property's population:
//! occurrence groups typed by the user ("north = 1" per line), their ranges
//! along a property path, and how much of a multiplicity a view displays.

use vstd::prelude::*;
use crate::features::Multiplicity;
use crate::text::{
    chars_eq, chars_of, lines, opt_str, parse_u32, parse_u32_spec, slice_copy, split_lines,
    strings_eq, string_from_chars, strs, trim, trim_bounds, trimmed, views,
};

verus! {

/// Most occurrence groups one view can display.
pub const MAX_GROUPS: usize = 4096;

/// A run of `count` occurrences starting at the one-based display position
/// `first` in a population. It is a display position, not a semantic element ID.
#[derive(Debug, Clone, Copy, PartialEq, Eq, Structural, Hash)]
pub struct OccurrenceRange {
    pub first: u32,
    pub count: u32,
}

/// One parsed group: its display name and its range (both absent for the
/// compact presentation).
pub type OccurrenceGroup = (Option<String>, Option<OccurrenceRange>);

/// The content of a parsed group.
pub open spec fn group_view(g: OccurrenceGroup) -> (Option<Seq<char>>, Option<OccurrenceRange>) {
    (opt_str(g.0), g.1)
}

pub open spec fn groups_view(v: Seq<OccurrenceGroup>) -> Seq<(Option<Seq<char>>, Option<OccurrenceRange>)> {
    v.map_values(|g: OccurrenceGroup| group_view(g))
}

/// Why a group text is rejected.
#[derive(Debug, Clone, Copy, PartialEq, Eq, Structural)]
pub enum GroupsError {
    /// A nonblank line has no `=`.
    MissingEquals,
    /// The text after the last `=` is not a `u32`.
    BadCount,
    /// Blank name, zero count, or a repeated name.
    InvalidGroup,
    /// The display positions run past `u32::MAX`.
    RangeOverflow,
    /// More than [`MAX_GROUPS`] groups.
    TooManyGroups,
    /// No group at all.
    NoGroups,
}

/// The message the editor shows for each rejection.
pub open spec fn groups_error_text(e: GroupsError) -> Seq<char> {
    match e {
        GroupsError::MissingEquals => "Use one occurrence group per line: display name = count"@,
        GroupsError::BadCount => "Occurrence counts must be positive whole numbers"@,
        GroupsError::InvalidGroup => "Occurrence groups require distinct nonempty names and positive counts"@,
        GroupsError::RangeOverflow => "Occurrence count exceeds the supported range"@,
        GroupsError::TooManyGroups => "An occurrence view supports at most 4096 displayed groups"@,
        GroupsError::NoGroups => "Enter at least one occurrence group or choose Compact"@,
    }
}

pub fn groups_error_message(e: GroupsError) -> (m: String)
    ensures
        m@ == groups_error_text(e),
{
    match e {
        GroupsError::MissingEquals => "Use one occurrence group per line: display name = count".to_owned(),
        GroupsError::BadCount => "Occurrence counts must be positive whole numbers".to_owned(),
        GroupsError::InvalidGroup => "Occurrence groups require distinct nonempty names and positive counts".to_owned(),
        GroupsError::RangeOverflow => "Occurrence count exceeds the supported range".to_owned(),
        GroupsError::TooManyGroups => "An occurrence view supports at most 4096 displayed groups".to_owned(),
        GroupsError::NoGroups => "Enter at least one occurrence group or choose Compact".to_owned(),
    }
}

/// Index of the last `c` in `l`, or `-1`.
pub open spec fn last_index_of(l: Seq<char>, c: char) -> int
    decreases l.len(),
{
    if l.len() == 0 {
        -1
    } else if l.last() == c {
        l.len() - 1
    } else {
        last_index_of(l.drop_last(), c)
    }
}

/// The groups that the remaining `lines` add to `acc`, given the next display
/// position `first` and the names used so far; the first rejected line decides
/// the error.
pub open spec fn groups_from(
    lines: Seq<Seq<char>>,
    first: u32,
    names: Seq<Seq<char>>,
    acc: Seq<(Option<Seq<char>>, Option<OccurrenceRange>)>,
) -> Result<Seq<(Option<Seq<char>>, Option<OccurrenceRange>)>, GroupsError>
    decreases lines.len(),
{
    if lines.len() == 0 {
        if acc.len() == 0 {
            Err(GroupsError::NoGroups)
        } else {
            Ok(acc)
        }
    } else {
        let l = lines[0];
        if trim(l).len() == 0 {
            groups_from(lines.drop_first(), first, names, acc)
        } else {
            let k = last_index_of(l, '=');
            if k < 0 {
                Err(GroupsError::MissingEquals)
            } else {
                let name = trim(l.take(k));
                match parse_u32_spec(trim(l.skip(k + 1))) {
                    None => Err(GroupsError::BadCount),
                    Some(count) => {
                        if name.len() == 0 || count == 0 || names.contains(name) {
                            Err(GroupsError::InvalidGroup)
                        } else {
                            let next = acc.push(
                                (Some(name), Some(OccurrenceRange { first, count })),
                            );
                            if first + count > u32::MAX {
                                Err(GroupsError::RangeOverflow)
                            } else if next.len() > MAX_GROUPS {
                                Err(GroupsError::TooManyGroups)
                            } else {
                                groups_from(
                                    lines.drop_first(),
                                    (first + count) as u32,
                                    names.push(name),
                                    next,
                                )
                            }
                        }
                    },
                }
            }
        }
    }
}

/// The groups a text describes: one `name = count` per nonblank line, ranges
/// laid out one after another from display position 1. No text means the
/// single compact presentation.
pub open spec fn parse_groups_spec(text: Option<Seq<char>>) -> Result<
    Seq<(Option<Seq<char>>, Option<OccurrenceRange>)>,
    GroupsError,
> {
    match text {
        None => Ok(seq![(None, None)]),
        Some(t) => groups_from(lines(t), 1, Seq::empty(), Seq::empty()),
    }
}

/// The groups are named (distinct names), each selects a nonempty range, and
/// the ranges are laid out one after another from display position 1.
pub open spec fn laid_out(g: Seq<(Option<Seq<char>>, Option<OccurrenceRange>)>) -> bool {
    &&& forall|k: int|
        0 <= k < g.len() ==> (#[trigger] g[k]).0 is Some && g[k].1 is Some && g[k].1->0.count > 0
    &&& forall|i: int, j: int| 0 <= i < j < g.len() ==> g[i].0 != g[j].0
    &&& g.len() > 0 ==> g[0].1->0.first == 1
    &&& forall|k: int|
        0 < k < g.len() ==> (#[trigger] g[k]).1->0.first == g[k - 1].1->0.first + g[k - 1].1->0.count
}

/// What the groups parsed so far keep: names as listed, ranges laid out up to `first`.
spec fn groups_so_far(
    acc: Seq<(Option<Seq<char>>, Option<OccurrenceRange>)>,
    first: u32,
    names: Seq<Seq<char>>,
) -> bool {
    &&& laid_out(acc)
    &&& acc.len() == names.len()
    &&& forall|k: int| 0 <= k < acc.len() ==> (#[trigger] acc[k]).0 == Some(names[k])
    &&& acc.len() == 0 ==> first == 1
    &&& acc.len() > 0 ==> acc.last().1->0.first + acc.last().1->0.count == first
}

proof fn lemma_groups_from_laid_out(
    lines: Seq<Seq<char>>,
    first: u32,
    names: Seq<Seq<char>>,
    acc: Seq<(Option<Seq<char>>, Option<OccurrenceRange>)>,
)
    requires
        groups_so_far(acc, first, names),
    ensures
        groups_from(lines, first, names, acc) matches Ok(g) ==> laid_out(g),
    decreases lines.len(),
{
    if lines.len() > 0 {
        let l = lines[0];
        if trim(l).len() == 0 {
            lemma_groups_from_laid_out(lines.drop_first(), first, names, acc);
        } else {
            let k = last_index_of(l, '=');
            if k >= 0 {
                let name = trim(l.take(k));
                if let Some(count) = parse_u32_spec(trim(l.skip(k + 1))) {
                    if !(name.len() == 0 || count == 0 || names.contains(name)) && first + count
                        <= u32::MAX {
                        let next = acc.push((Some(name), Some(OccurrenceRange { first, count })));
                        let names2 = names.push(name);
                        assert forall|i: int, j: int| 0 <= i < j < next.len() implies next[i].0
                            != next[j].0 by {
                            if j == next.len() - 1 {
                                assert(next[i].0 == Some(names[i]));
                                assert(names.contains(names[i]));
                            }
                        }
                        assert forall|x: int| 0 <= x < next.len() implies (#[trigger] next[x]).0
                            == Some(names2[x]) by {
                            if x < acc.len() {
                                assert(next[x] == acc[x]);
                            }
                        }
                        assert forall|x: int| 0 < x < next.len() implies (#[trigger] next[x]).1->0.first
                            == next[x - 1].1->0.first + next[x - 1].1->0.count by {
                            if x < acc.len() {
                                assert(next[x] == acc[x]);
                                assert(next[x - 1] == acc[x - 1]);
                            } else {
                                assert(next[x - 1] == acc.last());
                            }
                        }
                        assert(groups_so_far(next, (first + count) as u32, names2));
                        lemma_groups_from_laid_out(lines.drop_first(), (first + count) as u32, names2, next);
                    }
                }
            }
        }
    }
}

/// The ranges of laid-out groups do not overlap: each ends before the next begins.
proof fn lemma_laid_out_ordered(g: Seq<(Option<Seq<char>>, Option<OccurrenceRange>)>, i: int, j: int)
    requires
        laid_out(g),
        0 <= i < j < g.len(),
    ensures
        g[i].1->0.first + g[i].1->0.count <= g[j].1->0.first,
    decreases j - i,
{
    assert(g[j - 1].1->0.count > 0);
    assert(g[j].1->0.first == g[j - 1].1->0.first + g[j - 1].1->0.count);
    if i < j - 1 {
        lemma_laid_out_ordered(g, i, j - 1);
    }
}

/// The groups parsed from a text are named distinctly and select nonempty
/// ranges laid out one after another from display position 1; so no two of
/// them overlap.
pub proof fn lemma_parsed_groups_laid_out(t: Seq<char>, i: int, j: int)
    requires
        parse_groups_spec(Some(t)) is Ok,
        0 <= i < j < parse_groups_spec(Some(t))->Ok_0.len(),
    ensures
        laid_out(parse_groups_spec(Some(t))->Ok_0),
        parse_groups_spec(Some(t))->Ok_0[i].0 != parse_groups_spec(Some(t))->Ok_0[j].0,
        parse_groups_spec(Some(t))->Ok_0[i].1->0.first + parse_groups_spec(Some(t))->Ok_0[i].1->0.count
            <= parse_groups_spec(Some(t))->Ok_0[j].1->0.first,
{
    lemma_groups_from_laid_out(lines(t), 1, Seq::empty(), Seq::empty());
    lemma_laid_out_ordered(parse_groups_spec(Some(t))->Ok_0, i, j);
}

/// Whether a list of character vectors holds `x`.
fn contains_chars(v: &Vec<Vec<char>>, x: &Vec<char>) -> (r: bool)
    ensures
        r == views(v@).contains(x@),
{
    let mut k: usize = 0;
    while k < v.len()
        invariant
            k <= v@.len(),
            forall|i: int| 0 <= i < k ==> v@[i]@ != x@,
        decreases v.len() - k,
    {
        if chars_eq(v[k].as_slice(), x.as_slice()) {
            assert(views(v@)[k as int] == x@);
            return true;
        }
        k = k + 1;
    }
    assert forall|i: int| 0 <= i < views(v@).len() implies views(v@)[i] != x@ by {
        assert(views(v@)[i] == v@[i]@);
    }
    false
}

/// Parse the occurrence groups of a text.
pub fn parse_groups(text: Option<&str>) -> (r: Result<Vec<OccurrenceGroup>, String>)
    ensures
        match (r, parse_groups_spec(match text { Some(t) => Some(t@), None => None })) {
            (Ok(v), Ok(g)) => groups_view(v@) == g,
            (Err(m), Err(e)) => m@ == groups_error_text(e),
            _ => false,
        },
{
    let t = match text {
        None => {
            let v: Vec<OccurrenceGroup> = vec![(None, None)];
            assert(groups_view(v@) =~= seq![(None::<Seq<char>>, None::<OccurrenceRange>)]);
            return Ok(v);
        },
        Some(t) => t,
    };
    let chars = chars_of(t);
    let all = split_lines(chars.as_slice());
    let ghost ls = lines(t@);
    let mut result: Vec<OccurrenceGroup> = Vec::new();
    let mut names: Vec<Vec<char>> = Vec::new();
    let mut first: u32 = 1;
    let mut i: usize = 0;
    assert(ls.skip(0) =~= ls);
    assert(views(names@) =~= Seq::<Seq<char>>::empty());
    assert(groups_view(result@) =~= Seq::<(Option<Seq<char>>, Option<OccurrenceRange>)>::empty());
    while i < all.len()
        invariant
            i <= all@.len(),
            views(all@) == ls,
            ls == lines(t@),
            text == Some(t),
            groups_from(ls, 1, Seq::empty(), Seq::empty()) == groups_from(
                ls.skip(i as int),
                first,
                views(names@),
                groups_view(result@),
            ),
            result@.len() <= MAX_GROUPS,
        decreases all.len() - i,
    {
        let line = &all[i];
        let ghost l = ls[i as int];
        assert(line@ == l);
        assert(ls.skip(i as int)[0] == l);
        assert(ls.skip(i as int).drop_first() =~= ls.skip(i + 1));
        let (a, b) = trim_bounds(line.as_slice());
        if a == b {
            assert(trim(l).len() == 0);
            i = i + 1;
            continue;
        }
        assert(trim(l).len() > 0);
        let mut k = line.len();
        assert(l.take(k as int) =~= l);
        while k > 0 && line[k - 1] != '='
            invariant
                k <= line@.len(),
                last_index_of(l, '=') == last_index_of(l.take(k as int), '='),
                l == line@,
            decreases k,
        {
            assert(l.take(k as int).drop_last() =~= l.take(k - 1));
            k = k - 1;
        }
        if k == 0 {
            assert(l.take(0) =~= Seq::<char>::empty());
            assert(last_index_of(l, '=') < 0);
            assert(groups_from(ls.skip(i as int), first, views(names@), groups_view(result@))
                == Err::<Seq<(Option<Seq<char>>, Option<OccurrenceRange>)>, GroupsError>(
                GroupsError::MissingEquals,
            ));
            return Err(groups_error_message(GroupsError::MissingEquals));
        }
        let eq = k - 1;
        assert(l.take(k as int).last() == '=');
        assert(last_index_of(l, '=') == eq);
        let head = slice_copy(line.as_slice(), 0, eq);
        let tail = slice_copy(line.as_slice(), eq + 1, line.len());
        assert(head@ =~= l.take(eq as int));
        assert(tail@ =~= l.skip(eq + 1));
        let name = trimmed(head.as_slice());
        let count_text = trimmed(tail.as_slice());
        let count = match parse_u32(count_text.as_slice()) {
            None => {
                return Err(groups_error_message(GroupsError::BadCount));
            },
            Some(c) => c,
        };
        if name.len() == 0 || count == 0 || contains_chars(&names, &name) {
            return Err(groups_error_message(GroupsError::InvalidGroup));
        }
        let ghost old_result = result@;
        let ghost old_names = names@;
        let range = OccurrenceRange { first, count };
        result.push((Some(string_from_chars(name.as_slice())), Some(range)));
        assert(groups_view(result@) =~= groups_view(old_result).push(
            (Some(name@), Some(range)),
        )) by {
            assert(result@ =~= old_result.push(result@.last()));
        }
        let ghost old_first = first;
        assert(count_text@ == trim(l.skip(eq + 1)));
        assert(name@ == trim(l.take(eq as int)));
        if first > u32::MAX - count {
            return Err(groups_error_message(GroupsError::RangeOverflow));
        }
        first = first + count;
        if result.len() > MAX_GROUPS {
            assert(groups_from(ls.skip(i as int), old_first, views(old_names), groups_view(old_result))
                == Err::<Seq<(Option<Seq<char>>, Option<OccurrenceRange>)>, GroupsError>(
                GroupsError::TooManyGroups,
            ));
            return Err(groups_error_message(GroupsError::TooManyGroups));
        }
        names.push(name);
        assert(views(names@) =~= views(old_names).push(name@)) by {
            assert(names@ =~= old_names.push(names@.last()));
        }
        i = i + 1;
    }
    assert(ls.skip(i as int) =~= Seq::<Seq<char>>::empty());
    if result.len() == 0 {
        return Err(groups_error_message(GroupsError::NoGroups));
    }
    Ok(result)
}


/// What the occurrence rules read of one property presentation in an internal
/// block diagram: its identity, the semantic property path it presents, the
/// occurrence range selected at each level of that path, its group name,
/// whether it is collapsed, and the identities of its port presentations.
#[derive(Debug, Clone)]
pub struct PropertyOccurrence {
    pub id: String,
    pub property_path: Vec<String>,
    pub occurrence_path: Vec<Option<OccurrenceRange>>,
    pub occurrence_name: Option<String>,
    pub collapsed: bool,
    pub port_ids: Vec<String>,
}

/// The range at `index` of a range list, `None` past its end.
pub open spec fn range_get(rs: Seq<Option<OccurrenceRange>>, index: int) -> Option<OccurrenceRange> {
    if 0 <= index < rs.len() {
        rs[index]
    } else {
        None
    }
}

/// The occurrence range `p` selects at level `index` of its path.
pub open spec fn range_at_spec(p: PropertyOccurrence, index: int) -> Option<OccurrenceRange> {
    range_get(p.occurrence_path@, index)
}

/// The occurrence range `property` selects at level `index` of its path.
pub fn range_at(property: &PropertyOccurrence, index: usize) -> (r: Option<OccurrenceRange>)
    ensures
        r == range_at_spec(*property, index as int),
{
    if index < property.occurrence_path.len() {
        property.occurrence_path[index]
    } else {
        None
    }
}

fn same_range(a: Option<OccurrenceRange>, b: Option<OccurrenceRange>) -> (r: bool)
    ensures
        r == (a == b),
{
    match (a, b) {
        (Some(x), Some(y)) => x.first == y.first && x.count == y.count,
        (None, None) => true,
        _ => false,
    }
}

/// Whether two range lists agree on their first `depth` levels.
pub open spec fn ranges_equal_spec(
    a: Seq<Option<OccurrenceRange>>,
    b: Seq<Option<OccurrenceRange>>,
    depth: int,
) -> bool {
    forall|i: int| 0 <= i < depth ==> range_get(a, i) == range_get(b, i)
}

/// Whether two range lists agree on their first `depth` levels (a missing
/// level counts as no selection).
pub fn ranges_equal(
    a: &[Option<OccurrenceRange>],
    b: &[Option<OccurrenceRange>],
    depth: usize,
) -> (r: bool)
    ensures
        r == ranges_equal_spec(a@, b@, depth as int),
{
    let mut i: usize = 0;
    while i < depth
        invariant
            i <= depth,
            forall|j: int| 0 <= j < i ==> range_get(a@, j) == range_get(b@, j),
        decreases depth - i,
    {
        let x = if i < a.len() { a[i] } else { None };
        let y = if i < b.len() { b[i] } else { None };
        if !same_range(x, y) {
            assert(range_get(a@, i as int) != range_get(b@, i as int));
            return false;
        }
        i = i + 1;
    }
    true
}

/// Whether two presentations present the same first `depth` path levels with
/// the same occurrence ranges.
pub open spec fn same_prefix_spec(a: PropertyOccurrence, b: PropertyOccurrence, depth: int) -> bool {
    &&& a.property_path@.len() >= depth
    &&& b.property_path@.len() >= depth
    &&& strs(a.property_path@).take(depth) == strs(b.property_path@).take(depth)
    &&& ranges_equal_spec(a.occurrence_path@, b.occurrence_path@, depth)
}

/// Whether two presentations share the first `depth` levels of path and ranges.
pub fn same_prefix(a: &PropertyOccurrence, b: &PropertyOccurrence, depth: usize) -> (r: bool)
    ensures
        r == same_prefix_spec(*a, *b, depth as int),
{
    if a.property_path.len() < depth || b.property_path.len() < depth {
        return false;
    }
    let mut i: usize = 0;
    while i < depth
        invariant
            i <= depth <= a.property_path@.len(),
            depth <= b.property_path@.len(),
            forall|j: int| 0 <= j < i ==> a.property_path@[j]@ == b.property_path@[j]@,
        decreases depth - i,
    {
        if a.property_path[i] != b.property_path[i] {
            assert(strs(a.property_path@).take(depth as int)[i as int] != strs(
                b.property_path@,
            ).take(depth as int)[i as int]);
            return false;
        }
        i = i + 1;
    }
    assert(strs(a.property_path@).take(depth as int) =~= strs(b.property_path@).take(
        depth as int,
    ));
    ranges_equal(a.occurrence_path.as_slice(), b.occurrence_path.as_slice(), depth)
}

/// Whether `path` lies strictly below `parent`.
pub open spec fn is_descendant_spec(path: Seq<Seq<char>>, parent: Seq<Seq<char>>) -> bool {
    path.len() > parent.len() && path.take(parent.len() as int) == parent
}

/// Whether the property path `path` lies strictly below `parent`.
pub fn is_descendant(path: &[String], parent: &[String]) -> (r: bool)
    ensures
        r == is_descendant_spec(strs(path@), strs(parent@)),
{
    if path.len() <= parent.len() {
        return false;
    }
    let mut i: usize = 0;
    while i < parent.len()
        invariant
            i <= parent@.len() < path@.len(),
            forall|j: int| 0 <= j < i ==> path@[j]@ == parent@[j]@,
        decreases parent.len() - i,
    {
        if path[i] != parent[i] {
            assert(strs(path@).take(parent@.len() as int)[i as int] != strs(parent@)[i as int]);
            return false;
        }
        i = i + 1;
    }
    assert(strs(path@).take(parent@.len() as int) =~= strs(parent@));
    true
}

/// A presentation is hidden when some collapsed presentation lies above it.
pub open spec fn property_visible_spec(
    properties: Seq<PropertyOccurrence>,
    property: PropertyOccurrence,
) -> bool {
    !exists|k: int|
        0 <= k < properties.len() && (#[trigger] properties[k]).collapsed && is_descendant_spec(
            strs(property.property_path@),
            strs(properties[k].property_path@),
        )
}

/// Whether `property` is shown: no collapsed presentation lies above it.
pub fn property_visible(properties: &[PropertyOccurrence], property: &PropertyOccurrence) -> (r:
    bool)
    ensures
        r == property_visible_spec(properties@, *property),
{
    let mut k: usize = 0;
    while k < properties.len()
        invariant
            k <= properties@.len(),
            forall|j: int|
                0 <= j < k ==> !((#[trigger] properties@[j]).collapsed && is_descendant_spec(
                    strs(property.property_path@),
                    strs(properties@[j].property_path@),
                )),
        decreases properties.len() - k,
    {
        if properties[k].collapsed && is_descendant(
            property.property_path.as_slice(),
            properties[k].property_path.as_slice(),
        ) {
            return false;
        }
        k = k + 1;
    }
    true
}

/// Whether a presentation has identity `id` or owns a port with that identity.
pub open spec fn owns_endpoint(p: PropertyOccurrence, id: Seq<char>) -> bool {
    p.id@ == id || strs(p.port_ids@).contains(id)
}

fn contains_string(v: &[String], x: &String) -> (r: bool)
    ensures
        r == strs(v@).contains(x@),
{
    let mut k: usize = 0;
    while k < v.len()
        invariant
            k <= v@.len(),
            forall|j: int| 0 <= j < k ==> v@[j]@ != x@,
        decreases v.len() - k,
    {
        if v[k] == *x {
            assert(strs(v@)[k as int] == x@);
            return true;
        }
        k = k + 1;
    }
    assert forall|j: int| 0 <= j < strs(v@).len() implies strs(v@)[j] != x@ by {
        assert(strs(v@)[j] == v@[j]@);
    }
    false
}

fn owns(p: &PropertyOccurrence, id: &String) -> (r: bool)
    ensures
        r == owns_endpoint(*p, id@),
{
    p.id == *id || contains_string(p.port_ids.as_slice(), id)
}

/// Whether an endpoint with identity `id` is shown: a boundary port, or a
/// visible property presentation that is or owns it.
pub open spec fn endpoint_visible_spec(
    boundary_port_ids: Seq<Seq<char>>,
    properties: Seq<PropertyOccurrence>,
    id: Seq<char>,
) -> bool {
    boundary_port_ids.contains(id) || exists|k: int|
        0 <= k < properties.len() && owns_endpoint(#[trigger] properties[k], id)
            && property_visible_spec(properties, properties[k])
}

/// Whether the endpoint `id` is shown in the diagram.
pub fn endpoint_visible(
    boundary_port_ids: &[String],
    properties: &[PropertyOccurrence],
    id: &String,
) -> (r: bool)
    ensures
        r == endpoint_visible_spec(strs(boundary_port_ids@), properties@, id@),
{
    if contains_string(boundary_port_ids, id) {
        return true;
    }
    let mut k: usize = 0;
    while k < properties.len()
        invariant
            k <= properties@.len(),
            forall|j: int|
                0 <= j < k ==> !(owns_endpoint(#[trigger] properties@[j], id@)
                    && property_visible_spec(properties@, properties@[j])),
        decreases properties.len() - k,
    {
        if owns(&properties[k], id) && property_visible(properties, &properties[k]) {
            return true;
        }
        k = k + 1;
    }
    false
}

/// Index of the first presentation that is or owns the endpoint `id`.
pub open spec fn endpoint_index(properties: Seq<PropertyOccurrence>, id: Seq<char>) -> Option<int>
    decreases properties.len(),
{
    if properties.len() == 0 {
        None
    } else if owns_endpoint(properties[0], id) {
        Some(0)
    } else {
        match endpoint_index(properties.drop_first(), id) {
            Some(k) => Some(k + 1),
            None => None,
        }
    }
}

/// The position `endpoint_index` finds holds a presentation that is or owns the endpoint.
pub proof fn lemma_endpoint_index(properties: Seq<PropertyOccurrence>, id: Seq<char>)
    ensures
        endpoint_index(properties, id) matches Some(k) ==> 0 <= k < properties.len()
            && owns_endpoint(properties[k], id),
    decreases properties.len(),
{
    if properties.len() > 0 && !owns_endpoint(properties[0], id) {
        lemma_endpoint_index(properties.drop_first(), id);
    }
}

/// The presentation that is or owns the endpoint `id`, as an index.
pub fn endpoint_property(properties: &[PropertyOccurrence], id: &String) -> (r: Option<usize>)
    ensures
        match r {
            Some(k) => endpoint_index(properties@, id@) == Some(k as int) && k < properties@.len()
                && owns_endpoint(properties@[k as int], id@),
            None => endpoint_index(properties@, id@) is None,
        },
{
    proof {
        lemma_endpoint_index(properties@, id@);
    }
    let mut k: usize = 0;
    assert(properties@.skip(0) =~= properties@);
    while k < properties.len()
        invariant
            k <= properties@.len(),
            endpoint_index(properties@, id@) == (match endpoint_index(
                properties@.skip(k as int),
                id@,
            ) {
                Some(j) => Some(j + k),
                None => None,
            }),
        decreases properties.len() - k,
    {
        assert(properties@.skip(k as int)[0] == properties@[k as int]);
        assert(properties@.skip(k as int).drop_first() =~= properties@.skip(k + 1));
        if owns(&properties[k], id) {
            return Some(k);
        }
        k = k + 1;
    }
    None
}

/// Whether the presentation that is or owns `id` selects exactly `ranges`
/// along its path (an endpoint no presentation owns matches only when no
/// range is selected).
pub open spec fn endpoint_matches_context_spec(
    properties: Seq<PropertyOccurrence>,
    id: Seq<char>,
    ranges: Seq<Option<OccurrenceRange>>,
) -> bool {
    match endpoint_index(properties, id) {
        None => forall|i: int| 0 <= i < ranges.len() ==> ranges[i] is None,
        Some(k) => forall|i: int|
            0 <= i < properties[k].property_path@.len() ==> range_at_spec(properties[k], i)
                == range_get(ranges, i),
    }
}

/// Whether the endpoint `id` sits in the occurrence context `ranges`.
pub fn endpoint_matches_context(
    properties: &[PropertyOccurrence],
    id: &String,
    ranges: &[Option<OccurrenceRange>],
) -> (r: bool)
    ensures
        r == endpoint_matches_context_spec(properties@, id@, ranges@),
{
    match endpoint_property(properties, id) {
        None => {
            let mut i: usize = 0;
            while i < ranges.len()
                invariant
                    i <= ranges@.len(),
                    endpoint_index(properties@, id@) is None,
                    forall|j: int| 0 <= j < i ==> ranges@[j] is None,
                decreases ranges.len() - i,
            {
                if ranges[i].is_some() {
                    return false;
                }
                i = i + 1;
            }
            true
        },
        Some(k) => {
            let p = &properties[k];
            let mut i: usize = 0;
            while i < p.property_path.len()
                invariant
                    i <= p.property_path@.len(),
                    k < properties@.len(),
                    endpoint_index(properties@, id@) == Some(k as int),
                    *p == properties@[k as int],
                    forall|j: int| 0 <= j < i ==> range_at_spec(*p, j) == range_get(ranges@, j),
                decreases p.property_path.len() - i,
            {
                let x = range_at(p, i);
                let y = if i < ranges.len() { ranges[i] } else { None };
                if !same_range(x, y) {
                    return false;
                }
                i = i + 1;
            }
            true
        },
    }
}


/// How many occurrences of a multiplicity one property's presentations show.
#[derive(Debug)]
pub struct OccurrenceCoverage {
    /// Total size of the distinct ranges shown, absent when some peer is compact.
    pub displayed: Option<u64>,
    /// The multiplicity notation of the definition.
    pub constraint: String,
    pub status: String,
}

/// Whether `p` presents the same path as `property`, below the same
/// occurrences of every enclosing level.
pub open spec fn is_peer(p: PropertyOccurrence, property: PropertyOccurrence) -> bool {
    let depth = property.property_path@.len();
    strs(p.property_path@) == strs(property.property_path@) && same_prefix_spec(
        property,
        p,
        if depth >= 1 { depth - 1 } else { 0 },
    )
}

/// Whether some peer of `property` among `ps` is compact (selects no range at
/// the last level).
pub open spec fn any_compact(ps: Seq<PropertyOccurrence>, property: PropertyOccurrence) -> bool
    decreases ps.len(),
{
    if ps.len() == 0 {
        false
    } else {
        any_compact(ps.drop_last(), property) || (is_peer(ps.last(), property) && range_at_spec(
            ps.last(),
            property.property_path@.len() - 1,
        ) is None)
    }
}

/// The ranges the peers of `property` among `ps` select at the last level, in order.
pub open spec fn peer_ranges(ps: Seq<PropertyOccurrence>, property: PropertyOccurrence) -> Seq<
    OccurrenceRange,
>
    decreases ps.len(),
{
    if ps.len() == 0 {
        Seq::empty()
    } else {
        let rest = peer_ranges(ps.drop_last(), property);
        match range_at_spec(ps.last(), property.property_path@.len() - 1) {
            Some(r) => if is_peer(ps.last(), property) {
                rest.push(r)
            } else {
                rest
            },
            None => rest,
        }
    }
}

/// The summed counts of the distinct ranges in `rs`.
pub open spec fn distinct_total(rs: Seq<OccurrenceRange>) -> int
    decreases rs.len(),
{
    if rs.len() == 0 {
        0
    } else {
        distinct_total(rs.drop_last()) + if rs.drop_last().contains(rs.last()) {
            0
        } else {
            rs.last().count as int
        }
    }
}

proof fn lemma_distinct_total_bound(rs: Seq<OccurrenceRange>)
    ensures
        0 <= distinct_total(rs) <= rs.len() * (u32::MAX as int),
    decreases rs.len(),
{
    if rs.len() > 0 {
        lemma_distinct_total_bound(rs.drop_last());
    }
}

proof fn lemma_peer_ranges_len(ps: Seq<PropertyOccurrence>, property: PropertyOccurrence)
    ensures
        peer_ranges(ps, property).len() <= ps.len(),
    decreases ps.len(),
{
    if ps.len() > 0 {
        lemma_peer_ranges_len(ps.drop_last(), property);
    }
}

/// The coverage status wording.
pub open spec fn coverage_status(compact: bool, total: int, m: Multiplicity) -> Seq<char> {
    if compact {
        "Compact population"@
    } else if m.upper == Some(m.lower) && total == m.lower {
        "Complete population"@
    } else if m.upper matches Some(u) && total > u {
        "Exceeds definition"@
    } else {
        "Partial population view"@
    }
}

/// How much of the multiplicity `definition` of `property` the presentations
/// `properties` display; `constraint` is the multiplicity's notation.
pub fn coverage(
    properties: &[PropertyOccurrence],
    property: &PropertyOccurrence,
    definition: Multiplicity,
    constraint: String,
) -> (c: OccurrenceCoverage)
    requires
        property.property_path@.len() > 0,
        properties@.len() <= u32::MAX,
    ensures
        c.displayed == (if any_compact(properties@, *property) {
            None
        } else {
            Some(distinct_total(peer_ranges(properties@, *property)) as u64)
        }),
        c.constraint@ == constraint@,
        c.status@ == coverage_status(
            any_compact(properties@, *property),
            distinct_total(peer_ranges(properties@, *property)),
            definition,
        ),
{
    let depth = property.property_path.len();
    let mut found: Vec<OccurrenceRange> = Vec::new();
    let mut compact = false;
    let mut total: u64 = 0;
    let mut k: usize = 0;
    while k < properties.len()
        invariant
            k <= properties@.len() <= u32::MAX,
            depth == property.property_path@.len() > 0,
            found@ == peer_ranges(properties@.take(k as int), *property),
            compact == any_compact(properties@.take(k as int), *property),
            total == distinct_total(found@),
        decreases properties.len() - k,
    {
        let ghost prefix = properties@.take(k + 1);
        assert(prefix.drop_last() =~= properties@.take(k as int));
        assert(prefix.last() == properties@[k as int]);
        let peer = &properties[k];
        let is_peer_here = strings_eq(peer.property_path.as_slice(), property.property_path.as_slice())
            && same_prefix(property, peer, depth - 1);
        if is_peer_here {
            match range_at(peer, depth - 1) {
                Some(r) => {
                    let mut seen = false;
                    let mut j: usize = 0;
                    while j < found.len()
                        invariant
                            j <= found@.len(),
                            seen == found@.take(j as int).contains(r),
                        decreases found.len() - j,
                    {
                        let ghost t = found@.take(j + 1);
                        assert(t =~= found@.take(j as int).push(found@[j as int]));
                        if found[j].first == r.first && found[j].count == r.count {
                            seen = true;
                            assert(t[j as int] == r);
                        } else {
                            proof {
                                assert(found@[j as int] != r);
                                if t.contains(r) {
                                    let w = choose|w: int| 0 <= w < t.len() && t[w] == r;
                                    assert(found@.take(j as int)[w] == r);
                                }
                            }
                        }
                        j = j + 1;
                    }
                    assert(found@.take(found@.len() as int) =~= found@);
                    proof {
                        lemma_peer_ranges_len(properties@.take(k as int), *property);
                        lemma_distinct_total_bound(found@);
                    }
                    let ghost before = found@;
                    found.push(r);
                    assert(found@.drop_last() =~= before);
                    if !seen {
                        total = total + r.count as u64;
                    }
                },
                None => {
                    compact = true;
                },
            }
        }
        k = k + 1;
    }
    assert(properties@.take(properties@.len() as int) =~= properties@);
    let status = if compact {
        "Compact population".to_owned()
    } else if definition.upper == Some(definition.lower) && total == definition.lower as u64 {
        "Complete population".to_owned()
    } else if match definition.upper {
        Some(u) => total > u as u64,
        None => false,
    } {
        "Exceeds definition".to_owned()
    } else {
        "Partial population view".to_owned()
    };
    OccurrenceCoverage { displayed: if compact { None } else { Some(total) }, constraint, status }
}

/// A population is reported complete exactly when nothing is compact, the
/// multiplicity is exact (its upper bound equals its lower bound) and the
/// displayed occurrences add up to that number; an open or wider multiplicity
/// is never complete, however many occurrences are shown. Otherwise it is
/// compact when a presentation is, exceeds the definition when more than the
/// upper bound are shown, and is a partial view in every other case.
pub proof fn lemma_complete_only_for_exact_multiplicity(compact: bool, total: int, m: Multiplicity)
    ensures
        (coverage_status(compact, total, m) == "Complete population"@) <==> (!compact && m.upper == Some(m.lower)
            && total == m.lower),
        m.upper is None ==> coverage_status(compact, total, m) != "Complete population"@,
        (coverage_status(compact, total, m) == "Compact population"@) <==> compact,
        (coverage_status(compact, total, m) == "Exceeds definition"@) <==> (!compact && !(m.upper == Some(m.lower)
            && total == m.lower) && (m.upper matches Some(u) && total > u)),
        (coverage_status(compact, total, m) == "Partial population view"@) <==> (!compact && !(m.upper == Some(
            m.lower) && total == m.lower) && !(m.upper matches Some(u) && total > u)),
{
    reveal_strlit("Complete population");
    reveal_strlit("Compact population");
    reveal_strlit("Exceeds definition");
    reveal_strlit("Partial population view");
    assert("Complete population"@.len() == 19);
    assert("Compact population"@.len() == 18);
    assert("Exceeds definition"@.len() == 18);
    assert("Partial population view"@.len() == 23);
    assert("Compact population"@[0] == 'C' && "Exceeds definition"@[0] == 'E');
    assert("Compact population"@ != "Exceeds definition"@);
}

} // verus!
