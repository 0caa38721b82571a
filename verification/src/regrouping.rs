//! Regrouping a property's population in an internal block diagram: the user
//! types the groups ("north = 1" per line) for one presentation, and either
//! the groups keep the ranges already shown (only names change) or the
//! population's presentations are rebuilt from templates, one group at a time.

use vstd::prelude::*;
use crate::ids::{fresh_uuid_text, is_v4_uuid_text};
use crate::occurrences::{
    OccurrenceGroup, OccurrenceRange, PropertyOccurrence, group_view, groups_view, parse_groups, parse_groups_spec, groups_error_text, range_at, range_at_spec, same_prefix, same_prefix_spec,
};
use crate::text::{opt_str, strings_eq, strs};

verus! {

/// No two presentations share an identity.
pub open spec fn unique_ids(ps: Seq<PropertyOccurrence>) -> bool {
    forall|a: int, b: int| 0 <= a < b < ps.len() ==> ps[a].id@ != ps[b].id@
}

/// The first position from `k` on whose presentation has identity `id`.
pub open spec fn position_of(ps: Seq<PropertyOccurrence>, id: Seq<char>, k: int) -> Option<int>
    decreases ps.len() - k,
{
    if k < 0 || k >= ps.len() {
        None
    } else if ps[k].id@ == id {
        Some(k)
    } else {
        position_of(ps, id, k + 1)
    }
}

/// `p` shows the same population as `sel`: the same path below the same
/// enclosing occurrences (`depth` is the path length of `sel`).
pub open spec fn in_population(p: PropertyOccurrence, sel: PropertyOccurrence, depth: int) -> bool {
    strs(p.property_path@) == strs(sel.property_path@) && same_prefix_spec(p, sel, depth - 1)
}

/// The positions below `k` of the presentations of the population of `sel`, in order.
pub open spec fn population(ps: Seq<PropertyOccurrence>, sel: PropertyOccurrence, depth: int, k: int) -> Seq<
    usize,
>
    decreases k,
{
    if k <= 0 {
        Seq::empty()
    } else if in_population(ps[k - 1], sel, depth) {
        population(ps, sel, depth, k - 1).push((k - 1) as usize)
    } else {
        population(ps, sel, depth, k - 1)
    }
}

/// Some presentation of the population selects `r` at the last level.
pub open spec fn shown(ps: Seq<PropertyOccurrence>, peers: Seq<usize>, depth: int, r: Option<OccurrenceRange>) -> bool {
    exists|j: int| 0 <= j < peers.len() && #[trigger] range_at_spec(ps[peers[j] as int], depth - 1) == r
}

/// Some requested group selects `r`.
pub open spec fn requested(groups: Seq<(Option<Seq<char>>, Option<OccurrenceRange>)>, r: Option<OccurrenceRange>) -> bool {
    exists|x: int| 0 <= x < groups.len() && #[trigger] groups[x].1 == r
}

/// The requested groups select exactly the ranges the population already
/// shows: as many groups as presentations, each range shown, each shown range requested.
pub open spec fn ranges_unchanged(
    ps: Seq<PropertyOccurrence>,
    peers: Seq<usize>,
    groups: Seq<(Option<Seq<char>>, Option<OccurrenceRange>)>,
    depth: int,
) -> bool {
    &&& groups.len() == peers.len()
    &&& forall|g: int| 0 <= g < groups.len() ==> #[trigger] shown(ps, peers, depth, groups[g].1)
    &&& forall|j: int|
        0 <= j < peers.len() ==> #[trigger] requested(groups, range_at_spec(ps[peers[j] as int], depth - 1))
}

/// The first group from `g` on with range `r`.
pub open spec fn group_with_range(
    groups: Seq<(Option<Seq<char>>, Option<OccurrenceRange>)>,
    r: Option<OccurrenceRange>,
    g: int,
) -> Option<int>
    decreases groups.len() - g,
{
    if g < 0 || g >= groups.len() {
        None
    } else if groups[g].1 == r {
        Some(g)
    } else {
        group_with_range(groups, r, g + 1)
    }
}

/// `name` is the name of the first requested group with range `r`.
pub open spec fn renamed_to(
    groups: Seq<(Option<Seq<char>>, Option<OccurrenceRange>)>,
    r: Option<OccurrenceRange>,
    name: Option<Seq<char>>,
) -> bool {
    group_with_range(groups, r, 0) matches Some(g) && name == groups[g].0
}

/// The positions of the population of the presentation at `s`.
fn population_positions(ps: &Vec<PropertyOccurrence>, s: usize) -> (r: Vec<usize>)
    requires
        s < ps@.len(),
        ps@[s as int].property_path@.len() >= 1,
    ensures
        r@ == population(
            ps@,
            ps@[s as int],
            ps@[s as int].property_path@.len() as int,
            ps@.len() as int,
        ),
{
    let sel = &ps[s];
    let depth = sel.property_path.len();
    let mut r: Vec<usize> = Vec::new();
    let mut k: usize = 0;
    while k < ps.len()
        invariant
            k <= ps@.len(),
            s < ps@.len(),
            *sel == ps@[s as int],
            depth == sel.property_path@.len() >= 1,
            r@ == population(ps@, *sel, depth as int, k as int),
        decreases ps.len() - k,
    {
        let p = &ps[k];
        if strings_eq(p.property_path.as_slice(), sel.property_path.as_slice()) && same_prefix(
            p,
            sel,
            depth - 1,
        ) {
            r.push(k);
        }
        k = k + 1;
    }
    r
}

/// The position of the presentation with identity `id`.
pub(crate) fn find_presentation(ps: &Vec<PropertyOccurrence>, id: &String) -> (r: Option<usize>)
    ensures
        match r {
            Some(k) => k < ps@.len() && position_of(ps@, id@, 0) == Some(k as int),
            None => position_of(ps@, id@, 0) is None,
        },
{
    let mut k: usize = 0;
    while k < ps.len()
        invariant
            k <= ps@.len(),
            position_of(ps@, id@, 0) == position_of(ps@, id@, k as int),
        decreases ps.len() - k,
    {
        if ps[k].id == *id {
            return Some(k);
        }
        k = k + 1;
    }
    None
}

fn same_selection(a: Option<OccurrenceRange>, b: Option<OccurrenceRange>) -> (r: bool)
    ensures
        r == (a == b),
{
    match (a, b) {
        (Some(x), Some(y)) => x.first == y.first && x.count == y.count,
        (None, None) => true,
        _ => false,
    }
}

/// Whether some presentation of the population selects `r`.
fn range_shown(ps: &Vec<PropertyOccurrence>, peers: &Vec<usize>, depth: usize, r: Option<OccurrenceRange>) -> (b:
    bool)
    requires
        forall|j: int| 0 <= j < peers@.len() ==> #[trigger] peers@[j] < ps@.len(),
        depth >= 1,
    ensures
        b == shown(ps@, peers@, depth as int, r),
{
    let mut j: usize = 0;
    while j < peers.len()
        invariant
            j <= peers@.len(),
            depth >= 1,
            forall|y: int| 0 <= y < peers@.len() ==> #[trigger] peers@[y] < ps@.len(),
            forall|y: int| 0 <= y < j ==> #[trigger] range_at_spec(ps@[peers@[y] as int], depth - 1) != r,
        decreases peers.len() - j,
    {
        if same_selection(range_at(&ps[peers[j]], depth - 1), r) {
            return true;
        }
        j = j + 1;
    }
    false
}

/// Whether some requested group selects `r`.
fn range_requested(groups: &Vec<OccurrenceGroup>, r: Option<OccurrenceRange>) -> (b: bool)
    ensures
        b == requested(groups_view(groups@), r),
{
    let ghost gv = groups_view(groups@);
    let mut x: usize = 0;
    while x < groups.len()
        invariant
            x <= groups@.len(),
            gv == groups_view(groups@),
            forall|z: int| 0 <= z < x ==> #[trigger] gv[z].1 != r,
        decreases groups.len() - x,
    {
        assert(gv[x as int].1 == groups@[x as int].1);
        if same_selection(groups[x].1, r) {
            return true;
        }
        x = x + 1;
    }
    false
}

/// Whether the requested groups keep the ranges the population shows.
fn ranges_kept(ps: &Vec<PropertyOccurrence>, peers: &Vec<usize>, groups: &Vec<OccurrenceGroup>, depth: usize) -> (r:
    bool)
    requires
        forall|j: int| 0 <= j < peers@.len() ==> #[trigger] peers@[j] < ps@.len(),
        depth >= 1,
    ensures
        r == ranges_unchanged(ps@, peers@, groups_view(groups@), depth as int),
{
    let ghost gv = groups_view(groups@);
    if groups.len() != peers.len() {
        return false;
    }
    let mut g: usize = 0;
    while g < groups.len()
        invariant
            g <= groups@.len() == peers@.len(),
            gv == groups_view(groups@),
            depth >= 1,
            forall|j: int| 0 <= j < peers@.len() ==> #[trigger] peers@[j] < ps@.len(),
            forall|x: int| 0 <= x < g ==> #[trigger] shown(ps@, peers@, depth as int, gv[x].1),
        decreases groups.len() - g,
    {
        assert(gv[g as int].1 == groups@[g as int].1);
        if !range_shown(ps, peers, depth, groups[g].1) {
            return false;
        }
        g = g + 1;
    }
    let mut j: usize = 0;
    while j < peers.len()
        invariant
            j <= peers@.len() == groups@.len(),
            gv == groups_view(groups@),
            depth >= 1,
            forall|y: int| 0 <= y < peers@.len() ==> #[trigger] peers@[y] < ps@.len(),
            forall|x: int| 0 <= x < groups@.len() ==> #[trigger] shown(ps@, peers@, depth as int, gv[x].1),
            forall|y: int|
                0 <= y < j ==> #[trigger] requested(gv, range_at_spec(ps@[peers@[y] as int], depth - 1)),
        decreases peers.len() - j,
    {
        if !range_requested(groups, range_at(&ps[peers[j]], depth - 1)) {
            return false;
        }
        j = j + 1;
    }
    true
}

proof fn lemma_group_with_range_found(
    groups: Seq<(Option<Seq<char>>, Option<OccurrenceRange>)>,
    r: Option<OccurrenceRange>,
    k: int,
    g: int,
)
    requires
        0 <= k <= g < groups.len(),
        groups[g].1 == r,
    ensures
        group_with_range(groups, r, k) matches Some(x) && 0 <= x < groups.len() && groups[x].1 == r,
    decreases g - k,
{
    if k < g && groups[k].1 != r {
        lemma_group_with_range_found(groups, r, k + 1, g);
    }
}

/// The new group name of each presentation of the population when the ranges stay.
fn renamed(ps: &Vec<PropertyOccurrence>, peers: &Vec<usize>, groups: &Vec<OccurrenceGroup>, depth: usize) -> (v:
    Vec<(usize, Option<String>)>)
    requires
        forall|j: int| 0 <= j < peers@.len() ==> #[trigger] peers@[j] < ps@.len(),
        depth >= 1,
        ranges_unchanged(ps@, peers@, groups_view(groups@), depth as int),
    ensures
        v@.len() == peers@.len(),
        forall|j: int|
            0 <= j < peers@.len() ==> (#[trigger] v@[j]).0 == peers@[j] && renamed_to(
                groups_view(groups@),
                range_at_spec(ps@[peers@[j] as int], depth - 1),
                opt_str(v@[j].1),
            ),
{
    let ghost gv = groups_view(groups@);
    let mut v: Vec<(usize, Option<String>)> = Vec::new();
    let mut j: usize = 0;
    while j < peers.len()
        invariant
            j <= peers@.len(),
            gv == groups_view(groups@),
            depth >= 1,
            forall|y: int| 0 <= y < peers@.len() ==> #[trigger] peers@[y] < ps@.len(),
            ranges_unchanged(ps@, peers@, gv, depth as int),
            v@.len() == j,
            forall|y: int|
                0 <= y < j ==> (#[trigger] v@[y]).0 == peers@[y] && renamed_to(
                    gv,
                    range_at_spec(ps@[peers@[y] as int], depth - 1),
                    opt_str(v@[y].1),
                ),
        decreases peers.len() - j,
    {
        let here = range_at(&ps[peers[j]], depth - 1);
        proof {
            assert(requested(gv, range_at_spec(ps@[peers@[j as int] as int], depth - 1)));
            let witness = choose|x: int| 0 <= x < gv.len() && #[trigger] gv[x].1 == here;
            lemma_group_with_range_found(gv, here, 0, witness);
        }
        let mut x: usize = 0;
        while x < groups.len()
            invariant
                x <= groups@.len(),
                gv == groups_view(groups@),
                group_with_range(gv, here, 0) == group_with_range(gv, here, x as int),
                group_with_range(gv, here, 0) is Some,
            ensures
                x < groups@.len(),
                group_with_range(gv, here, 0) == Some(x as int),
            decreases groups.len() - x,
        {
            assert(gv[x as int].1 == groups@[x as int].1);
            if same_selection(groups[x].1, here) {
                break;
            }
            x = x + 1;
        }
        assert(gv[x as int] == group_view(groups@[x as int]));
        let name: Option<String> = match &groups[x].0 {
            Some(n) => Some(n.clone()),
            None => None,
        };
        v.push((peers[j], name));
        j = j + 1;
    }
    v
}

/// `p` presents something inside `t`: its path extends `t`'s, with the same
/// occurrences selected along `t`'s levels.
pub open spec fn inside(p: PropertyOccurrence, t: PropertyOccurrence) -> bool {
    p.property_path@.len() > t.property_path@.len() && same_prefix_spec(
        p,
        t,
        t.property_path@.len() as int,
    )
}

/// `p` is `t` or presents something inside it: a rebuild removes it with `t`
/// and copies it with `t`.
pub open spec fn covered_by(t: PropertyOccurrence, p: PropertyOccurrence) -> bool {
    p.id@ == t.id@ || inside(p, t)
}

/// `p` goes when the population at `peers` is rebuilt.
pub open spec fn leaves_on_rebuild(ps: Seq<PropertyOccurrence>, peers: Seq<usize>, p: PropertyOccurrence) -> bool {
    exists|j: int| 0 <= j < peers.len() && #[trigger] covered_by(ps[peers[j] as int], p)
}

/// The positions below `k` of the presentations a rebuild removes.
pub open spec fn removed_positions(ps: Seq<PropertyOccurrence>, peers: Seq<usize>, k: int) -> Seq<usize>
    decreases k,
{
    if k <= 0 {
        Seq::empty()
    } else if leaves_on_rebuild(ps, peers, ps[k - 1]) {
        removed_positions(ps, peers, k - 1).push((k - 1) as usize)
    } else {
        removed_positions(ps, peers, k - 1)
    }
}

/// The identities of the presentations at `removed` and of their ports, in order.
pub open spec fn removed_identities(ps: Seq<PropertyOccurrence>, removed: Seq<usize>) -> Seq<Seq<char>>
    decreases removed.len(),
{
    if removed.len() == 0 {
        Seq::empty()
    } else {
        let p = ps[removed.last() as int];
        removed_identities(ps, removed.drop_last()) + seq![p.id@] + strs(p.port_ids@)
    }
}

/// The first presentation of the population, from `peers[j]` on, that is not
/// reused yet and selects `r`.
pub open spec fn free_peer(
    ps: Seq<PropertyOccurrence>,
    peers: Seq<usize>,
    reused: Seq<Seq<char>>,
    r: Option<OccurrenceRange>,
    depth: int,
    j: int,
) -> Option<usize>
    decreases peers.len() - j,
{
    if j < 0 || j >= peers.len() {
        None
    } else if !reused.contains(ps[peers[j] as int].id@) && range_at_spec(ps[peers[j] as int], depth - 1)
        == r {
        Some(peers[j])
    } else {
        free_peer(ps, peers, reused, r, depth, j + 1)
    }
}

/// The template of group `g` and whether its copies keep their identities: a
/// free presentation showing the group's range, else (for the first group
/// only, keeping identities) the selected presentation `s`.
pub open spec fn template_choice(
    ps: Seq<PropertyOccurrence>,
    peers: Seq<usize>,
    reused: Seq<Seq<char>>,
    r: Option<OccurrenceRange>,
    depth: int,
    g: int,
    s: usize,
) -> (usize, bool) {
    match free_peer(ps, peers, reused, r, depth, 0) {
        Some(k) => (k, true),
        None => (s, g == 0 && !reused.contains(ps[s as int].id@)),
    }
}

/// The templates of groups `g..`, given the identities reused so far.
pub open spec fn templates(
    ps: Seq<PropertyOccurrence>,
    peers: Seq<usize>,
    groups: Seq<(Option<Seq<char>>, Option<OccurrenceRange>)>,
    depth: int,
    s: usize,
    g: int,
    reused: Seq<Seq<char>>,
) -> Seq<(usize, bool)>
    decreases groups.len() - g,
{
    if g < 0 || g >= groups.len() {
        Seq::empty()
    } else {
        let c = template_choice(ps, peers, reused, groups[g].1, depth, g, s);
        let next = if c.1 {
            reused.push(ps[c.0 as int].id@)
        } else {
            reused
        };
        seq![c] + templates(ps, peers, groups, depth, s, g + 1, next)
    }
}

/// The positions below `k` of the presentations copied with template `t`.
pub open spec fn sources(ps: Seq<PropertyOccurrence>, t: int, k: int) -> Seq<usize>
    decreases k,
{
    if k <= 0 {
        Seq::empty()
    } else if covered_by(ps[t], ps[k - 1]) {
        sources(ps, t, k - 1).push((k - 1) as usize)
    } else {
        sources(ps, t, k - 1)
    }
}

/// `s` cut or padded with "no selection" to length `n`.
pub open spec fn resized(s: Seq<Option<OccurrenceRange>>, n: int) -> Seq<Option<OccurrenceRange>> {
    if s.len() >= n {
        s.take(n)
    } else {
        s + Seq::new((n - s.len()) as nat, |i: int| None::<OccurrenceRange>)
    }
}

/// The text of a fresh version-4 UUID.
pub open spec fn is_uuid_text(t: Seq<char>) -> bool {
    is_v4_uuid_text(t)
}

/// `c` is the copy of the presentation `src` made for the group `group`
/// (selected at level `depth - 1`) with template `template`.
pub open spec fn copy_of(
    src: PropertyOccurrence,
    template: PropertyOccurrence,
    group: (Option<Seq<char>>, Option<OccurrenceRange>),
    depth: int,
    keep: bool,
    c: PropertyOccurrence,
) -> bool {
    &&& strs(c.property_path@) == strs(src.property_path@)
    &&& c.occurrence_path@ == resized(src.occurrence_path@, src.property_path@.len() as int).update(
        depth - 1,
        group.1,
    )
    &&& opt_str(c.occurrence_name) == if src.id@ == template.id@ {
        group.0
    } else {
        opt_str(src.occurrence_name)
    }
    &&& c.collapsed == src.collapsed
    &&& c.port_ids@.len() == src.port_ids@.len()
    &&& if keep {
        c.id@ == src.id@ && strs(c.port_ids@) == strs(src.port_ids@)
    } else {
        is_uuid_text(c.id@) && forall|i: int| 0 <= i < c.port_ids@.len() ==> is_uuid_text(#[trigger] c.port_ids@[i]@)
    }
}

/// The copies one requested group makes.
#[derive(Debug, Clone)]
pub struct GroupPlan {
    pub template: usize,
    pub keep_ids: bool,
    pub sources: Vec<usize>,
    pub copies: Vec<PropertyOccurrence>,
}

/// `plan` is what group `group` makes with template `t`.
pub open spec fn group_plan_of(
    ps: Seq<PropertyOccurrence>,
    group: (Option<Seq<char>>, Option<OccurrenceRange>),
    depth: int,
    choice: (usize, bool),
    plan: GroupPlan,
) -> bool {
    &&& plan.template == choice.0
    &&& plan.keep_ids == choice.1
    &&& plan.sources@ == sources(ps, choice.0 as int, ps.len() as int)
    &&& plan.copies@.len() == plan.sources@.len()
    &&& forall|i: int|
        0 <= i < plan.copies@.len() ==> copy_of(
            ps[plan.sources@[i] as int],
            ps[choice.0 as int],
            group,
            depth,
            choice.1,
            #[trigger] plan.copies@[i],
        )
}

/// The presentation `src` copied for a group with range `range` at level
/// `depth - 1`, named `name` when it is the template itself, with fresh
/// identities unless `keep`.
fn copy_presentation(
    src: &PropertyOccurrence,
    template: &PropertyOccurrence,
    group: &OccurrenceGroup,
    depth: usize,
    keep: bool,
) -> (c: PropertyOccurrence)
    requires
        1 <= depth <= src.property_path@.len(),
    ensures
        copy_of(*src, *template, group_view(*group), depth as int, keep, c),
{
    let n = src.property_path.len();
    let mut path: Vec<Option<OccurrenceRange>> = Vec::new();
    let mut i: usize = 0;
    while i < n
        invariant
            i <= n == src.property_path@.len(),
            path@ == resized(src.occurrence_path@, n as int).take(i as int),
        decreases n - i,
    {
        let x = if i < src.occurrence_path.len() {
            src.occurrence_path[i]
        } else {
            None
        };
        proof {
            assert(resized(src.occurrence_path@, n as int)[i as int] == x);
        }
        path.push(x);
        assert(path@ =~= resized(src.occurrence_path@, n as int).take(i + 1));
        i = i + 1;
    }
    assert(path@ =~= resized(src.occurrence_path@, n as int));
    path.set(depth - 1, group.1);
    let name = if src.id == template.id {
        match &group.0 {
            Some(x) => Some(x.clone()),
            None => None,
        }
    } else {
        match &src.occurrence_name {
            Some(x) => Some(x.clone()),
            None => None,
        }
    };
    let mut property_path: Vec<String> = Vec::new();
    let mut k: usize = 0;
    while k < n
        invariant
            k <= n == src.property_path@.len(),
            property_path@.len() == k,
            forall|j: int| 0 <= j < k ==> (#[trigger] property_path@[j])@ == src.property_path@[j]@,
        decreases n - k,
    {
        property_path.push(src.property_path[k].clone());
        k = k + 1;
    }
    assert(strs(property_path@) =~= strs(src.property_path@));
    let id = if keep {
        src.id.clone()
    } else {
        fresh_uuid_text()
    };
    let mut port_ids: Vec<String> = Vec::new();
    let mut k: usize = 0;
    while k < src.port_ids.len()
        invariant
            k <= src.port_ids@.len(),
            port_ids@.len() == k,
            forall|j: int|
                0 <= j < k ==> if keep {
                    (#[trigger] port_ids@[j])@ == src.port_ids@[j]@
                } else {
                    is_uuid_text(port_ids@[j]@)
                },
        decreases src.port_ids.len() - k,
    {
        if keep {
            port_ids.push(src.port_ids[k].clone());
        } else {
            port_ids.push(fresh_uuid_text());
        }
        k = k + 1;
    }
    if keep {
        assert(strs(port_ids@) =~= strs(src.port_ids@));
    }
    PropertyOccurrence {
        id,
        property_path,
        occurrence_path: path,
        occurrence_name: name,
        collapsed: src.collapsed,
        port_ids,
    }
}

/// The copies a group makes with template `t`: every presentation `t`
/// covers, in order.
fn plan_group(
    ps: &Vec<PropertyOccurrence>,
    t: usize,
    keep: bool,
    group: &OccurrenceGroup,
    depth: usize,
) -> (plan: GroupPlan)
    requires
        unique_ids(ps@),
        t < ps@.len(),
        depth >= 1,
        ps@[t as int].property_path@.len() == depth,
    ensures
        group_plan_of(ps@, group_view(*group), depth as int, (t, keep), plan),
{
    let n = ps.len();
    let template = &ps[t];
    let mut srcs: Vec<usize> = Vec::new();
    let mut copies: Vec<PropertyOccurrence> = Vec::new();
    let mut k: usize = 0;
    while k < n
        invariant
            n == ps@.len(),
            k <= n,
            t < n,
            *template == ps@[t as int],
            unique_ids(ps@),
            depth >= 1,
            template.property_path@.len() == depth,
            srcs@ == sources(ps@, t as int, k as int),
            copies@.len() == srcs@.len(),
            forall|i: int|
                0 <= i < copies@.len() ==> copy_of(
                    ps@[srcs@[i] as int],
                    *template,
                    group_view(*group),
                    depth as int,
                    keep,
                    #[trigger] copies@[i],
                ),
        decreases n - k,
    {
        let p = &ps[k];
        if p.id == template.id || (p.property_path.len() > template.property_path.len() && same_prefix(
            p,
            template,
            template.property_path.len(),
        )) {
            proof {
                if p.id@ == template.id@ && k != t {
                    if k < t {
                        assert(ps@[k as int].id@ != ps@[t as int].id@);
                    } else {
                        assert(ps@[t as int].id@ != ps@[k as int].id@);
                    }
                }
            }
            let c = copy_presentation(p, template, group, depth, keep);
            srcs.push(k);
            copies.push(c);
        }
        k = k + 1;
    }
    GroupPlan { template: t, keep_ids: keep, sources: srcs, copies }
}

/// Whether `id` is among `reused`.
fn is_reused(reused: &Vec<String>, id: &String) -> (r: bool)
    ensures
        r == strs(reused@).contains(id@),
{
    let mut k: usize = 0;
    while k < reused.len()
        invariant
            k <= reused@.len(),
            forall|j: int| 0 <= j < k ==> reused@[j]@ != id@,
        decreases reused.len() - k,
    {
        if reused[k] == *id {
            assert(strs(reused@)[k as int] == id@);
            return true;
        }
        k = k + 1;
    }
    assert forall|j: int| 0 <= j < strs(reused@).len() implies strs(reused@)[j] != id@ by {
        assert(strs(reused@)[j] == reused@[j]@);
    }
    false
}

/// The template of group `g`.
fn choose_template(
    ps: &Vec<PropertyOccurrence>,
    peers: &Vec<usize>,
    reused: &Vec<String>,
    r: Option<OccurrenceRange>,
    depth: usize,
    g: usize,
    s: usize,
) -> (c: (usize, bool))
    requires
        forall|j: int| 0 <= j < peers@.len() ==> #[trigger] peers@[j] < ps@.len(),
        s < ps@.len(),
        depth >= 1,
    ensures
        c == template_choice(ps@, peers@, strs(reused@), r, depth as int, g as int, s),
{
    let mut j: usize = 0;
    while j < peers.len()
        invariant
            j <= peers@.len(),
            depth >= 1,
            forall|y: int| 0 <= y < peers@.len() ==> #[trigger] peers@[y] < ps@.len(),
            free_peer(ps@, peers@, strs(reused@), r, depth as int, 0) == free_peer(
                ps@,
                peers@,
                strs(reused@),
                r,
                depth as int,
                j as int,
            ),
        decreases peers.len() - j,
    {
        let k = peers[j];
        if !is_reused(reused, &ps[k].id) && same_selection(range_at(&ps[k], depth - 1), r) {
            return (k, true);
        }
        j = j + 1;
    }
    (s, g == 0 && !is_reused(reused, &ps[s].id))
}

/// The total number of copies the templates `ts` make.
pub open spec fn copies_total(ps: Seq<PropertyOccurrence>, ts: Seq<(usize, bool)>) -> int
    decreases ts.len(),
{
    if ts.len() == 0 {
        0
    } else {
        copies_total(ps, ts.drop_last()) + sources(ps, ts.last().0 as int, ps.len() as int).len()
    }
}

/// Whether the population at `peers` covers `p`.
fn leaves(ps: &Vec<PropertyOccurrence>, peers: &Vec<usize>, p: &PropertyOccurrence) -> (b: bool)
    requires
        forall|j: int| 0 <= j < peers@.len() ==> #[trigger] peers@[j] < ps@.len(),
    ensures
        b == leaves_on_rebuild(ps@, peers@, *p),
{
    let mut j: usize = 0;
    while j < peers.len()
        invariant
            j <= peers@.len(),
            forall|y: int| 0 <= y < peers@.len() ==> #[trigger] peers@[y] < ps@.len(),
            forall|y: int| 0 <= y < j ==> !#[trigger] covered_by(ps@[peers@[y] as int], *p),
        decreases peers.len() - j,
    {
        let t = &ps[peers[j]];
        if p.id == t.id || (p.property_path.len() > t.property_path.len() && same_prefix(
            p,
            t,
            t.property_path.len(),
        )) {
            assert(covered_by(ps@[peers@[j as int] as int], *p));
            return true;
        }
        j = j + 1;
    }
    false
}

/// The positions a rebuild removes, and the identities of those presentations and their ports.
fn removal(ps: &Vec<PropertyOccurrence>, peers: &Vec<usize>) -> (r: (Vec<usize>, Vec<String>))
    requires
        forall|j: int| 0 <= j < peers@.len() ==> #[trigger] peers@[j] < ps@.len(),
    ensures
        r.0@ == removed_positions(ps@, peers@, ps@.len() as int),
        strs(r.1@) == removed_identities(ps@, r.0@),
{
    let mut removed: Vec<usize> = Vec::new();
    let mut ids: Vec<String> = Vec::new();
    let mut k: usize = 0;
    while k < ps.len()
        invariant
            k <= ps@.len(),
            forall|y: int| 0 <= y < peers@.len() ==> #[trigger] peers@[y] < ps@.len(),
            removed@ == removed_positions(ps@, peers@, k as int),
            forall|y: int| 0 <= y < removed@.len() ==> #[trigger] removed@[y] < k,
            strs(ids@) == removed_identities(ps@, removed@),
        decreases ps.len() - k,
    {
        if leaves(ps, peers, &ps[k]) {
            let ghost before = removed@;
            let ghost ids_before = strs(ids@);
            removed.push(k);
            ids.push(ps[k].id.clone());
            let mut j: usize = 0;
            while j < ps[k].port_ids.len()
                invariant
                    k < ps@.len(),
                    j <= ps@[k as int].port_ids@.len(),
                    strs(ids@) == ids_before + seq![ps@[k as int].id@] + strs(ps@[k as int].port_ids@).take(
                        j as int,
                    ),
                decreases ps@[k as int].port_ids@.len() - j,
            {
                let ghost prev = ids@;
                ids.push(ps[k].port_ids[j].clone());
                assert(strs(ids@) =~= strs(prev).push(ps@[k as int].port_ids@[j as int]@));
                assert(strs(ps@[k as int].port_ids@).take(j + 1) =~= strs(ps@[k as int].port_ids@).take(
                    j as int,
                ).push(ps@[k as int].port_ids@[j as int]@));
                j = j + 1;
            }
            proof {
                assert(removed@.drop_last() =~= before);
                assert(strs(ps@[k as int].port_ids@).take(ps@[k as int].port_ids@.len() as int) =~= strs(
                    ps@[k as int].port_ids@,
                ));
            }
        }
        k = k + 1;
    }
    (removed, ids)
}

/// Most property presentations one view holds.
pub const MAX_PRESENTATIONS: usize = 4096;

/// A rebuilt population: the positions of the presentations removed, the
/// identities of those presentations and their ports (connectors touching
/// them go too), and each requested group's copies.
#[derive(Debug, Clone)]
pub struct Rebuild {
    pub removed: Vec<usize>,
    pub removed_ids: Vec<String>,
    pub groups: Vec<GroupPlan>,
}

/// What a regrouping does to the population.
#[derive(Debug, Clone)]
pub enum Regrouping {
    /// The ranges stay; each presentation (by position) gets a new group name.
    Rename(Vec<(usize, Option<String>)>),
    /// The population is replaced by copies.
    Rebuild(Rebuild),
}

/// `rb` is the rebuild of the population `peers` of `ps[s]` into `groups`.
pub open spec fn rebuild_of(
    ps: Seq<PropertyOccurrence>,
    peers: Seq<usize>,
    groups: Seq<(Option<Seq<char>>, Option<OccurrenceRange>)>,
    depth: int,
    s: usize,
    rb: Rebuild,
) -> bool {
    let ts = templates(ps, peers, groups, depth, s, 0, Seq::empty());
    &&& rb.removed@ == removed_positions(ps, peers, ps.len() as int)
    &&& strs(rb.removed_ids@) == removed_identities(ps, rb.removed@)
    &&& rb.groups@.len() == groups.len()
    &&& forall|g: int|
        0 <= g < groups.len() ==> group_plan_of(ps, groups[g], depth, ts[g], #[trigger] rb.groups@[g])
}

/// What regrouping the presentation `id` of `ps` by the group text `text` gives.
pub open spec fn regroup_outcome(
    ps: Seq<PropertyOccurrence>,
    id: Seq<char>,
    text: Option<Seq<char>>,
    r: Result<Regrouping, String>,
) -> bool {
    match position_of(ps, id, 0) {
        None => r matches Err(m) && m@ == "IBD property occurrence not found"@,
        Some(s) => {
            let depth = ps[s].property_path@.len() as int;
            if depth == 0 {
                r matches Err(m) && m@ == "Occurrence view requires a resolved property path"@
            } else {
                match parse_groups_spec(text) {
                    Err(e) => r matches Err(m) && m@ == groups_error_text(e),
                    Ok(groups) => {
                        let peers = population(ps, ps[s], depth, ps.len() as int);
                        if ranges_unchanged(ps, peers, groups, depth) {
                            r matches Ok(Regrouping::Rename(v)) && v@.len() == peers.len() && forall|j: int|
                                0 <= j < peers.len() ==> (#[trigger] v@[j]).0 == peers[j] && renamed_to(
                                    groups,
                                    range_at_spec(ps[peers[j] as int], depth - 1),
                                    opt_str(v@[j].1),
                                )
                        } else {
                            let ts = templates(ps, peers, groups, depth, s as usize, 0, Seq::empty());
                            let kept = ps.len() - removed_positions(ps, peers, ps.len() as int).len();
                            if kept + copies_total(ps, ts) > MAX_PRESENTATIONS {
                                r matches Err(m) && m@ == "This view is limited to 4096 property occurrences"@
                            } else {
                                r matches Ok(Regrouping::Rebuild(rb)) && rebuild_of(
                                    ps,
                                    peers,
                                    groups,
                                    depth,
                                    s as usize,
                                    rb,
                                )
                            }
                        }
                    },
                }
            }
        },
    }
}

proof fn lemma_removed_positions_len(ps: Seq<PropertyOccurrence>, peers: Seq<usize>, k: int)
    requires
        0 <= k,
    ensures
        removed_positions(ps, peers, k).len() <= k,
    decreases k,
{
    if k > 0 {
        lemma_removed_positions_len(ps, peers, k - 1);
    }
}

proof fn lemma_templates_step(
    ps: Seq<PropertyOccurrence>,
    peers: Seq<usize>,
    groups: Seq<(Option<Seq<char>>, Option<OccurrenceRange>)>,
    depth: int,
    s: usize,
    g: int,
    reused: Seq<Seq<char>>,
)
    requires
        0 <= g < groups.len(),
    ensures
        ({
            let c = template_choice(ps, peers, reused, groups[g].1, depth, g, s);
            let next = if c.1 { reused.push(ps[c.0 as int].id@) } else { reused };
            templates(ps, peers, groups, depth, s, g, reused) == seq![c] + templates(
                ps,
                peers,
                groups,
                depth,
                s,
                g + 1,
                next,
            )
        }),
{
}

proof fn lemma_templates_len(
    ps: Seq<PropertyOccurrence>,
    peers: Seq<usize>,
    groups: Seq<(Option<Seq<char>>, Option<OccurrenceRange>)>,
    depth: int,
    s: usize,
    g: int,
    reused: Seq<Seq<char>>,
)
    requires
        0 <= g <= groups.len(),
    ensures
        templates(ps, peers, groups, depth, s, g, reused).len() == groups.len() - g,
    decreases groups.len() - g,
{
    if g < groups.len() {
        let c = template_choice(ps, peers, reused, groups[g].1, depth, g, s);
        let next = if c.1 { reused.push(ps[c.0 as int].id@) } else { reused };
        lemma_templates_len(ps, peers, groups, depth, s, g + 1, next);
    }
}

proof fn lemma_copies_total_prefix(ps: Seq<PropertyOccurrence>, ts: Seq<(usize, bool)>, g: int)
    requires
        0 <= g < ts.len(),
    ensures
        copies_total(ps, ts.take(g + 1)) == copies_total(ps, ts.take(g)) + sources(
            ps,
            ts[g].0 as int,
            ps.len() as int,
        ).len(),
{
    assert(ts.take(g + 1).drop_last() =~= ts.take(g));
}

proof fn lemma_copies_total_mono(ps: Seq<PropertyOccurrence>, ts: Seq<(usize, bool)>, g: int)
    requires
        0 <= g <= ts.len(),
    ensures
        copies_total(ps, ts.take(g)) <= copies_total(ps, ts),
    decreases ts.len() - g,
{
    if g < ts.len() {
        lemma_copies_total_mono(ps, ts, g + 1);
        lemma_copies_total_prefix(ps, ts, g);
    } else {
        assert(ts.take(g) =~= ts);
    }
}

/// The selected presentation's template is in its population or is itself,
/// so every template presents the selected path.
proof fn lemma_template_path(
    ps: Seq<PropertyOccurrence>,
    peers: Seq<usize>,
    reused: Seq<Seq<char>>,
    r: Option<OccurrenceRange>,
    depth: int,
    j: int,
    s: int,
)
    requires
        0 <= s < ps.len(),
        depth == ps[s].property_path@.len(),
        forall|y: int|
            0 <= y < peers.len() ==> #[trigger] peers[y] < ps.len() && in_population(
                ps[peers[y] as int],
                ps[s],
                depth,
            ),
    ensures
        free_peer(ps, peers, reused, r, depth, j) matches Some(k) ==> k < ps.len()
            && ps[k as int].property_path@.len() == depth,
    decreases peers.len() - j,
{
    if 0 <= j < peers.len() {
        let k = peers[j];
        assert(in_population(ps[k as int], ps[s], depth));
        assert(strs(ps[k as int].property_path@).len() == strs(ps[s].property_path@).len());
        lemma_template_path(ps, peers, reused, r, depth, j + 1, s);
    }
}

proof fn lemma_population_members(ps: Seq<PropertyOccurrence>, sel: PropertyOccurrence, depth: int, k: int)
    requires
        0 <= k <= ps.len(),
        k <= usize::MAX,
    ensures
        forall|y: int|
            0 <= y < population(ps, sel, depth, k).len() ==> #[trigger] population(ps, sel, depth, k)[y]
                < k && in_population(ps[population(ps, sel, depth, k)[y] as int], sel, depth),
    decreases k,
{
    if k > 0 {
        lemma_population_members(ps, sel, depth, k - 1);
        let prev = population(ps, sel, depth, k - 1);
        let cur = population(ps, sel, depth, k);
        if in_population(ps[k - 1], sel, depth) {
            assert(cur == prev.push((k - 1) as usize));
        } else {
            assert(cur == prev);
        }
        assert forall|y: int| 0 <= y < cur.len() implies #[trigger] cur[y] < k && in_population(
            ps[cur[y] as int],
            sel,
            depth,
        ) by {
            if y < prev.len() {
                assert(cur[y] == prev[y]);
                assert(population(ps, sel, depth, k - 1)[y] < k - 1);
            } else {
                assert(in_population(ps[k - 1], sel, depth));
                assert(cur[y] == (k - 1) as usize);
            }
        }
    }
}

/// Each group's copies, or `None` when the view would hold more than
/// [`MAX_PRESENTATIONS`] presentations with `kept` others.
fn build_plans(
    ps: &Vec<PropertyOccurrence>,
    peers: &Vec<usize>,
    groups: &Vec<OccurrenceGroup>,
    depth: usize,
    s: usize,
    kept: usize,
) -> (r: Option<Vec<GroupPlan>>)
    requires
        unique_ids(ps@),
        s < ps@.len(),
        depth == ps@[s as int].property_path@.len() >= 1,
        forall|y: int|
            0 <= y < peers@.len() ==> #[trigger] peers@[y] < ps@.len() && in_population(
                ps@[peers@[y] as int],
                ps@[s as int],
                depth as int,
            ),
        kept <= MAX_PRESENTATIONS,
    ensures
        ({
            let ts = templates(ps@, peers@, groups_view(groups@), depth as int, s, 0, Seq::empty());
            match r {
                None => kept + copies_total(ps@, ts) > MAX_PRESENTATIONS,
                Some(plans) => kept + copies_total(ps@, ts) <= MAX_PRESENTATIONS && plans@.len()
                    == groups@.len() && forall|x: int|
                    0 <= x < groups@.len() ==> group_plan_of(
                        ps@,
                        groups_view(groups@)[x],
                        depth as int,
                        ts[x],
                        #[trigger] plans@[x],
                    ),
            }
        }),
{
    let ghost gv = groups_view(groups@);
    let ghost ts = templates(ps@, peers@, gv, depth as int, s, 0, Seq::empty());
    proof {
        lemma_templates_len(ps@, peers@, gv, depth as int, s, 0, Seq::empty());
    }
    let mut total: usize = kept;
    let mut reused: Vec<String> = Vec::new();
    let mut plans: Vec<GroupPlan> = Vec::new();
    let mut g: usize = 0;
    assert(ts.take(0) =~= Seq::<(usize, bool)>::empty());
    assert(strs(reused@) =~= Seq::<Seq<char>>::empty());
    assert(ts.skip(0) =~= ts);
    while g < groups.len()
        invariant
            unique_ids(ps@),
            gv == groups_view(groups@),
            s < ps@.len(),
            depth == ps@[s as int].property_path@.len() >= 1,
            forall|y: int|
                0 <= y < peers@.len() ==> #[trigger] peers@[y] < ps@.len() && in_population(
                    ps@[peers@[y] as int],
                    ps@[s as int],
                    depth as int,
                ),
            ts.len() == gv.len(),
            g <= gv.len(),
            templates(ps@, peers@, gv, depth as int, s, 0, Seq::empty()) == ts,
            ts.skip(g as int) == templates(ps@, peers@, gv, depth as int, s, g as int, strs(reused@)),
            total == kept + copies_total(ps@, ts.take(g as int)),
            total <= MAX_PRESENTATIONS,
            plans@.len() == g,
            forall|x: int| 0 <= x < g ==> group_plan_of(ps@, gv[x], depth as int, ts[x], #[trigger] plans@[x]),
        decreases groups.len() - g,
    {
        let (t, keep) = choose_template(ps, &peers, &reused, groups[g].1, depth, g, s);
        proof {
            assert(gv[g as int].1 == groups@[g as int].1);
            lemma_templates_step(ps@, peers@, gv, depth as int, s, g as int, strs(reused@));
            assert(ts.skip(g as int)[0] == ts[g as int]);
            lemma_template_path(ps@, peers@, strs(reused@), groups@[g as int].1, depth as int, 0, s as int);
            lemma_copies_total_prefix(ps@, ts, g as int);
            assert((t, keep) == ts[g as int]);
        }
        let plan = plan_group(ps, t, keep, &groups[g], depth);
        assert(gv[g as int] == group_view(groups@[g as int]));
        if plan.sources.len() > MAX_PRESENTATIONS - total {
            proof {
                lemma_copies_total_mono(ps@, ts, g + 1);
            }
            return None;
        }
        total = total + plan.sources.len();
        if keep {
            let ghost before = reused@;
            reused.push(ps[t].id.clone());
            assert(strs(reused@) =~= strs(before).push(ps@[t as int].id@));
        }
        plans.push(plan);
        proof {
            assert(ts.skip(g + 1) =~= ts.skip(g as int).drop_first());
        }
        g = g + 1;
    }
    proof {
        assert(ts.take(gv.len() as int) =~= ts);
    }
    Some(plans)
}

/// Regroup the population of the presentation `id` by the group text `text`
/// (`None` asks for the compact presentation).
pub fn regroup(ps: &Vec<PropertyOccurrence>, id: &String, text: Option<&str>) -> (r: Result<
    Regrouping,
    String,
>)
    requires
        unique_ids(ps@),
    ensures
        regroup_outcome(ps@, id@, match text { Some(t) => Some(t@), None => None }, r),
{
    let s = match find_presentation(ps, id) {
        None => {
            return Err("IBD property occurrence not found".to_owned());
        },
        Some(s) => s,
    };
    let depth = ps[s].property_path.len();
    if depth == 0 {
        return Err("Occurrence view requires a resolved property path".to_owned());
    }
    let groups = match parse_groups(text) {
        Err(m) => {
            return Err(m);
        },
        Ok(g) => g,
    };
    let ghost gv = groups_view(groups@);
    let peers = population_positions(ps, s);
    let n: usize = ps.len();
    proof {
        lemma_population_members(ps@, ps@[s as int], depth as int, n as int);
    }
    if ranges_kept(ps, &peers, &groups, depth) {
        return Ok(Regrouping::Rename(renamed(ps, &peers, &groups, depth)));
    }
    let (removed, removed_ids) = removal(ps, &peers);
    proof {
        lemma_removed_positions_len(ps@, peers@, ps@.len() as int);
    }
    let ghost ts = templates(ps@, peers@, gv, depth as int, s, 0, Seq::empty());
    proof {
        lemma_templates_len(ps@, peers@, gv, depth as int, s, 0, Seq::empty());
    }
    let kept: usize = ps.len() - removed.len();
    if kept > MAX_PRESENTATIONS {
        proof {
            lemma_copies_total_mono(ps@, ts, 0);
            assert(ts.take(0) =~= Seq::<(usize, bool)>::empty());
        }
        return Err("This view is limited to 4096 property occurrences".to_owned());
    }
    match build_plans(ps, &peers, &groups, depth, s, kept) {
        None => Err("This view is limited to 4096 property occurrences".to_owned()),
        Some(plans) => Ok(Regrouping::Rebuild(Rebuild { removed, removed_ids, groups: plans })),
    }
}


proof fn lemma_templates_present_the_path(
    ps: Seq<PropertyOccurrence>,
    peers: Seq<usize>,
    groups: Seq<(Option<Seq<char>>, Option<OccurrenceRange>)>,
    depth: int,
    s: usize,
    g: int,
    reused: Seq<Seq<char>>,
    x: int,
)
    requires
        0 <= s < ps.len(),
        depth == ps[s as int].property_path@.len(),
        forall|y: int|
            0 <= y < peers.len() ==> #[trigger] peers[y] < ps.len() && in_population(
                ps[peers[y] as int],
                ps[s as int],
                depth,
            ),
        0 <= g <= groups.len(),
        0 <= x < templates(ps, peers, groups, depth, s, g, reused).len(),
    ensures
        ({
            let t = templates(ps, peers, groups, depth, s, g, reused)[x].0;
            t < ps.len() && ps[t as int].property_path@.len() == depth
        }),
    decreases groups.len() - g,
{
    if g < groups.len() {
        let c = template_choice(ps, peers, reused, groups[g].1, depth, g, s);
        let next = if c.1 { reused.push(ps[c.0 as int].id@) } else { reused };
        lemma_template_path(ps, peers, reused, groups[g].1, depth, 0, s as int);
        if x > 0 {
            lemma_templates_present_the_path(ps, peers, groups, depth, s, g + 1, next, x - 1);
        }
    }
}

/// After a rebuild every requested group is shown: the copy of the group's
/// template is named for the group and selects the group's range at the
/// population's level.
pub proof fn lemma_rebuilt_groups_are_shown(
    ps: Seq<PropertyOccurrence>,
    id: Seq<char>,
    text: Option<Seq<char>>,
    rb: Rebuild,
    g: int,
    i: int,
)
    requires
        ps.len() <= usize::MAX,
        regroup_outcome(ps, id, text, Ok(Regrouping::Rebuild(rb))),
        0 <= g < rb.groups@.len(),
        0 <= i < rb.groups@[g].sources@.len(),
        rb.groups@[g].sources@[i] == rb.groups@[g].template,
    ensures
        ({
            let s = position_of(ps, id, 0)->0;
            let depth = ps[s].property_path@.len() as int;
            let groups = parse_groups_spec(text)->Ok_0;
            let c = rb.groups@[g].copies@[i];
            &&& opt_str(c.occurrence_name) == groups[g].0
            &&& c.occurrence_path@[depth - 1] == groups[g].1
        }),
{
    let s = position_of(ps, id, 0)->0;
    lemma_position_of_in_range(ps, id, 0);
    let depth = ps[s].property_path@.len() as int;
    let groups = parse_groups_spec(text)->Ok_0;
    let peers = population(ps, ps[s], depth, ps.len() as int);
    lemma_population_members(ps, ps[s], depth, ps.len() as int);
    let ts = templates(ps, peers, groups, depth, s as usize, 0, Seq::empty());
    lemma_templates_len(ps, peers, groups, depth, s as usize, 0, Seq::empty());
    lemma_templates_present_the_path(ps, peers, groups, depth, s as usize, 0, Seq::empty(), g);
    let plan = rb.groups@[g];
    assert(group_plan_of(ps, groups[g], depth, ts[g], plan));
    let c = plan.copies@[i];
    let src = ps[plan.sources@[i] as int];
    assert(copy_of(src, ps[ts[g].0 as int], groups[g], depth, ts[g].1, c));
    assert(resized(src.occurrence_path@, src.property_path@.len() as int).len() == src.property_path@.len());
}

proof fn lemma_position_of_in_range(ps: Seq<PropertyOccurrence>, id: Seq<char>, k: int)
    requires
        0 <= k,
    ensures
        position_of(ps, id, k) matches Some(s) ==> k <= s < ps.len() && ps[s].id@ == id,
    decreases ps.len() - k,
{
    if k < ps.len() && ps[k].id@ != id {
        lemma_position_of_in_range(ps, id, k + 1);
    }
}

} // verus!
