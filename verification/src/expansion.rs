//! Lazy expansion of a property presentation in an internal block diagram:
//! which presentation a request names, the depth and size limits of a view,
//! and which child property paths an expansion adds.

use vstd::prelude::*;
use crate::model_script::ElementKind;
use crate::occurrences::{PropertyOccurrence, is_descendant_spec, property_visible_spec};
use crate::regrouping::{find_presentation, position_of};
use crate::text::{strings_eq, strs};

verus! {

/// Deepest property path a view expands.
pub const MAX_PATH_DEPTH: usize = 32;

/// Most property presentations one view holds.
pub const MAX_OCCURRENCES: usize = 4096;

/// Why an expansion request is refused.
#[derive(Debug, Clone, Copy, PartialEq, Eq, Structural)]
pub enum ExpansionError {
    /// No presentation has the requested identity.
    NotFound,
    /// The presentation already lies [`MAX_PATH_DEPTH`] levels deep.
    TooDeep,
    /// The new children would take the view past [`MAX_OCCURRENCES`].
    TooMany,
}

/// The message shown for each refusal.
pub open spec fn expansion_error_text(e: ExpansionError) -> Seq<char> {
    match e {
        ExpansionError::NotFound => "IBD property occurrence not found"@,
        ExpansionError::TooDeep =>
            "Expansion is limited to 32 levels. Open the type-level IBD to continue; the model is unchanged."@,
        ExpansionError::TooMany =>
            "This view is limited to 4096 property occurrences. Open a type-level IBD for further detail."@,
    }
}

/// The message shown for a refusal.
pub fn expansion_error_message(e: ExpansionError) -> (r: String)
    ensures
        r@ == expansion_error_text(e),
{
    match e {
        ExpansionError::NotFound => "IBD property occurrence not found".to_string(),
        ExpansionError::TooDeep =>
            "Expansion is limited to 32 levels. Open the type-level IBD to continue; the model is unchanged.".to_string(),
        ExpansionError::TooMany =>
            "This view is limited to 4096 property occurrences. Open a type-level IBD for further detail.".to_string(),
    }
}

/// What an accepted request does to the presentation at the given position.
#[derive(Debug, Clone, Copy, PartialEq, Eq, Structural)]
pub enum ExpansionRequest {
    /// Mark it collapsed; nothing else changes.
    Collapse(usize),
    /// Mark it expanded and add its missing children.
    Expand(usize),
}

/// The outcome of a request to expand (or collapse) presentation `id`.
pub open spec fn expansion_request_spec(
    ps: Seq<PropertyOccurrence>,
    id: Seq<char>,
    expand: bool,
) -> Result<ExpansionRequest, ExpansionError> {
    match position_of(ps, id, 0) {
        None => Err(ExpansionError::NotFound),
        Some(k) => if !expand {
            Ok(ExpansionRequest::Collapse(k as usize))
        } else if ps[k].property_path@.len() >= MAX_PATH_DEPTH {
            Err(ExpansionError::TooDeep)
        } else {
            Ok(ExpansionRequest::Expand(k as usize))
        },
    }
}

/// Decide a request to expand (`expand`) or collapse the presentation with
/// identity `presentation_id`: the first presentation with that identity is
/// the one meant; collapsing always succeeds; expanding one whose path is
/// already [`MAX_PATH_DEPTH`] long is refused.
pub fn expansion_request(
    properties: &Vec<PropertyOccurrence>,
    presentation_id: &String,
    expand: bool,
) -> (r: Result<ExpansionRequest, ExpansionError>)
    ensures
        r == expansion_request_spec(properties@, presentation_id@, expand),
        r matches Ok(ExpansionRequest::Collapse(k)) ==> k < properties@.len(),
        r matches Ok(ExpansionRequest::Expand(k)) ==> k < properties@.len(),
{
    match find_presentation(properties, presentation_id) {
        None => Err(ExpansionError::NotFound),
        Some(k) => if !expand {
            Ok(ExpansionRequest::Collapse(k))
        } else if properties[k].property_path.len() >= MAX_PATH_DEPTH {
            Err(ExpansionError::TooDeep)
        } else {
            Ok(ExpansionRequest::Expand(k))
        },
    }
}

/// Child features an expansion presents: part and reference properties.
pub open spec fn structural_child(kind: ElementKind) -> bool {
    kind == ElementKind::PartProperty || kind == ElementKind::ReferenceProperty
}

/// Some presentation presents exactly `path`.
pub open spec fn path_present(ps: Seq<PropertyOccurrence>, path: Seq<Seq<char>>) -> bool {
    exists|k: int| 0 <= k < ps.len() && strs(#[trigger] ps[k].property_path@) == path
}

/// The content of a feature list: identities and kinds.
pub open spec fn features_view(fs: Seq<(String, ElementKind)>) -> Seq<(Seq<char>, ElementKind)> {
    fs.map_values(|f: (String, ElementKind)| (f.0@, f.1))
}

/// The content of a list of property paths.
pub open spec fn paths_view(v: Seq<Vec<String>>) -> Seq<Seq<Seq<char>>> {
    v.map_values(|p: Vec<String>| strs(p@))
}

/// How many of the first `n` features are structural children of `parent`
/// that no presentation shows yet (a repeated feature counts each time).
pub open spec fn missing_count(
    ps: Seq<PropertyOccurrence>,
    parent: Seq<Seq<char>>,
    fs: Seq<(Seq<char>, ElementKind)>,
    n: int,
) -> nat
    decreases n,
{
    if n <= 0 {
        0
    } else if structural_child(fs[n - 1].1) && !path_present(ps, parent.push(fs[n - 1].0)) {
        missing_count(ps, parent, fs, n - 1) + 1
    } else {
        missing_count(ps, parent, fs, n - 1)
    }
}

/// The child paths the first `n` features add below `parent`, in feature
/// order: a structural child is added unless it is shown already or was added
/// for an earlier feature.
pub open spec fn added_paths(
    ps: Seq<PropertyOccurrence>,
    parent: Seq<Seq<char>>,
    fs: Seq<(Seq<char>, ElementKind)>,
    n: int,
) -> Seq<Seq<Seq<char>>>
    decreases n,
{
    if n <= 0 {
        Seq::empty()
    } else {
        let before = added_paths(ps, parent, fs, n - 1);
        let path = parent.push(fs[n - 1].0);
        if structural_child(fs[n - 1].1) && !path_present(ps, path) && !before.contains(path) {
            before.push(path)
        } else {
            before
        }
    }
}

/// The child paths an expansion of the presentation at `parent` adds, given
/// the features of the classifier it presents, or the refusal when they would
/// take the view past [`MAX_OCCURRENCES`].
pub open spec fn expansion_children_spec(
    ps: Seq<PropertyOccurrence>,
    parent: Seq<Seq<char>>,
    fs: Seq<(Seq<char>, ElementKind)>,
) -> Result<Seq<Seq<Seq<char>>>, ExpansionError> {
    if ps.len() + missing_count(ps, parent, fs, fs.len() as int) > MAX_OCCURRENCES {
        Err(ExpansionError::TooMany)
    } else {
        Ok(added_paths(ps, parent, fs, fs.len() as int))
    }
}

fn path_shown(properties: &Vec<PropertyOccurrence>, path: &Vec<String>) -> (r: bool)
    ensures
        r == path_present(properties@, strs(path@)),
{
    let mut k: usize = 0;
    while k < properties.len()
        invariant
            k <= properties@.len(),
            forall|j: int| 0 <= j < k ==> strs(#[trigger] properties@[j].property_path@) != strs(path@),
        decreases properties.len() - k,
    {
        if strings_eq(properties[k].property_path.as_slice(), path.as_slice()) {
            return true;
        }
        k = k + 1;
    }
    false
}

fn path_listed(paths: &Vec<Vec<String>>, path: &Vec<String>) -> (r: bool)
    ensures
        r == paths_view(paths@).contains(strs(path@)),
{
    let mut k: usize = 0;
    while k < paths.len()
        invariant
            k <= paths@.len(),
            forall|j: int| 0 <= j < k ==> paths_view(paths@)[j] != strs(path@),
        decreases paths.len() - k,
    {
        if strings_eq(paths[k].as_slice(), path.as_slice()) {
            assert(paths_view(paths@)[k as int] == strs(path@));
            return true;
        }
        k = k + 1;
    }
    false
}

fn child_path(parent: &Vec<String>, child: &String) -> (r: Vec<String>)
    ensures
        strs(r@) == strs(parent@).push(child@),
{
    let mut path = parent.clone();
    proof {
        assert(strs(path@) =~= strs(parent@)) by {
            assert forall|i: int| 0 <= i < parent@.len() implies path@[i]@ == parent@[i]@ by {
                assert(path@[i] == parent@[i]);
            }
        }
    }
    path.push(child.clone());
    assert(strs(path@) =~= strs(parent@).push(child@));
    path
}

/// The child paths an expansion of the presentation at position `parent`
/// adds, given `features`, the identities and kinds of the features of the
/// classifier that presentation's path resolves to, in the classifier's
/// order. Refused with [`ExpansionError::TooMany`] when the children not yet
/// shown would take the view past [`MAX_OCCURRENCES`] presentations.
pub fn expansion_children(
    properties: &Vec<PropertyOccurrence>,
    parent: usize,
    features: &[(String, ElementKind)],
) -> (r: Result<Vec<Vec<String>>, ExpansionError>)
    requires
        parent < properties@.len(),
    ensures
        match r {
            Ok(paths) => expansion_children_spec(
                properties@,
                strs(properties@[parent as int].property_path@),
                features_view(features@),
            ) == Ok::<Seq<Seq<Seq<char>>>, ExpansionError>(paths_view(paths@)),
            Err(e) => expansion_children_spec(
                properties@,
                strs(properties@[parent as int].property_path@),
                features_view(features@),
            ) == Err::<Seq<Seq<Seq<char>>>, ExpansionError>(e),
        },
{
    let ghost ps = properties@;
    let ghost fs = features_view(features@);
    let parent_path = &properties[parent].property_path;
    let ghost pp = strs(parent_path@);
    let mut missing: usize = 0;
    let mut added: Vec<Vec<String>> = Vec::new();
    let mut i: usize = 0;
    while i < features.len()
        invariant
            i <= features@.len(),
            fs == features_view(features@),
            pp == strs(parent_path@),
            ps == properties@,
            missing == missing_count(ps, pp, fs, i as int),
            missing <= i,
            paths_view(added@) == added_paths(ps, pp, fs, i as int),
        decreases features.len() - i,
    {
        let (id, kind) = (&features[i].0, features[i].1);
        assert(fs[i as int] == (id@, kind));
        if kind == ElementKind::PartProperty || kind == ElementKind::ReferenceProperty {
            let path = child_path(parent_path, id);
            if !path_shown(properties, &path) {
                missing = missing + 1;
                if !path_listed(&added, &path) {
                    added.push(path);
                    assert(paths_view(added@) =~= added_paths(ps, pp, fs, i as int + 1));
                }
            }
        }
        i = i + 1;
    }
    if properties.len() > MAX_OCCURRENCES || missing > MAX_OCCURRENCES - properties.len() {
        return Err(ExpansionError::TooMany);
    }
    Ok(added)
}

/// Every added path lies one level below the parent, is shown nowhere yet,
/// and appears once.
pub proof fn lemma_added_paths_are_new_children(
    ps: Seq<PropertyOccurrence>,
    parent: Seq<Seq<char>>,
    fs: Seq<(Seq<char>, ElementKind)>,
    n: int,
)
    requires
        0 <= n <= fs.len(),
    ensures
        forall|j: int|
            0 <= j < added_paths(ps, parent, fs, n).len() ==> {
                let path = #[trigger] added_paths(ps, parent, fs, n)[j];
                &&& path.len() == parent.len() + 1
                &&& is_descendant_spec(path, parent)
                &&& !path_present(ps, path)
            },
        forall|a: int, b: int|
            0 <= a < b < added_paths(ps, parent, fs, n).len() ==> added_paths(ps, parent, fs, n)[a]
                != added_paths(ps, parent, fs, n)[b],
    decreases n,
{
    if n > 0 {
        lemma_added_paths_are_new_children(ps, parent, fs, n - 1);
        let before = added_paths(ps, parent, fs, n - 1);
        let path = parent.push(fs[n - 1].0);
        assert(path.take(parent.len() as int) =~= parent);
        if structural_child(fs[n - 1].1) && !path_present(ps, path) && !before.contains(path) {
            let after = before.push(path);
            assert forall|a: int, b: int| 0 <= a < b < after.len() implies after[a] != after[b] by {
                if b == before.len() {
                    assert(before.contains(before[a]));
                }
            }
        }
    }
}

/// Expanding again adds nothing: once every path shown before and every path
/// an expansion added is shown, the same features add no path and leave
/// nothing missing.
pub proof fn lemma_expansion_settles(
    ps: Seq<PropertyOccurrence>,
    after: Seq<PropertyOccurrence>,
    parent: Seq<Seq<char>>,
    fs: Seq<(Seq<char>, ElementKind)>,
)
    requires
        forall|path: Seq<Seq<char>>| path_present(ps, path) ==> path_present(after, path),
        forall|j: int|
            0 <= j < added_paths(ps, parent, fs, fs.len() as int).len() ==> path_present(
                after,
                #[trigger] added_paths(ps, parent, fs, fs.len() as int)[j],
            ),
    ensures
        missing_count(after, parent, fs, fs.len() as int) == 0,
        added_paths(after, parent, fs, fs.len() as int) == Seq::<Seq<Seq<char>>>::empty(),
{
    lemma_settles_prefix(ps, after, parent, fs, fs.len() as int);
}

proof fn lemma_settles_prefix(
    ps: Seq<PropertyOccurrence>,
    after: Seq<PropertyOccurrence>,
    parent: Seq<Seq<char>>,
    fs: Seq<(Seq<char>, ElementKind)>,
    n: int,
)
    requires
        n <= fs.len(),
        forall|path: Seq<Seq<char>>| path_present(ps, path) ==> path_present(after, path),
        forall|j: int|
            0 <= j < added_paths(ps, parent, fs, fs.len() as int).len() ==> path_present(
                after,
                #[trigger] added_paths(ps, parent, fs, fs.len() as int)[j],
            ),
    ensures
        missing_count(after, parent, fs, n) == 0,
        added_paths(after, parent, fs, n) == Seq::<Seq<Seq<char>>>::empty(),
    decreases n,
{
    if n > 0 {
        lemma_settles_prefix(ps, after, parent, fs, n - 1);
        let path = parent.push(fs[n - 1].0);
        if structural_child(fs[n - 1].1) && !path_present(ps, path) {
            lemma_added_contains(ps, parent, fs, n, fs.len() as int);
            let all = added_paths(ps, parent, fs, fs.len() as int);
            let j = choose|j: int| 0 <= j < all.len() && all[j] == path;
            assert(path_present(after, all[j]));
        }
    }
}

/// A structural child not shown before is among the paths added by any
/// longer prefix of the features.
proof fn lemma_added_contains(
    ps: Seq<PropertyOccurrence>,
    parent: Seq<Seq<char>>,
    fs: Seq<(Seq<char>, ElementKind)>,
    n: int,
    m: int,
)
    requires
        0 < n <= m <= fs.len(),
        structural_child(fs[n - 1].1),
        !path_present(ps, parent.push(fs[n - 1].0)),
    ensures
        added_paths(ps, parent, fs, m).contains(parent.push(fs[n - 1].0)),
    decreases m,
{
    let path = parent.push(fs[n - 1].0);
    if m == n {
        let before = added_paths(ps, parent, fs, n - 1);
        if !before.contains(path) {
            assert(before.push(path)[before.len() as int] == path);
        }
    } else {
        lemma_added_contains(ps, parent, fs, n, m - 1);
        let before = added_paths(ps, parent, fs, m - 1);
        let j = choose|j: int| 0 <= j < before.len() && before[j] == path;
        let q = parent.push(fs[m - 1].0);
        if structural_child(fs[m - 1].1) && !path_present(ps, q) && !before.contains(q) {
            assert(before.push(q)[j] == path);
        }
    }
}

/// Collapsing hides what lies below: once the presentation at `k` is marked
/// collapsed, no presentation whose path lies below its path is visible.
pub proof fn lemma_collapse_hides_descendants(
    ps: Seq<PropertyOccurrence>,
    k: int,
    q: PropertyOccurrence,
)
    requires
        0 <= k < ps.len(),
        is_descendant_spec(strs(q.property_path@), strs(ps[k].property_path@)),
    ensures
        !property_visible_spec(ps.update(k, PropertyOccurrence { collapsed: true, ..ps[k] }), q),
{
    let after = ps.update(k, PropertyOccurrence { collapsed: true, ..ps[k] });
    assert(after[k].collapsed);
}

} // verus!
