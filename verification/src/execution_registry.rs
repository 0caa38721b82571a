//! Bookkeeping of parametric executions per diagram: which execution session
//! runs a diagram, the fingerprint of the model it was started from, and the
//! runtime selection configured for the diagram. A session whose model has
//! changed since it started is never shown or stepped.

use vstd::prelude::*;
use crate::model_script::ElementKind;
use crate::text::{push_text, string_from_chars, strs};

verus! {

/// What the table `entries` holds for `key`: the first entry with that key.
pub open spec fn table_get<V>(entries: Seq<(String, V)>, key: Seq<char>) -> Option<V>
    decreases entries.len(),
{
    if entries.len() == 0 {
        None
    } else if entries[0].0@ == key {
        Some(entries[0].1)
    } else {
        table_get(entries.drop_first(), key)
    }
}

proof fn lemma_table_get_push<V>(entries: Seq<(String, V)>, k: String, v: V, key: Seq<char>)
    ensures
        table_get(entries.push((k, v)), key) == match table_get(entries, key) {
            Some(x) => Some(x),
            None => if k@ == key { Some(v) } else { None },
        },
    decreases entries.len(),
{
    let pushed = entries.push((k, v));
    if entries.len() > 0 {
        assert(pushed[0] == entries[0]);
        assert(pushed.drop_first() =~= entries.drop_first().push((k, v)));
        if entries[0].0@ != key {
            lemma_table_get_push(entries.drop_first(), k, v, key);
            assert(table_get(pushed, key) == table_get(pushed.drop_first(), key));
            assert(table_get(entries, key) == table_get(entries.drop_first(), key));
        }
    } else {
        assert(pushed[0] == (k, v));
        assert(pushed.drop_first() =~= Seq::<(String, V)>::empty());
        assert(table_get(Seq::<(String, V)>::empty(), key) is None);
        assert(table_get(entries, key) is None);
    }
}

proof fn lemma_table_get_prefix<V>(entries: Seq<(String, V)>, i: int, key: Seq<char>)
    requires
        0 <= i < entries.len(),
        forall|j: int| 0 <= j < i ==> entries[j].0@ != key,
    ensures
        table_get(entries, key) == table_get(entries.skip(i), key),
    decreases i,
{
    if i > 0 {
        assert(entries[0].0@ != key);
        assert(entries.drop_first().skip(i - 1) =~= entries.skip(i));
        assert forall|j: int| 0 <= j < i - 1 implies entries.drop_first()[j].0@ != key by {
            assert(entries.drop_first()[j] == entries[j + 1]);
        }
        lemma_table_get_prefix(entries.drop_first(), i - 1, key);
    } else {
        assert(entries.skip(0) =~= entries);
    }
}

/// A small table keyed by text.
pub struct Table<V> {
    entries: Vec<(String, V)>,
}

impl<V> Table<V> {
    /// What the table holds for `key`.
    pub closed spec fn get_spec(&self, key: Seq<char>) -> Option<V> {
        table_get(self.entries@, key)
    }

    /// An empty table.
    pub fn new() -> (t: Self)
        ensures
            forall|key: Seq<char>| t.get_spec(key) is None,
    {
        Table { entries: Vec::new() }
    }

    /// The value for `key`.
    pub fn get(&self, key: &str) -> (r: Option<&V>)
        ensures
            match r {
                Some(v) => self.get_spec(key@) == Some(*v),
                None => self.get_spec(key@) is None,
            },
    {
        let k = key.to_owned();
        let mut i: usize = 0;
        while i < self.entries.len()
            invariant
                i <= self.entries@.len(),
                k@ == key@,
                forall|j: int| 0 <= j < i ==> self.entries@[j].0@ != key@,
            decreases self.entries.len() - i,
        {
            if self.entries[i].0 == k {
                proof {
                    lemma_table_get_prefix(self.entries@, i as int, key@);
                }
                return Some(&self.entries[i].1);
            }
            i = i + 1;
        }
        proof {
            lemma_table_get_absent(self.entries@, key@);
        }
        None
    }

    /// Forget `key`; give back what it held.
    pub fn remove(&mut self, key: &str) -> (r: Option<V>)
        ensures
            r == old(self).get_spec(key@),
            final(self).get_spec(key@) is None,
            forall|other: Seq<char>| other != key@ ==> final(self).get_spec(other) == old(self).get_spec(other),
    {
        let mut kept: Vec<(String, V)> = Vec::new();
        let mut removed: Option<V> = None;
        let mut old_entries: Vec<(String, V)> = Vec::new();
        std::mem::swap(&mut old_entries, &mut self.entries);
        let ghost all = old_entries@;
        let mut rest = old_entries;
        let k = key.to_owned();
        let ghost mut i: int = 0;
        while rest.len() > 0
            invariant
                k@ == key@,
                0 <= i,
                i + rest@.len() == all.len(),
                rest@ == all.skip(i),
                forall|other: Seq<char>|
                    #![trigger table_get(kept@, other)]
                    other != key@ ==> table_get(kept@, other) == table_get(all.take(i), other),
                table_get(kept@, key@) is None,
                removed == table_get(all.take(i), key@),
            decreases rest.len(),
        {
            let entry = rest.remove(0);
            proof {
                assert(entry == all[i]);
                assert(all.take(i + 1) =~= all.take(i).push(all[i]));
            }
            if entry.0 == k {
                proof {
                    lemma_table_get_push(all.take(i), entry.0, entry.1, key@);
                    assert forall|other: Seq<char>| other != key@ implies table_get(kept@, other)
                        == table_get(all.take(i + 1), other) by {
                        lemma_table_get_push(all.take(i), entry.0, entry.1, other);
                    }
                }
                if removed.is_none() {
                    removed = Some(entry.1);
                }
            } else {
                let ghost before = kept@;
                proof {
                    lemma_table_get_push(all.take(i), entry.0, entry.1, key@);
                    assert forall|other: Seq<char>| other != key@ implies table_get(
                        before.push(entry),
                        other,
                    ) == table_get(all.take(i + 1), other) by {
                        lemma_table_get_push(all.take(i), entry.0, entry.1, other);
                        lemma_table_get_push(before, entry.0, entry.1, other);
                    }
                    lemma_table_get_push(before, entry.0, entry.1, key@);
                }
                kept.push(entry);
            }
            proof {
                i = i + 1;
            }
        }
        proof {
            assert(all.take(all.len() as int) =~= all);
        }
        self.entries = kept;
        removed
    }

    /// Let `key` hold `value` (replacing what it held).
    pub fn insert(&mut self, key: String, value: V)
        ensures
            final(self).get_spec(key@) == Some(value),
            forall|other: Seq<char>| other != key@ ==> final(self).get_spec(other) == old(self).get_spec(other),
    {
        let _ = self.remove(key.as_str());
        let ghost before = self.entries@;
        let ghost k = key@;
        self.entries.push((key, value));
        proof {
            assert forall|other: Seq<char>| #[trigger] table_get(self.entries@, other) == match table_get(
                before,
                other,
            ) {
                Some(x) => Some(x),
                None => if k == other { Some(value) } else { None },
            } by {
                lemma_table_get_push(before, self.entries@.last().0, value, other);
                assert(self.entries@ == before.push(self.entries@.last()));
            }
        }
    }
}

proof fn lemma_table_get_absent<V>(entries: Seq<(String, V)>, key: Seq<char>)
    requires
        forall|j: int| 0 <= j < entries.len() ==> entries[j].0@ != key,
    ensures
        table_get(entries, key) is None,
    decreases entries.len(),
{
    if entries.len() > 0 {
        lemma_table_get_absent(entries.drop_first(), key);
    }
}

/// The content of an optional text.
pub open spec fn text_of(s: Option<String>) -> Option<Seq<char>> {
    match s {
        Some(x) => Some(x@),
        None => None,
    }
}

/// Which session a step may advance: the diagram's session, provided the
/// model it was started from (`started`) is the model now (`now`).
pub open spec fn step_check(session: Option<u64>, started: Option<Seq<char>>, now: Seq<char>) -> Result<
    u64,
    Seq<char>,
> {
    match session {
        None => Err("initialize this Parametric execution first"@),
        Some(s) => if started == Some(now) {
            Ok(s)
        } else {
            Err("Parametric model changed; initialize execution again"@)
        },
    }
}

/// The parametric executions of the diagrams: each diagram's session, the
/// fingerprint of the model the session started from, and the diagram's
/// runtime selection.
pub struct ExecutionRegistry<Sel> {
    sessions: Table<u64>,
    fingerprints: Table<String>,
    selections: Table<Sel>,
}

impl<Sel> ExecutionRegistry<Sel> {
    /// The session running diagram `d`.
    pub closed spec fn session_of(&self, d: Seq<char>) -> Option<u64> {
        self.sessions.get_spec(d)
    }

    /// The fingerprint of the model diagram `d`'s session started from.
    pub closed spec fn fingerprint_of(&self, d: Seq<char>) -> Option<Seq<char>> {
        text_of(self.fingerprints.get_spec(d))
    }

    /// The runtime selection configured for diagram `d`.
    pub closed spec fn selection_of(&self, d: Seq<char>) -> Option<Sel> {
        self.selections.get_spec(d)
    }

    /// No executions and no selections.
    pub fn new() -> (r: Self)
        ensures
            forall|d: Seq<char>|
                r.session_of(d) is None && r.fingerprint_of(d) is None && r.selection_of(d) is None,
    {
        ExecutionRegistry { sessions: Table::new(), fingerprints: Table::new(), selections: Table::new() }
    }

    /// Stop tracking the execution of diagram `d`; the session that stops
    /// comes back so that its engine can be discarded.
    pub fn invalidate(&mut self, d: &str) -> (r: Option<u64>)
        ensures
            r == old(self).session_of(d@),
            final(self).session_of(d@) is None,
            final(self).fingerprint_of(d@) is None,
            forall|e: Seq<char>|
                e != d@ ==> final(self).session_of(e) == old(self).session_of(e)
                    && final(self).fingerprint_of(e) == old(self).fingerprint_of(e),
            forall|e: Seq<char>| final(self).selection_of(e) == old(self).selection_of(e),
    {
        let r = self.sessions.remove(d);
        let _ = self.fingerprints.remove(d);
        r
    }

    /// Record the session started for diagram `d` from the model with `fingerprint`.
    pub fn record_start(&mut self, d: String, session: u64, fingerprint: String)
        ensures
            final(self).session_of(d@) == Some(session),
            final(self).fingerprint_of(d@) == Some(fingerprint@),
            forall|e: Seq<char>|
                e != d@ ==> final(self).session_of(e) == old(self).session_of(e)
                    && final(self).fingerprint_of(e) == old(self).fingerprint_of(e),
            forall|e: Seq<char>| final(self).selection_of(e) == old(self).selection_of(e),
    {
        let key = d.clone();
        self.sessions.insert(d, session);
        self.fingerprints.insert(key, fingerprint);
    }

    /// Configure the runtime selection of diagram `d`; its running execution,
    /// if any, stops (the session that stops comes back).
    pub fn configure(&mut self, d: String, selection: Sel) -> (r: Option<u64>)
        ensures
            r == old(self).session_of(d@),
            final(self).selection_of(d@) == Some(selection),
            final(self).session_of(d@) is None,
            final(self).fingerprint_of(d@) is None,
            forall|e: Seq<char>|
                e != d@ ==> final(self).session_of(e) == old(self).session_of(e)
                    && final(self).fingerprint_of(e) == old(self).fingerprint_of(e)
                    && final(self).selection_of(e) == old(self).selection_of(e),
    {
        let r = self.invalidate(d.as_str());
        self.selections.insert(d, selection);
        r
    }

    /// The runtime selection of diagram `d`.
    pub fn selection(&self, d: &str) -> (r: Option<&Sel>)
        ensures
            match r {
                Some(s) => self.selection_of(d@) == Some(*s),
                None => self.selection_of(d@) is None,
            },
    {
        self.selections.get(d)
    }

    /// The session of diagram `d`, which must have been initialized.
    pub fn current_session(&self, d: &str) -> (r: Result<u64, String>)
        ensures
            match r {
                Ok(s) => self.session_of(d@) == Some(s),
                Err(m) => self.session_of(d@) is None && m@ == "initialize this Parametric execution first"@,
            },
    {
        match self.sessions.get(d) {
            Some(s) => Ok(*s),
            None => Err("initialize this Parametric execution first".to_owned()),
        }
    }

    /// The session whose state diagram `d` shows for the model with
    /// `fingerprint`: none when there is no session or the model changed.
    pub fn shown_session(&self, d: &str, fingerprint: &str) -> (r: Option<u64>)
        ensures
            r == (if self.fingerprint_of(d@) == Some(fingerprint@) { self.session_of(d@) } else { None }),
    {
        match self.sessions.get(d) {
            None => None,
            Some(s) => match self.fingerprints.get(d) {
                Some(f) => if *f == fingerprint.to_owned() {
                    Some(*s)
                } else {
                    None
                },
                None => None,
            },
        }
    }

    /// The session a step of diagram `d` advances, for the model with `fingerprint`.
    pub fn steppable_session(&self, d: &str, fingerprint: &str) -> (r: Result<u64, String>)
        ensures
            match (r, step_check(self.session_of(d@), self.fingerprint_of(d@), fingerprint@)) {
                (Ok(s), Ok(t)) => s == t,
                (Err(m), Err(t)) => m@ == t,
                _ => false,
            },
    {
        let s = self.current_session(d)?;
        match self.fingerprints.get(d) {
            Some(f) => if *f == fingerprint.to_owned() {
                Ok(s)
            } else {
                Err("Parametric model changed; initialize execution again".to_owned())
            },
            None => Err("Parametric model changed; initialize execution again".to_owned()),
        }
    }
}

/// A session recorded as started from a model can be stepped while the model
/// stays the same, and not once it has changed.
pub proof fn lemma_started_session_steps_until_the_model_changes<Sel>(
    after: ExecutionRegistry<Sel>,
    d: Seq<char>,
    session: u64,
    fingerprint: Seq<char>,
    now: Seq<char>,
)
    requires
        after.session_of(d) == Some(session),
        after.fingerprint_of(d) == Some(fingerprint),
    ensures
        step_check(after.session_of(d), after.fingerprint_of(d), now) == if now == fingerprint {
            Ok::<u64, Seq<char>>(session)
        } else {
            Err::<u64, Seq<char>>("Parametric model changed; initialize execution again"@)
        },
{
}

/// The texts `xs` separated by `", "`.
pub open spec fn joined(xs: Seq<Seq<char>>) -> Seq<char>
    decreases xs.len(),
{
    if xs.len() == 0 {
        Seq::empty()
    } else if xs.len() == 1 {
        xs[0]
    } else {
        joined(xs.drop_last()) + ", "@ + xs.last()
    }
}

/// The runtime occurrence an execution of a parametric context runs in: the
/// requested one when it is compatible (an error naming the compatible ones
/// otherwise), else the only compatible one, else none.
pub open spec fn runtime_occurrence(
    requested: Option<Seq<char>>,
    compatible: Seq<Seq<char>>,
    context: Seq<char>,
) -> Result<Option<Seq<char>>, Seq<char>> {
    match requested {
        Some(p) => if compatible.contains(p) {
            Ok(Some(p))
        } else {
            Err(
                "Parametric runtime occurrence '"@ + p + "' is not compatible with context '"@ + context
                    + "'. Compatible occurrence(s): "@ + (if compatible.len() == 0 {
                    "none"@
                } else {
                    joined(compatible)
                }) + "."@,
            )
        },
        None => if compatible.len() == 1 {
            Ok(Some(compatible[0]))
        } else {
            Ok(None)
        },
    }
}

/// Choose the runtime occurrence of an execution from the requested one and
/// the occurrences compatible with the context `context`.
pub fn select_runtime_occurrence(requested: Option<&str>, compatible: &[String], context: &str) -> (r:
    Result<Option<String>, String>)
    ensures
        match (r, runtime_occurrence(
            match requested { Some(p) => Some(p@), None => None },
            strs(compatible@),
            context@,
        )) {
            (Ok(Some(x)), Ok(Some(y))) => x@ == y,
            (Ok(None), Ok(None)) => true,
            (Err(m), Err(t)) => m@ == t,
            _ => false,
        },
{
    match requested {
        None => {
            if compatible.len() == 1 {
                Ok(Some(compatible[0].clone()))
            } else {
                Ok(None)
            }
        },
        Some(p) => {
            let wanted = p.to_owned();
            let mut k: usize = 0;
            while k < compatible.len()
                invariant
                    k <= compatible@.len(),
                    requested == Some(p),
                    wanted@ == p@,
                    forall|j: int| 0 <= j < k ==> compatible@[j]@ != p@,
                decreases compatible.len() - k,
            {
                if compatible[k] == wanted {
                    assert(strs(compatible@)[k as int] == p@);
                    assert(strs(compatible@).len() == compatible@.len());
                    assert(strs(compatible@).contains(p@));
                    return Ok(Some(wanted));
                }
                k = k + 1;
            }
            assert(!strs(compatible@).contains(p@)) by {
                assert forall|j: int| 0 <= j < strs(compatible@).len() implies strs(compatible@)[j] != p@ by {
                    assert(strs(compatible@)[j] == compatible@[j]@);
                }
            }
            let mut v: Vec<char> = Vec::new();
            push_text(&mut v, "Parametric runtime occurrence '");
            push_text(&mut v, p);
            push_text(&mut v, "' is not compatible with context '");
            push_text(&mut v, context);
            push_text(&mut v, "'. Compatible occurrence(s): ");
            let ghost head = v@;
            if compatible.len() == 0 {
                push_text(&mut v, "none");
            } else {
                let mut j: usize = 0;
                while j < compatible.len()
                    invariant
                        1 <= compatible@.len(),
                        j <= compatible@.len(),
                        v@ == head + joined(strs(compatible@).take(j as int)),
                    decreases compatible.len() - j,
                {
                    let ghost before = v@;
                    assert(strs(compatible@).take(j + 1).drop_last() =~= strs(compatible@).take(j as int));
                    assert(strs(compatible@).take(j + 1).last() == compatible@[j as int]@);
                    if j > 0 {
                        push_text(&mut v, ", ");
                    } else {
                        assert(strs(compatible@).take(0) =~= Seq::<Seq<char>>::empty());
                    }
                    push_text(&mut v, compatible[j].as_str());
                    proof {
                        if j == 0 {
                            assert(strs(compatible@).take(1) =~= seq![compatible@[0]@]);
                            assert(v@ =~= head + joined(strs(compatible@).take(1)));
                        } else {
                            assert(v@ =~= head + joined(strs(compatible@).take(j + 1)));
                        }
                    }
                    j = j + 1;
                }
                assert(strs(compatible@).take(compatible@.len() as int) =~= strs(compatible@));
            }
            push_text(&mut v, ".");
            Err(string_from_chars(v.as_slice()))
        },
    }
}

/// How a parametric context executes.
#[derive(Debug, Clone, Copy, PartialEq, Eq, Structural)]
pub enum RuntimeContext {
    /// A constraint block: a reusable definition, run without a structural runtime.
    Definition,
    /// A block or association block: run inside a structural runtime.
    InStructure,
}

/// How a context of kind `kind` named `name` executes, or why it cannot;
/// `kind_label` is how the kind is written in messages, and `occurrence_requested`
/// says whether the diagram's runtime selection names an occurrence.
pub open spec fn runtime_context_spec(
    kind: ElementKind,
    name: Seq<char>,
    kind_label: Seq<char>,
    occurrence_requested: bool,
) -> Result<RuntimeContext, Seq<char>> {
    if kind == ElementKind::ConstraintBlock {
        if occurrence_requested {
            Err(
                "ConstraintBlock '"@ + name
                    + "' is a reusable definition and cannot select a runtime occurrence."@,
            )
        } else {
            Ok(RuntimeContext::Definition)
        }
    } else if kind == ElementKind::Block || kind == ElementKind::AssociationBlock {
        Ok(RuntimeContext::InStructure)
    } else {
        Err(
            "Parametric context '"@ + name + "' ("@ + kind_label
                + ") is not an executable structural classifier."@,
        )
    }
}

/// Decide how a parametric context executes.
pub fn runtime_context(
    kind: ElementKind,
    name: &str,
    kind_label: &str,
    occurrence_requested: bool,
) -> (r: Result<RuntimeContext, String>)
    ensures
        match (r, runtime_context_spec(kind, name@, kind_label@, occurrence_requested)) {
            (Ok(a), Ok(b)) => a == b,
            (Err(m), Err(t)) => m@ == t,
            _ => false,
        },
{
    match kind {
        ElementKind::ConstraintBlock => {
            if occurrence_requested {
                let mut v: Vec<char> = Vec::new();
                push_text(&mut v, "ConstraintBlock '");
                push_text(&mut v, name);
                push_text(&mut v, "' is a reusable definition and cannot select a runtime occurrence.");
                Err(string_from_chars(v.as_slice()))
            } else {
                Ok(RuntimeContext::Definition)
            }
        },
        ElementKind::Block | ElementKind::AssociationBlock => Ok(RuntimeContext::InStructure),
        _ => {
            let mut v: Vec<char> = Vec::new();
            push_text(&mut v, "Parametric context '");
            push_text(&mut v, name);
            push_text(&mut v, "' (");
            push_text(&mut v, kind_label);
            push_text(&mut v, ") is not an executable structural classifier.");
            Err(string_from_chars(v.as_slice()))
        },
    }
}

/// Kinds of element a structural runtime can be rooted at.
pub open spec fn runtime_root_kind(kind: ElementKind) -> bool {
    kind == ElementKind::Block || kind == ElementKind::AssociationBlock || kind
        == ElementKind::PartProperty || kind == ElementKind::InstanceSpecification
}

/// Accept the root of a structural runtime, of kind `kind` and named `name`,
/// or say why it cannot be one (`kind_label` is how the kind is written).
pub fn check_runtime_root(kind: ElementKind, name: &str, kind_label: &str) -> (r: Result<(), String>)
    ensures
        r is Ok <==> runtime_root_kind(kind),
        r matches Err(m) ==> m@ == "Parametric runtime root '"@ + name@ + "' ("@ + kind_label@
            + ") is not a structural execution root."@,
{
    match kind {
        ElementKind::Block | ElementKind::AssociationBlock | ElementKind::PartProperty
        | ElementKind::InstanceSpecification => Ok(()),
        _ => {
            let mut v: Vec<char> = Vec::new();
            push_text(&mut v, "Parametric runtime root '");
            push_text(&mut v, name);
            push_text(&mut v, "' (");
            push_text(&mut v, kind_label);
            push_text(&mut v, ") is not a structural execution root.");
            Err(string_from_chars(v.as_slice()))
        },
    }
}

} // verus!
