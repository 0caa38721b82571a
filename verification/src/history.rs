//! Bounded undo/redo history of the authored workspace state.
//!
//! A snapshot type `S` stands for everything a user can author (project,
//! diagrams, behavior and activity stores). The history keeps two stacks of
//! snapshots, each holding at most [`HISTORY_LIMIT`] entries; when a push goes
//! past the limit the oldest entry is dropped.

use vstd::prelude::*;
use crate::text::{push_text, string_from_chars};

verus! {

/// Most snapshots either stack holds.
pub const HISTORY_LIMIT: usize = 100;

/// `s` after dropping its oldest entry when it holds more than the limit.
pub open spec fn capped<S>(s: Seq<S>) -> Seq<S> {
    if s.len() > HISTORY_LIMIT {
        s.drop_first()
    } else {
        s
    }
}

/// The abstract content of a history together with the authored state it governs.
pub struct HistoryModel<S> {
    pub undo: Seq<S>,
    pub redo: Seq<S>,
    pub current: S,
}

/// Record `snapshot` as the newest undo entry and forget every redo entry.
pub open spec fn model_commit<S>(m: HistoryModel<S>, snapshot: S) -> HistoryModel<S> {
    HistoryModel { undo: capped(m.undo.push(snapshot)), redo: Seq::empty(), current: m.current }
}

/// Undo (`undoing`) or redo: move the newest entry of one stack into the
/// authored state and push the replaced state onto the other stack. With an
/// empty source stack nothing changes and the result is `false`.
pub open spec fn model_transfer<S>(m: HistoryModel<S>, undoing: bool) -> (HistoryModel<S>, bool) {
    let source = if undoing { m.undo } else { m.redo };
    let destination = if undoing { m.redo } else { m.undo };
    if source.len() == 0 {
        (m, false)
    } else {
        let new_source = source.drop_last();
        let new_destination = capped(destination.push(m.current));
        let current = source.last();
        if undoing {
            (HistoryModel { undo: new_source, redo: new_destination, current }, true)
        } else {
            (HistoryModel { undo: new_destination, redo: new_source, current }, true)
        }
    }
}

/// One accepted edit: the replaced state becomes the newest undo entry, the
/// redo stack is emptied, and `candidate` becomes the authored state.
pub open spec fn model_apply<S>(m: HistoryModel<S>, candidate: S) -> HistoryModel<S> {
    HistoryModel { current: candidate, ..model_commit(m, m.current) }
}

/// Both stacks within the limit.
pub open spec fn model_bounded<S>(m: HistoryModel<S>) -> bool {
    m.undo.len() <= HISTORY_LIMIT && m.redo.len() <= HISTORY_LIMIT
}

/// A successful undo followed by a redo gives back the same authored state and
/// the same two stacks, as long as the redo stack had room for one more entry.
pub proof fn lemma_undo_then_redo_restores<S>(m: HistoryModel<S>)
    requires
        model_bounded(m),
        m.undo.len() > 0,
        m.redo.len() < HISTORY_LIMIT,
    ensures
        model_transfer(m, true).1,
        model_transfer(model_transfer(m, true).0, false) == (m, true),
{
    let m1 = model_transfer(m, true).0;
    assert(m1.redo =~= m.redo.push(m.current));
    assert(m1.redo.drop_last() =~= m.redo);
    assert(m1.undo.push(m1.current) =~= m.undo);
}

/// A successful redo followed by an undo gives back the same authored state and
/// the same two stacks, as long as the undo stack had room for one more entry.
pub proof fn lemma_redo_then_undo_restores<S>(m: HistoryModel<S>)
    requires
        model_bounded(m),
        m.redo.len() > 0,
        m.undo.len() < HISTORY_LIMIT,
    ensures
        model_transfer(m, false).1,
        model_transfer(model_transfer(m, false).0, true) == (m, true),
{
    let m1 = model_transfer(m, false).0;
    assert(m1.undo =~= m.undo.push(m.current));
    assert(m1.undo.drop_last() =~= m.undo);
    assert(m1.redo.push(m1.current) =~= m.redo);
}

/// Undo or redo on an empty stack reports `false` and changes neither the
/// authored state nor either stack; on a nonempty stack it reports `true`.
pub proof fn lemma_transfer_fails_only_on_empty_stack<S>(m: HistoryModel<S>, undoing: bool)
    ensures
        model_transfer(m, undoing).1 == ((if undoing { m.undo } else { m.redo }).len() > 0),
        !model_transfer(m, undoing).1 ==> model_transfer(m, undoing).0 == m,
{
}

/// Undo right after an accepted edit restores the state before the edit, puts
/// the edited state on the redo stack, and leaves the earlier undo entries as
/// they were (when the undo stack was not full).
pub proof fn lemma_apply_then_undo_restores<S>(m: HistoryModel<S>, candidate: S)
    requires
        model_bounded(m),
        m.undo.len() < HISTORY_LIMIT,
    ensures
        model_transfer(model_apply(m, candidate), true) == (
            HistoryModel { undo: m.undo, redo: seq![candidate], current: m.current },
            true,
        ),
{
    let m1 = model_apply(m, candidate);
    assert(m1.undo =~= m.undo.push(m.current));
    assert(m1.undo.drop_last() =~= m.undo);
    assert(capped(Seq::<S>::empty().push(candidate)) =~= seq![candidate]);
}

/// Every operation keeps both stacks within the limit.
pub proof fn lemma_operations_stay_bounded<S>(m: HistoryModel<S>, snapshot: S, undoing: bool)
    requires
        model_bounded(m),
    ensures
        model_bounded(model_commit(m, snapshot)),
        model_bounded(model_transfer(m, undoing).0),
        model_bounded(model_apply(m, snapshot)),
{
}

/// The undo and redo stacks of the workspace.
pub struct HistoryState<S> {
    undo: Vec<S>,
    redo: Vec<S>,
}

impl<S> HistoryState<S> {
    #[verifier::type_invariant]
    spec fn bounded(self) -> bool {
        self.undo@.len() <= HISTORY_LIMIT && self.redo@.len() <= HISTORY_LIMIT
    }

    /// Undo entries, oldest first.
    pub closed spec fn undo_stack(&self) -> Seq<S> {
        self.undo@
    }

    /// Redo entries, oldest first.
    pub closed spec fn redo_stack(&self) -> Seq<S> {
        self.redo@
    }

    /// The history together with the authored state `current`.
    pub open spec fn model(&self, current: S) -> HistoryModel<S> {
        HistoryModel { undo: self.undo_stack(), redo: self.redo_stack(), current }
    }

    /// An empty history.
    pub fn new() -> (h: Self)
        ensures
            h.undo_stack() == Seq::<S>::empty(),
            h.redo_stack() == Seq::<S>::empty(),
    {
        HistoryState { undo: Vec::new(), redo: Vec::new() }
    }

    /// Number of undo entries.
    pub fn undo_len(&self) -> (n: usize)
        ensures
            n == self.undo_stack().len(),
            n <= HISTORY_LIMIT,
    {
        proof {
            use_type_invariant(self);
        }
        self.undo.len()
    }

    /// Number of redo entries.
    pub fn redo_len(&self) -> (n: usize)
        ensures
            n == self.redo_stack().len(),
            n <= HISTORY_LIMIT,
    {
        proof {
            use_type_invariant(self);
        }
        self.redo.len()
    }

    /// Record `snapshot` as the newest undo entry and clear the redo stack.
    pub fn commit_snapshot(&mut self, snapshot: S)
        ensures
            final(self).undo_stack().len() <= HISTORY_LIMIT,
            final(self).redo_stack().len() <= HISTORY_LIMIT,
            final(self).undo_stack() == capped(old(self).undo_stack().push(snapshot)),
            final(self).redo_stack() == Seq::<S>::empty(),
    {
        proof {
            use_type_invariant(&*self);
        }
        let mut undo: Vec<S> = Vec::new();
        let mut redo: Vec<S> = Vec::new();
        std::mem::swap(&mut undo, &mut self.undo);
        std::mem::swap(&mut redo, &mut self.redo);
        let ghost pushed = undo@.push(snapshot);
        undo.push(snapshot);
        if undo.len() > HISTORY_LIMIT {
            undo.remove(0);
            assert(undo@ =~= pushed.drop_first());
        }
        redo.clear();
        self.undo = undo;
        self.redo = redo;
    }

    /// Undo (`undoing`) or redo one step against the authored state `current`.
    /// Returns `false`, changing nothing, when the source stack is empty.
    pub fn transfer_history(&mut self, current: &mut S, undoing: bool) -> (moved: bool)
        ensures
            final(self).undo_stack().len() <= HISTORY_LIMIT,
            final(self).redo_stack().len() <= HISTORY_LIMIT,
            (final(self).model(*final(current)), moved) == model_transfer(
                old(self).model(*old(current)),
                undoing,
            ),
    {
        proof {
            use_type_invariant(&*self);
        }
        let mut undo: Vec<S> = Vec::new();
        let mut redo: Vec<S> = Vec::new();
        std::mem::swap(&mut undo, &mut self.undo);
        std::mem::swap(&mut redo, &mut self.redo);
        let ghost u0 = undo@;
        let ghost r0 = redo@;
        let moved;
        if undoing {
            match undo.pop() {
                None => {
                    moved = false;
                },
                Some(target) => {
                    let ghost pushed = redo@.push(*current);
                    let mut previous = target;
                    std::mem::swap(current, &mut previous);
                    redo.push(previous);
                    if redo.len() > HISTORY_LIMIT {
                        redo.remove(0);
                        assert(redo@ =~= pushed.drop_first());
                    }
                    assert(undo@ =~= u0.drop_last());
                    moved = true;
                },
            }
        } else {
            match redo.pop() {
                None => {
                    moved = false;
                },
                Some(target) => {
                    let ghost pushed = undo@.push(*current);
                    let mut previous = target;
                    std::mem::swap(current, &mut previous);
                    undo.push(previous);
                    if undo.len() > HISTORY_LIMIT {
                        undo.remove(0);
                        assert(undo@ =~= pushed.drop_first());
                    }
                    assert(redo@ =~= r0.drop_last());
                    moved = true;
                },
            }
        }
        self.undo = undo;
        self.redo = redo;
        moved
    }

    /// Undo one step.
    pub fn undo_states(&mut self, current: &mut S) -> (moved: bool)
        ensures
            final(self).undo_stack().len() <= HISTORY_LIMIT,
            final(self).redo_stack().len() <= HISTORY_LIMIT,
            (final(self).model(*final(current)), moved) == model_transfer(
                old(self).model(*old(current)),
                true,
            ),
    {
        self.transfer_history(current, true)
    }

    /// Redo one step.
    pub fn redo_states(&mut self, current: &mut S) -> (moved: bool)
        ensures
            final(self).undo_stack().len() <= HISTORY_LIMIT,
            final(self).redo_stack().len() <= HISTORY_LIMIT,
            (final(self).model(*final(current)), moved) == model_transfer(
                old(self).model(*old(current)),
                false,
            ),
    {
        self.transfer_history(current, false)
    }

    /// Forget every undo and redo entry.
    pub fn reset_states(&mut self)
        ensures
            final(self).undo_stack().len() <= HISTORY_LIMIT,
            final(self).redo_stack().len() <= HISTORY_LIMIT,
            final(self).undo_stack() == Seq::<S>::empty(),
            final(self).redo_stack() == Seq::<S>::empty(),
    {
        proof {
            use_type_invariant(&*self);
        }
        let mut undo: Vec<S> = Vec::new();
        let mut redo: Vec<S> = Vec::new();
        std::mem::swap(&mut undo, &mut self.undo);
        std::mem::swap(&mut redo, &mut self.redo);
        undo.clear();
        redo.clear();
        self.undo = undo;
        self.redo = redo;
    }

    /// Publish one accepted edit: the replaced authored state becomes the newest
    /// undo entry, redo is cleared, and `candidate` becomes the authored state.
    pub fn apply_transaction(&mut self, current: &mut S, candidate: S)
        ensures
            final(self).undo_stack().len() <= HISTORY_LIMIT,
            final(self).redo_stack().len() <= HISTORY_LIMIT,
            final(self).model(*final(current)) == model_apply(old(self).model(*old(current)), candidate),
    {
        let mut previous = candidate;
        std::mem::swap(current, &mut previous);
        self.commit_snapshot(previous);
    }

    /// Record the authored state `snapshot` before an edit (a checkpoint).
    pub fn checkpoint_states(&mut self, snapshot: S)
        ensures
            final(self).undo_stack().len() <= HISTORY_LIMIT,
            final(self).redo_stack().len() <= HISTORY_LIMIT,
            final(self).undo_stack() == capped(old(self).undo_stack().push(snapshot)),
            final(self).redo_stack() == Seq::<S>::empty(),
    {
        self.commit_snapshot(snapshot);
    }

    /// Publish a validated edit of the authored state as one undoable step.
    /// An edit that changes nothing (`changed` is false) leaves the state and
    /// both stacks as they are and reports `false`.
    pub fn apply_structural_specification(&mut self, current: &mut S, candidate: S, changed: bool) -> (applied: bool)
        ensures
            final(self).undo_stack().len() <= HISTORY_LIMIT,
            final(self).redo_stack().len() <= HISTORY_LIMIT,
            applied == changed,
            changed ==> final(self).model(*final(current)) == model_apply(
                old(self).model(*old(current)),
                candidate,
            ),
            !changed ==> final(self).model(*final(current)) == old(self).model(*old(current)),
    {
        proof {
            use_type_invariant(&*self);
        }
        if !changed {
            return false;
        }
        self.apply_transaction(current, candidate);
        true
    }
}


/// How an attempt to take a lock without waiting finds it.
#[derive(Debug, Clone, Copy, PartialEq, Eq, Structural)]
pub enum LockState {
    Available,
    /// A holder failed while holding it.
    Poisoned,
    /// Another operation holds it.
    Busy,
}

/// Number of authored-state locks an undo, redo or checkpoint takes.
pub const AUTHORED_LOCKS: usize = 7;

/// The name of authored-state lock `i`, in the order they are taken.
pub open spec fn authored_lock_name(i: int) -> Seq<char> {
    if i == 0 {
        "project"@
    } else if i == 1 {
        "diagram"@
    } else if i == 2 {
        "IBD"@
    } else if i == 3 {
        "behavior"@
    } else if i == 4 {
        "behavior diagram"@
    } else if i == 5 {
        "Activity repository"@
    } else {
        "Activity diagram"@
    }
}

/// The first authored lock, from `i` on, that cannot be taken.
pub open spec fn first_unavailable(locks: Seq<LockState>, i: int) -> Option<int>
    decreases locks.len() - i,
{
    if i < 0 || i >= locks.len() {
        None
    } else if locks[i] != LockState::Available {
        Some(i)
    } else {
        first_unavailable(locks, i + 1)
    }
}

/// Why the authored locks `locks` cannot all be taken: the first poisoned or
/// busy one; a busy workspace is reported without waiting for it.
pub open spec fn authored_failure(locks: Seq<LockState>) -> Option<Seq<char>> {
    match first_unavailable(locks, 0) {
        None => None,
        Some(i) => if locks[i] == LockState::Poisoned {
            Some(authored_lock_name(i) + " lock poisoned"@)
        } else {
            Some(
                "workspace is busy ("@ + authored_lock_name(i)
                    + "); retry after the current operation completes"@,
            )
        },
    }
}

fn authored_lock_name_text(i: usize) -> (s: &'static str)
    requires
        i < AUTHORED_LOCKS,
    ensures
        s@ == authored_lock_name(i as int),
{
    if i == 0 {
        "project"
    } else if i == 1 {
        "diagram"
    } else if i == 2 {
        "IBD"
    } else if i == 3 {
        "behavior"
    } else if i == 4 {
        "behavior diagram"
    } else if i == 5 {
        "Activity repository"
    } else {
        "Activity diagram"
    }
}

/// Take every authored lock without waiting, or report the first that cannot
/// be taken.
pub fn acquire_authored(locks: &[LockState]) -> (r: Result<(), String>)
    requires
        locks@.len() == AUTHORED_LOCKS,
    ensures
        match r {
            Ok(()) => authored_failure(locks@) is None,
            Err(m) => authored_failure(locks@) == Some(m@),
        },
{
    let mut i: usize = 0;
    while i < locks.len()
        invariant
            i <= locks@.len() == AUTHORED_LOCKS,
            first_unavailable(locks@, 0) == first_unavailable(locks@, i as int),
        decreases locks.len() - i,
    {
        if locks[i] != LockState::Available {
            let name = authored_lock_name_text(i);
            let mut v: Vec<char> = Vec::new();
            if locks[i] == LockState::Poisoned {
                push_text(&mut v, name);
                push_text(&mut v, " lock poisoned");
                assert(v@ =~= Seq::<char>::empty() + name@ + " lock poisoned"@);
            } else {
                push_text(&mut v, "workspace is busy (");
                push_text(&mut v, name);
                push_text(&mut v, "); retry after the current operation completes");
                assert(v@ =~= Seq::<char>::empty() + "workspace is busy ("@ + name@
                    + "); retry after the current operation completes"@);
            }
            return Err(string_from_chars(v.as_slice()));
        }
        i = i + 1;
    }
    Ok(())
}

/// Why the history stacks cannot be taken: the undo lock, then the redo lock.
pub open spec fn stacks_failure(undo_poisoned: bool, redo_poisoned: bool) -> Option<Seq<char>> {
    if undo_poisoned {
        Some("undo history lock poisoned"@)
    } else if redo_poisoned {
        Some("redo history lock poisoned"@)
    } else {
        None
    }
}

fn acquire_stacks(undo_poisoned: bool, redo_poisoned: bool) -> (r: Result<(), String>)
    ensures
        match r {
            Ok(()) => stacks_failure(undo_poisoned, redo_poisoned) is None,
            Err(m) => stacks_failure(undo_poisoned, redo_poisoned) == Some(m@),
        },
{
    if undo_poisoned {
        Err("undo history lock poisoned".to_owned())
    } else if redo_poisoned {
        Err("redo history lock poisoned".to_owned())
    } else {
        Ok(())
    }
}

impl<S> HistoryState<S> {
    /// Undo (`undoing`) or redo one step, first taking the authored locks
    /// (`authored`, without waiting) and then the two history stacks. When a
    /// lock cannot be taken nothing changes, neither the authored state nor
    /// either stack, and the reason comes back.
    pub fn transfer_locked(
        &mut self,
        current: &mut S,
        undoing: bool,
        authored: &[LockState],
        undo_poisoned: bool,
        redo_poisoned: bool,
    ) -> (r: Result<bool, String>)
        requires
            authored@.len() == AUTHORED_LOCKS,
        ensures
            final(self).undo_stack().len() <= HISTORY_LIMIT,
            final(self).redo_stack().len() <= HISTORY_LIMIT,
            match r {
                Err(m) => {
                    &&& Some(m@) == (if authored_failure(authored@) is Some {
                        authored_failure(authored@)
                    } else {
                        stacks_failure(undo_poisoned, redo_poisoned)
                    })
                    &&& final(self).model(*final(current)) == old(self).model(*old(current))
                },
                Ok(moved) => {
                    &&& authored_failure(authored@) is None
                    &&& stacks_failure(undo_poisoned, redo_poisoned) is None
                    &&& (final(self).model(*final(current)), moved) == model_transfer(
                        old(self).model(*old(current)),
                        undoing,
                    )
                },
            },
    {
        proof {
            use_type_invariant(&*self);
        }
        acquire_authored(authored)?;
        acquire_stacks(undo_poisoned, redo_poisoned)?;
        Ok(self.transfer_history(current, undoing))
    }

    /// Record the authored state `snapshot` as a checkpoint, first taking the
    /// authored locks and the two history stacks; when a lock cannot be taken
    /// neither stack changes.
    pub fn checkpoint_locked(
        &mut self,
        snapshot: S,
        authored: &[LockState],
        undo_poisoned: bool,
        redo_poisoned: bool,
    ) -> (r: Result<(), String>)
        requires
            authored@.len() == AUTHORED_LOCKS,
        ensures
            final(self).undo_stack().len() <= HISTORY_LIMIT,
            final(self).redo_stack().len() <= HISTORY_LIMIT,
            match r {
                Err(m) => {
                    &&& Some(m@) == (if authored_failure(authored@) is Some {
                        authored_failure(authored@)
                    } else {
                        stacks_failure(undo_poisoned, redo_poisoned)
                    })
                    &&& final(self).undo_stack() == old(self).undo_stack()
                    &&& final(self).redo_stack() == old(self).redo_stack()
                },
                Ok(()) => {
                    &&& authored_failure(authored@) is None
                    &&& stacks_failure(undo_poisoned, redo_poisoned) is None
                    &&& final(self).undo_stack() == capped(old(self).undo_stack().push(snapshot))
                    &&& final(self).redo_stack() == Seq::<S>::empty()
                },
            },
    {
        proof {
            use_type_invariant(&*self);
        }
        acquire_authored(authored)?;
        acquire_stacks(undo_poisoned, redo_poisoned)?;
        self.commit_snapshot(snapshot);
        Ok(())
    }

    /// Forget both stacks, first taking them; when one cannot be taken
    /// neither changes.
    pub fn reset_locked(&mut self, undo_poisoned: bool, redo_poisoned: bool) -> (r: Result<(), String>)
        ensures
            final(self).undo_stack().len() <= HISTORY_LIMIT,
            final(self).redo_stack().len() <= HISTORY_LIMIT,
            match r {
                Err(m) => {
                    &&& stacks_failure(undo_poisoned, redo_poisoned) == Some(m@)
                    &&& final(self).undo_stack() == old(self).undo_stack()
                    &&& final(self).redo_stack() == old(self).redo_stack()
                },
                Ok(()) => {
                    &&& stacks_failure(undo_poisoned, redo_poisoned) is None
                    &&& final(self).undo_stack() == Seq::<S>::empty()
                    &&& final(self).redo_stack() == Seq::<S>::empty()
                },
            },
    {
        proof {
            use_type_invariant(&*self);
        }
        acquire_stacks(undo_poisoned, redo_poisoned)?;
        self.reset_states();
        Ok(())
    }
}

} // verus!
