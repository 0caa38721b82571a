use workspace_model::history::{acquire_authored, HistoryState, LockState, HISTORY_LIMIT};

#[test]
fn new_history_is_empty() {
    let h: HistoryState<u32> = HistoryState::new();
    assert_eq!(h.undo_len(), 0);
    assert_eq!(h.redo_len(), 0);
}

#[test]
fn undo_and_redo_move_the_authored_state() {
    let mut h: HistoryState<String> = HistoryState::new();
    let mut current = "Before".to_string();
    h.apply_transaction(&mut current, "After".to_string());
    assert_eq!(current, "After");
    assert_eq!((h.undo_len(), h.redo_len()), (1, 0));
    assert!(h.undo_states(&mut current));
    assert_eq!(current, "Before");
    assert_eq!((h.undo_len(), h.redo_len()), (0, 1));
    assert!(h.redo_states(&mut current));
    assert_eq!(current, "After");
    assert_eq!((h.undo_len(), h.redo_len()), (1, 0));
}

#[test]
fn failed_undo_and_redo_change_nothing() {
    let mut h: HistoryState<u32> = HistoryState::new();
    let mut current = 7;
    assert!(!h.undo_states(&mut current));
    assert!(!h.redo_states(&mut current));
    assert_eq!(current, 7);
    h.apply_transaction(&mut current, 8);
    assert!(!h.redo_states(&mut current));
    assert_eq!(current, 8);
    assert_eq!((h.undo_len(), h.redo_len()), (1, 0));
}

#[test]
fn new_edit_discards_redo_entries() {
    let mut h: HistoryState<u32> = HistoryState::new();
    let mut current = 1;
    h.apply_transaction(&mut current, 2);
    h.apply_transaction(&mut current, 3);
    assert!(h.undo_states(&mut current));
    assert_eq!(h.redo_len(), 1);
    h.apply_transaction(&mut current, 4);
    assert_eq!(h.redo_len(), 0);
    assert!(h.undo_states(&mut current));
    assert_eq!(current, 2);
    assert!(h.undo_states(&mut current));
    assert_eq!(current, 1);
    assert!(!h.undo_states(&mut current));
}

#[test]
fn stacks_keep_only_the_newest_hundred_entries() {
    let mut h: HistoryState<u32> = HistoryState::new();
    let mut current = 0;
    for i in 1..=150 {
        h.apply_transaction(&mut current, i);
    }
    assert_eq!(h.undo_len(), HISTORY_LIMIT);
    for _ in 0..HISTORY_LIMIT {
        assert!(h.undo_states(&mut current));
    }
    assert_eq!(current, 50);
    assert!(!h.undo_states(&mut current));
    assert_eq!(h.redo_len(), HISTORY_LIMIT);
    for _ in 0..HISTORY_LIMIT {
        assert!(h.redo_states(&mut current));
    }
    assert_eq!(current, 150);
}

#[test]
fn unchanged_specification_is_a_no_op() {
    let mut h: HistoryState<&str> = HistoryState::new();
    let mut current = "renamed";
    assert!(!h.apply_structural_specification(&mut current, "renamed", false));
    assert_eq!((current, h.undo_len(), h.redo_len()), ("renamed", 0, 0));
    assert!(h.apply_structural_specification(&mut current, "notes", true));
    assert_eq!((current, h.undo_len()), ("notes", 1));
    assert!(h.undo_states(&mut current));
    assert_eq!(current, "renamed");
}

#[test]
fn checkpoint_then_reset() {
    let mut h: HistoryState<u32> = HistoryState::new();
    let mut current = 5;
    h.checkpoint_states(current);
    current = 6;
    assert!(h.undo_states(&mut current));
    assert_eq!(current, 5);
    h.commit_snapshot(9);
    assert_eq!((h.undo_len(), h.redo_len()), (1, 0));
    h.reset_states();
    assert_eq!((h.undo_len(), h.redo_len()), (0, 0));
}

fn free() -> Vec<LockState> {
    vec![LockState::Available; 7]
}

#[test]
fn busy_workspace_rejects_history_operations_without_waiting_or_consuming_state() {
    let mut h: HistoryState<u32> = HistoryState::new();
    let mut current = 1;
    h.apply_transaction(&mut current, 2);
    let mut busy = free();
    busy[2] = LockState::Busy;
    for undoing in [true, false] {
        let error = h.transfer_locked(&mut current, undoing, &busy, false, false).unwrap_err();
        assert_eq!(error, "workspace is busy (IBD); retry after the current operation completes");
        assert_eq!((current, h.undo_len(), h.redo_len()), (2, 1, 0));
    }
    assert!(h.checkpoint_locked(current, &busy, false, false).unwrap_err().contains("workspace is busy"));
    assert_eq!(h.undo_len(), 1);
    assert_eq!(h.transfer_locked(&mut current, true, &free(), false, false), Ok(true));
    assert_eq!(current, 1);
}

#[test]
fn poisoned_locks_are_named_in_order() {
    let mut locks = free();
    assert_eq!(acquire_authored(&locks), Ok(()));
    locks[6] = LockState::Poisoned;
    assert_eq!(acquire_authored(&locks), Err("Activity diagram lock poisoned".to_string()));
    locks[0] = LockState::Busy;
    assert_eq!(
        acquire_authored(&locks),
        Err("workspace is busy (project); retry after the current operation completes".to_string())
    );
    let mut h: HistoryState<u32> = HistoryState::new();
    let mut current = 3;
    h.apply_transaction(&mut current, 4);
    assert_eq!(
        h.transfer_locked(&mut current, true, &free(), true, false),
        Err("undo history lock poisoned".to_string())
    );
    assert_eq!(h.reset_locked(false, true), Err("redo history lock poisoned".to_string()));
    assert_eq!((current, h.undo_len()), (4, 1));
    assert_eq!(h.reset_locked(false, false), Ok(()));
    assert_eq!(h.undo_len(), 0);
}

/// History holding "Before" as its one undo entry, with "After" authored.
fn before_after() -> (HistoryState<String>, String) {
    let mut h: HistoryState<String> = HistoryState::new();
    let mut current = "Before".to_string();
    h.checkpoint_states(current.clone());
    current = "After".to_string();
    (h, current)
}

#[test]
fn failed_undo_and_redo_preserve_authored_state_and_both_stacks() {
    for undoing in [true, false] {
        for failed_lock in ["late_workspace", "undo", "redo"] {
            let (mut h, mut current) = before_after();
            if !undoing {
                assert!(h.undo_states(&mut current));
            }
            let before = current.clone();
            let lengths = (h.undo_len(), h.redo_len());
            let mut locks = free();
            let (mut undo_poisoned, mut redo_poisoned) = (false, false);
            match failed_lock {
                "late_workspace" => locks[6] = LockState::Poisoned,
                "undo" => undo_poisoned = true,
                _ => redo_poisoned = true,
            }
            assert!(h
                .transfer_locked(&mut current, undoing, &locks, undo_poisoned, redo_poisoned)
                .is_err());
            assert_eq!(current, before);
            assert_eq!((h.undo_len(), h.redo_len()), lengths);
        }
    }
}

#[test]
fn failed_checkpoint_and_reset_do_not_change_either_stack() {
    let (mut h, mut current) = before_after();
    h.apply_transaction(&mut current, "Later".to_string());
    assert!(h.undo_states(&mut current));
    let lengths = (h.undo_len(), h.redo_len());
    assert_eq!(lengths, (1, 1));
    let before = current.clone();
    assert!(h.checkpoint_locked(current.clone(), &free(), false, true).is_err());
    assert_eq!((h.undo_len(), h.redo_len()), lengths);
    assert!(h.reset_locked(false, true).is_err());
    assert_eq!((h.undo_len(), h.redo_len()), lengths);
    assert_eq!(current, before);
}

#[test]
fn successful_undo_redo_moves_state_and_preserves_identity() {
    let (mut h, mut current) = before_after();
    let after = current.clone();
    let allocation = current.as_ptr();
    assert!(h.undo_states(&mut current));
    assert_eq!(current, "Before");
    assert_eq!((h.undo_len(), h.redo_len()), (0, 1));
    assert!(h.redo_states(&mut current));
    assert_eq!(current, after);
    assert_eq!(current.as_ptr(), allocation);
    assert_eq!((h.undo_len(), h.redo_len()), (1, 0));
    assert!(!h.redo_states(&mut current));
    h.reset_states();
    assert!(!h.undo_states(&mut current));
}
