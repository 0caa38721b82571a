//! The authored workspace state behind its locks: copying it into a candidate
//! that a script run may change, and publishing a finished candidate, all of
//! it or nothing.

use vstd::prelude::*;

verus! {

/// A value behind a lock as one acquisition finds it: `poisoned` when a
/// holder of the lock failed while holding it.
#[derive(Debug)]
pub struct Locked<T> {
    pub value: T,
    pub poisoned: bool,
}

/// The authored workspace: project, diagram stores, behavior store, the file
/// the project was opened from and the ReqIF exchange record, each behind
/// its own lock.
#[derive(Debug)]
pub struct WorkspaceState<P, D, I, B, BD, F, R> {
    pub project: Locked<P>,
    pub diagrams: Locked<D>,
    pub ibd_diagrams: Locked<I>,
    pub behavior: Locked<B>,
    pub behavior_diagrams: Locked<BD>,
    pub current_file: Locked<F>,
    pub reqif_exchange: Locked<R>,
}

/// The authored activity store and its diagrams, each behind its own lock.
#[derive(Debug)]
pub struct ActivityWorkspaceState<AR, AD> {
    pub repository: Locked<AR>,
    pub diagrams: Locked<AD>,
}

/// The message of the first poisoned lock a copy meets, in the order it
/// takes them.
pub open spec fn copy_failure<P, D, I, B, BD, F, R, AR, AD>(
    w: WorkspaceState<P, D, I, B, BD, F, R>,
    a: ActivityWorkspaceState<AR, AD>,
) -> Option<Seq<char>> {
    if w.project.poisoned {
        Some("project lock poisoned"@)
    } else if w.diagrams.poisoned {
        Some("diagram lock poisoned"@)
    } else if w.ibd_diagrams.poisoned {
        Some("IBD lock poisoned"@)
    } else if w.behavior.poisoned {
        Some("behavior lock poisoned"@)
    } else if w.behavior_diagrams.poisoned {
        Some("behavior diagram lock poisoned"@)
    } else if w.current_file.poisoned {
        Some("project path lock poisoned"@)
    } else if w.reqif_exchange.poisoned {
        Some("ReqIF exchange lock poisoned"@)
    } else if a.repository.poisoned {
        Some("Activity repository lock poisoned"@)
    } else if a.diagrams.poisoned {
        Some("Activity diagram lock poisoned"@)
    } else {
        None
    }
}

/// `c` is a fresh lock holding a copy of what `l` holds.
pub open spec fn copied<T: Clone>(l: Locked<T>, c: Locked<T>) -> bool {
    cloned(l.value, c.value) && !c.poisoned
}

/// A fresh lock holding a copy of `l`'s value.
fn copy_locked<T: Clone>(l: &Locked<T>) -> (c: Locked<T>)
    ensures
        copied(*l, c),
{
    Locked { value: l.value.clone(), poisoned: false }
}

/// Copy the whole authored state into fresh locks, or fail with the message
/// of the first poisoned lock.
pub fn clone_states<
    P: Clone,
    D: Clone,
    I: Clone,
    B: Clone,
    BD: Clone,
    F: Clone,
    R: Clone,
    AR: Clone,
    AD: Clone,
>(workspace: &WorkspaceState<P, D, I, B, BD, F, R>, activity: &ActivityWorkspaceState<AR, AD>) -> (r:
    Result<(WorkspaceState<P, D, I, B, BD, F, R>, ActivityWorkspaceState<AR, AD>), String>)
    ensures
        match r {
            Err(m) => copy_failure(*workspace, *activity) == Some(m@),
            Ok((w, a)) => {
                &&& copy_failure(*workspace, *activity) is None
                &&& copied(workspace.project, w.project)
                &&& copied(workspace.diagrams, w.diagrams)
                &&& copied(workspace.ibd_diagrams, w.ibd_diagrams)
                &&& copied(workspace.behavior, w.behavior)
                &&& copied(workspace.behavior_diagrams, w.behavior_diagrams)
                &&& copied(workspace.current_file, w.current_file)
                &&& copied(workspace.reqif_exchange, w.reqif_exchange)
                &&& copied(activity.repository, a.repository)
                &&& copied(activity.diagrams, a.diagrams)
            },
        },
{
    if workspace.project.poisoned {
        return Err("project lock poisoned".to_owned());
    }
    if workspace.diagrams.poisoned {
        return Err("diagram lock poisoned".to_owned());
    }
    if workspace.ibd_diagrams.poisoned {
        return Err("IBD lock poisoned".to_owned());
    }
    if workspace.behavior.poisoned {
        return Err("behavior lock poisoned".to_owned());
    }
    if workspace.behavior_diagrams.poisoned {
        return Err("behavior diagram lock poisoned".to_owned());
    }
    if workspace.current_file.poisoned {
        return Err("project path lock poisoned".to_owned());
    }
    if workspace.reqif_exchange.poisoned {
        return Err("ReqIF exchange lock poisoned".to_owned());
    }
    if activity.repository.poisoned {
        return Err("Activity repository lock poisoned".to_owned());
    }
    if activity.diagrams.poisoned {
        return Err("Activity diagram lock poisoned".to_owned());
    }
    Ok(
        (
            WorkspaceState {
                project: copy_locked(&workspace.project),
                diagrams: copy_locked(&workspace.diagrams),
                ibd_diagrams: copy_locked(&workspace.ibd_diagrams),
                behavior: copy_locked(&workspace.behavior),
                behavior_diagrams: copy_locked(&workspace.behavior_diagrams),
                current_file: copy_locked(&workspace.current_file),
                reqif_exchange: copy_locked(&workspace.reqif_exchange),
            },
            ActivityWorkspaceState {
                repository: copy_locked(&activity.repository),
                diagrams: copy_locked(&activity.diagrams),
            },
        ),
    )
}

/// The message of the first poisoned lock a commit meets: first the
/// candidate's locks, then the live ones, each in the order the commit takes them.
pub open spec fn commit_failure<P, D, I, B, BD, F, R, AR, AD>(
    live: WorkspaceState<P, D, I, B, BD, F, R>,
    live_activity: ActivityWorkspaceState<AR, AD>,
    candidate: WorkspaceState<P, D, I, B, BD, F, R>,
    candidate_activity: ActivityWorkspaceState<AR, AD>,
) -> Option<Seq<char>> {
    if candidate.project.poisoned {
        Some("candidate project lock poisoned"@)
    } else if candidate.diagrams.poisoned {
        Some("candidate diagram lock poisoned"@)
    } else if candidate.ibd_diagrams.poisoned {
        Some("candidate IBD lock poisoned"@)
    } else if candidate.behavior.poisoned {
        Some("candidate behavior lock poisoned"@)
    } else if candidate.behavior_diagrams.poisoned {
        Some("candidate behavior diagram lock poisoned"@)
    } else if candidate_activity.repository.poisoned {
        Some("candidate Activity repository lock poisoned"@)
    } else if candidate_activity.diagrams.poisoned {
        Some("candidate Activity diagram lock poisoned"@)
    } else if live.project.poisoned {
        Some("project lock poisoned"@)
    } else if live.diagrams.poisoned {
        Some("diagram lock poisoned"@)
    } else if live.ibd_diagrams.poisoned {
        Some("IBD lock poisoned"@)
    } else if live.behavior.poisoned {
        Some("behavior lock poisoned"@)
    } else if live.behavior_diagrams.poisoned {
        Some("behavior diagram lock poisoned"@)
    } else if live_activity.repository.poisoned {
        Some("Activity repository lock poisoned"@)
    } else if live_activity.diagrams.poisoned {
        Some("Activity diagram lock poisoned"@)
    } else {
        None
    }
}

/// `l` now holds a copy of what `c` holds and is still not poisoned.
pub open spec fn replaced<T: Clone>(c: Locked<T>, l: Locked<T>) -> bool {
    cloned(c.value, l.value) && !l.poisoned
}

/// Publish a finished candidate: the live project, diagram stores, behavior
/// store and activity store take copies of the candidate's, all together;
/// the project file and the ReqIF exchange record stay. With a poisoned lock
/// nothing changes and the message of the first one met comes back.
pub fn commit_candidate<
    P: Clone,
    D: Clone,
    I: Clone,
    B: Clone,
    BD: Clone,
    F,
    R,
    AR: Clone,
    AD: Clone,
>(
    workspace: &mut WorkspaceState<P, D, I, B, BD, F, R>,
    activity: &mut ActivityWorkspaceState<AR, AD>,
    candidate_workspace: &WorkspaceState<P, D, I, B, BD, F, R>,
    candidate_activity: &ActivityWorkspaceState<AR, AD>,
) -> (r: Result<(), String>)
    ensures
        match r {
            Err(m) => {
                &&& commit_failure(*old(workspace), *old(activity), *candidate_workspace, *candidate_activity)
                    == Some(m@)
                &&& *final(workspace) == *old(workspace)
                &&& *final(activity) == *old(activity)
            },
            Ok(()) => {
                &&& commit_failure(*old(workspace), *old(activity), *candidate_workspace, *candidate_activity)
                    is None
                &&& replaced(candidate_workspace.project, final(workspace).project)
                &&& replaced(candidate_workspace.diagrams, final(workspace).diagrams)
                &&& replaced(candidate_workspace.ibd_diagrams, final(workspace).ibd_diagrams)
                &&& replaced(candidate_workspace.behavior, final(workspace).behavior)
                &&& replaced(candidate_workspace.behavior_diagrams, final(workspace).behavior_diagrams)
                &&& final(workspace).current_file == old(workspace).current_file
                &&& final(workspace).reqif_exchange == old(workspace).reqif_exchange
                &&& replaced(candidate_activity.repository, final(activity).repository)
                &&& replaced(candidate_activity.diagrams, final(activity).diagrams)
            },
        },
{
    if candidate_workspace.project.poisoned {
        return Err("candidate project lock poisoned".to_owned());
    }
    if candidate_workspace.diagrams.poisoned {
        return Err("candidate diagram lock poisoned".to_owned());
    }
    if candidate_workspace.ibd_diagrams.poisoned {
        return Err("candidate IBD lock poisoned".to_owned());
    }
    if candidate_workspace.behavior.poisoned {
        return Err("candidate behavior lock poisoned".to_owned());
    }
    if candidate_workspace.behavior_diagrams.poisoned {
        return Err("candidate behavior diagram lock poisoned".to_owned());
    }
    if candidate_activity.repository.poisoned {
        return Err("candidate Activity repository lock poisoned".to_owned());
    }
    if candidate_activity.diagrams.poisoned {
        return Err("candidate Activity diagram lock poisoned".to_owned());
    }
    let next_project = candidate_workspace.project.value.clone();
    let next_diagrams = candidate_workspace.diagrams.value.clone();
    let next_ibd = candidate_workspace.ibd_diagrams.value.clone();
    let next_behavior = candidate_workspace.behavior.value.clone();
    let next_behavior_diagrams = candidate_workspace.behavior_diagrams.value.clone();
    let next_activities = candidate_activity.repository.value.clone();
    let next_activity_diagrams = candidate_activity.diagrams.value.clone();
    if workspace.project.poisoned {
        return Err("project lock poisoned".to_owned());
    }
    if workspace.diagrams.poisoned {
        return Err("diagram lock poisoned".to_owned());
    }
    if workspace.ibd_diagrams.poisoned {
        return Err("IBD lock poisoned".to_owned());
    }
    if workspace.behavior.poisoned {
        return Err("behavior lock poisoned".to_owned());
    }
    if workspace.behavior_diagrams.poisoned {
        return Err("behavior diagram lock poisoned".to_owned());
    }
    if activity.repository.poisoned {
        return Err("Activity repository lock poisoned".to_owned());
    }
    if activity.diagrams.poisoned {
        return Err("Activity diagram lock poisoned".to_owned());
    }
    workspace.project.value = next_project;
    workspace.diagrams.value = next_diagrams;
    workspace.ibd_diagrams.value = next_ibd;
    workspace.behavior.value = next_behavior;
    workspace.behavior_diagrams.value = next_behavior_diagrams;
    activity.repository.value = next_activities;
    activity.diagrams.value = next_activity_diagrams;
    Ok(())
}

} // verus!
