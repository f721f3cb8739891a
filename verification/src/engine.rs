//! The executable lifecycle engine.
//!
//! Every function here is proved to return exactly what the interpreter in
//! [`crate::semantics`] says, so the laws proved there about execution and
//! reversion hold of this code.

use vstd::prelude::*;
use crate::action::{
    Action, ActionState, PlannedView, StatefulAction, size_action, size_children, size_planned,
    view_action, view_children, view_planned,
};
use crate::error::{ActionError, ErrorView, LeafError, err_view};
use crate::semantics::{
    SLASH, last_slash, parent_path, v_exec_children, v_execute_action, v_execute_plan,
    v_rev_children, v_revert_action, v_try_execute, v_try_revert,
};
use crate::system::{FileSystem, FsEntry};

verus! {

/// The outcome of an executable step, as a value.
pub open spec fn res_view(r: Result<(), ActionError>) -> Result<(), ErrorView> {
    match r {
        Ok(_) => Ok(()),
        Err(e) => Err(err_view(e)),
    }
}

/// A fresh copy of a byte string.
fn clone_bytes(v: &Vec<u8>) -> (r: Vec<u8>)
    ensures
        r@ == v@,
{
    let r = vstd::slice::slice_to_vec(v.as_slice());
    proof {
        assert(r@ =~= v@);
    }
    r
}

/// The parent of a path, when it has one.
fn parent_of(path: &Vec<u8>) -> (r: Option<Vec<u8>>)
    ensures
        ({
            let pp = parent_path(path@);
            match r {
                Some(v) => pp == Some(v@),
                None => pp is None,
            }
        }),
{
    let n = path.len();
    let mut i = n;
    while i > 0
        invariant
            i <= n,
            n == path@.len(),
            last_slash(path@, n as int) == last_slash(path@, i as int),
        decreases i,
    {
        if path[i - 1] == SLASH {
            proof {
                assert(last_slash(path@, i as int) == Some(i - 1));
            }
            if i - 1 > 0 {
                let par = vstd::slice::slice_to_vec(&path.as_slice()[0..(i - 1)]);
                proof {
                    assert(par@ =~= path@.subrange(0, i - 1));
                }
                return Some(par);
            } else {
                return None;
            }
        }
        i -= 1;
    }
    None
}

/// Unfolding of [`view_children`] over a cons.
proof fn lemma_view_children_cons(c: StatefulAction, t: Seq<StatefulAction>)
    ensures
        view_children(seq![c] + t) == seq![view_planned(c)] + view_children(t),
{
    let s = seq![c] + t;
    assert(s.len() == 1 + t.len());
    assert(s[0] == c);
    assert(s.subrange(1, s.len() as int) =~= t);
    assert(view_children(s) =~= seq![view_planned(c)] + view_children(t));
}

/// Executes an action, returning the updated action and the outcome.
fn execute_action(a: Action, fs: &mut FileSystem) -> (res: (Action, Result<(), ActionError>))
    requires
        old(fs).wf(),
    ensures
        final(fs).wf(),
        ({
            let (a2, fs2, r) = v_execute_action(view_action(a), old(fs)@);
            view_action(res.0) == a2 && final(fs)@ == fs2 && res_view(res.1) == r
        }),
    decreases size_action(view_action(a)),
{
    match a {
        Action::CreateDirectory { path, mode } => {
            if fs.contains(&path) {
                let shown = clone_bytes(&path);
                (
                    Action::CreateDirectory { path, mode },
                    Err(ActionError::Leaf { error: LeafError::PathAlreadyExists { path: shown } }),
                )
            } else {
                let target = clone_bytes(&path);
                fs.insert(target, FsEntry::Dir { mode });
                (Action::CreateDirectory { path, mode }, Ok(()))
            }
        },
        Action::CreateFile { path, mode, content } => {
            if fs.contains(&path) {
                let shown = clone_bytes(&path);
                (
                    Action::CreateFile { path, mode, content },
                    Err(ActionError::Leaf { error: LeafError::PathAlreadyExists { path: shown } }),
                )
            } else {
                match parent_of(&path) {
                    Some(parent) => {
                        let parent_is_dir = match fs.get(&parent) {
                            Some(FsEntry::Dir { .. }) => true,
                            _ => false,
                        };
                        if parent_is_dir {
                            let target = clone_bytes(&path);
                            let data = clone_bytes(&content);
                            fs.insert(target, FsEntry::File { mode, content: data });
                            (Action::CreateFile { path, mode, content }, Ok(()))
                        } else {
                            let shown = clone_bytes(&path);
                            (
                                Action::CreateFile { path, mode, content },
                                Err(ActionError::Leaf {
                                    error: LeafError::ParentDirectoryMissing {
                                        path: shown,
                                        parent,
                                    },
                                }),
                            )
                        }
                    },
                    None => {
                        let target = clone_bytes(&path);
                        let data = clone_bytes(&content);
                        fs.insert(target, FsEntry::File { mode, content: data });
                        (Action::CreateFile { path, mode, content }, Ok(()))
                    },
                }
            }
        },
        Action::Composite { tag, children } => {
            let (cs2, r) = execute_children(children, fs);
            (Action::Composite { tag, children: cs2 }, r)
        },
    }
}

/// Executes children in declared order, stopping at the first failure.
fn execute_children(cs: Vec<StatefulAction>, fs: &mut FileSystem) -> (res: (
    Vec<StatefulAction>,
    Result<(), ActionError>,
))
    requires
        old(fs).wf(),
    ensures
        final(fs).wf(),
        ({
            let (cs2, fs2, r) = v_exec_children(view_children(cs@), old(fs)@);
            view_children(res.0@) == cs2 && final(fs)@ == fs2 && res_view(res.1) == r
        }),
    decreases size_children(view_children(cs@)),
{
    let ghost full = view_children(cs@);
    let mut work = cs;
    if work.len() == 0 {
        (work, Ok(()))
    } else {
        let child = work.remove(0);
        proof {
            assert(work@ =~= cs@.subrange(1, cs@.len() as int));
            assert(full[0] == view_planned(child));
            assert(full.subrange(1, full.len() as int) =~= view_children(work@));
        }
        let tg = child.action_tag();
        let (child2, r) = try_execute_owned(child, fs);
        match r {
            Ok(_) => {
                let (mut rest2, r2) = execute_children(work, fs);
                proof {
                    lemma_view_children_cons(child2, rest2@);
                }
                let ghost rest2_pre = rest2@;
                rest2.insert(0, child2);
                proof {
                    assert(rest2@ =~= seq![child2] + rest2_pre);
                }
                (rest2, r2)
            },
            Err(e) => {
                proof {
                    lemma_view_children_cons(child2, work@);
                }
                let ghost work_pre = work@;
                work.insert(0, child2);
                proof {
                    assert(work@ =~= seq![child2] + work_pre);
                }
                (work, Err(ActionError::child(tg, e)))
            },
        }
    }
}

/// Executes a planned action unless it is already complete.
fn try_execute_owned(p: StatefulAction, fs: &mut FileSystem) -> (res: (
    StatefulAction,
    Result<(), ActionError>,
))
    requires
        old(fs).wf(),
    ensures
        final(fs).wf(),
        ({
            let (p2, fs2, r) = v_try_execute(view_planned(p), old(fs)@);
            view_planned(res.0) == p2 && final(fs)@ == fs2 && res_view(res.1) == r
        }),
    decreases size_planned(view_planned(p)),
{
    let StatefulAction { action, state } = p;
    if state == ActionState::Completed {
        (StatefulAction { action, state }, Ok(()))
    } else {
        let (a2, r) = execute_action(action, fs);
        match r {
            Ok(_) => (StatefulAction { action: a2, state: ActionState::Completed }, Ok(())),
            Err(e) => (StatefulAction { action: a2, state }, Err(e)),
        }
    }
}

/// Reverts an action: the inverse of execution.
fn revert_action(a: Action, fs: &mut FileSystem) -> (res: (Action, Result<(), ActionError>))
    requires
        old(fs).wf(),
    ensures
        final(fs).wf(),
        ({
            let (a2, fs2, r) = v_revert_action(view_action(a), old(fs)@);
            view_action(res.0) == a2 && final(fs)@ == fs2 && res_view(res.1) == r
        }),
    decreases size_action(view_action(a)),
{
    match a {
        Action::CreateDirectory { path, mode } => {
            fs.remove(&path);
            (Action::CreateDirectory { path, mode }, Ok(()))
        },
        Action::CreateFile { path, mode, content } => {
            fs.remove(&path);
            (Action::CreateFile { path, mode, content }, Ok(()))
        },
        Action::Composite { tag, children } => {
            let (cs2, r) = revert_children(children, fs);
            (Action::Composite { tag, children: cs2 }, r)
        },
    }
}

/// Reverts children in reverse declared order, stopping at the first
/// failure.
fn revert_children(cs: Vec<StatefulAction>, fs: &mut FileSystem) -> (res: (
    Vec<StatefulAction>,
    Result<(), ActionError>,
))
    requires
        old(fs).wf(),
    ensures
        final(fs).wf(),
        ({
            let (cs2, fs2, r) = v_rev_children(view_children(cs@), old(fs)@);
            view_children(res.0@) == cs2 && final(fs)@ == fs2 && res_view(res.1) == r
        }),
    decreases size_children(view_children(cs@)),
{
    let ghost full = view_children(cs@);
    let mut work = cs;
    if work.len() == 0 {
        (work, Ok(()))
    } else {
        let head = work.remove(0);
        proof {
            assert(work@ =~= cs@.subrange(1, cs@.len() as int));
            assert(full[0] == view_planned(head));
            assert(full.subrange(1, full.len() as int) =~= view_children(work@));
        }
        let tg = head.action_tag();
        let (mut t2, r) = revert_children(work, fs);
        match r {
            Err(e) => {
                proof {
                    lemma_view_children_cons(head, t2@);
                }
                let ghost t2_pre = t2@;
                t2.insert(0, head);
                proof {
                    assert(t2@ =~= seq![head] + t2_pre);
                }
                (t2, Err(e))
            },
            Ok(_) => {
                let (h2, rh) = try_revert_owned(head, fs);
                proof {
                    lemma_view_children_cons(h2, t2@);
                }
                let ghost t2_pre = t2@;
                t2.insert(0, h2);
                proof {
                    assert(t2@ =~= seq![h2] + t2_pre);
                }
                match rh {
                    Ok(_) => (t2, Ok(())),
                    Err(e) => (t2, Err(ActionError::child(tg, e))),
                }
            },
        }
    }
}

/// Reverts a planned action according to its marker; a composite is
/// always walked, so the completed part of a partial execution is cleaned
/// up.
fn try_revert_owned(p: StatefulAction, fs: &mut FileSystem) -> (res: (
    StatefulAction,
    Result<(), ActionError>,
))
    requires
        old(fs).wf(),
    ensures
        final(fs).wf(),
        ({
            let (p2, fs2, r) = v_try_revert(view_planned(p), old(fs)@);
            view_planned(res.0) == p2 && final(fs)@ == fs2 && res_view(res.1) == r
        }),
    decreases size_planned(view_planned(p)),
{
    let StatefulAction { action, state } = p;
    if state == ActionState::Reverted {
        (StatefulAction { action, state }, Ok(()))
    } else {
        let composite = match &action {
            Action::Composite { .. } => true,
            _ => false,
        };
        if state == ActionState::Completed || composite {
            let (a2, r) = revert_action(action, fs);
            match r {
                Ok(_) => (StatefulAction { action: a2, state: ActionState::Reverted }, Ok(())),
                Err(e) => (StatefulAction { action: a2, state }, Err(e)),
            }
        } else {
            (StatefulAction { action, state }, Ok(()))
        }
    }
}

impl StatefulAction {
    /// Executes the action unless it is already complete.
    ///
    /// Once the marker is `Completed` this is free of effect, so a plan
    /// interrupted between two steps can be resumed by running it again.
    /// Only success moves the marker; after a failure the already-applied
    /// children keep their markers and stay revertible.
    pub fn try_execute(&mut self, fs: &mut FileSystem) -> (r: Result<(), ActionError>)
        requires
            old(fs).wf(),
        ensures
            final(fs).wf(),
            ({
                let (p2, fs2, rr) = v_try_execute(old(self)@, old(fs)@);
                final(self)@ == p2 && final(fs)@ == fs2 && res_view(r) == rr
            }),
    {
        let mut taken = StatefulAction {
            action: Action::CreateDirectory { path: Vec::new(), mode: 0 },
            state: ActionState::NotStarted,
        };
        core::mem::swap(&mut taken, self);
        let (p2, r) = try_execute_owned(taken, fs);
        *self = p2;
        r
    }

    /// Undoes whatever part of the action is marked as applied.
    ///
    /// Once the marker is `Reverted` this is free of effect.  A leaf that
    /// never ran is left alone; a composite is always walked, so children
    /// applied before a failure are still undone.
    pub fn try_revert(&mut self, fs: &mut FileSystem) -> (r: Result<(), ActionError>)
        requires
            old(fs).wf(),
        ensures
            final(fs).wf(),
            ({
                let (p2, fs2, rr) = v_try_revert(old(self)@, old(fs)@);
                final(self)@ == p2 && final(fs)@ == fs2 && res_view(r) == rr
            }),
    {
        let mut taken = StatefulAction {
            action: Action::CreateDirectory { path: Vec::new(), mode: 0 },
            state: ActionState::NotStarted,
        };
        core::mem::swap(&mut taken, self);
        let (p2, r) = try_revert_owned(taken, fs);
        *self = p2;
        r
    }
}

/// How a plan run failed: the execute failure, wrapped with the root's
/// tag, and the rollback failure beside it when the rollback failed too.
#[derive(Debug, PartialEq)]
pub struct ExecutionFailure {
    pub error: ActionError,
    pub revert_error: Option<ActionError>,
}

impl View for ExecutionFailure {
    type V = (ErrorView, Option<ErrorView>);

    open spec fn view(&self) -> (ErrorView, Option<ErrorView>) {
        (
            self.error@,
            match self.revert_error {
                Some(e) => Some(err_view(e)),
                None => None,
            },
        )
    }
}

/// Runs a whole plan: executes the root, and on failure attributes the
/// error to the root and attempts a full rollback, surfacing a rollback
/// failure beside the original error.
pub fn execute_plan(plan: &mut StatefulAction, fs: &mut FileSystem) -> (r: Result<
    (),
    ExecutionFailure,
>)
    requires
        old(fs).wf(),
    ensures
        final(fs).wf(),
        ({
            let (p2, fs2, rr) = v_execute_plan(old(plan)@, old(fs)@);
            final(plan)@ == p2 && final(fs)@ == fs2 && match (r, rr) {
                (Ok(_), Ok(_)) => true,
                (Err(f), Err(ev)) => f@ == ev,
                _ => false,
            }
        }),
{
    let tg = plan.action_tag();
    match plan.try_execute(fs) {
        Ok(_) => Ok(()),
        Err(e) => {
            let tagged = ActionError::child(tg, e);
            match plan.try_revert(fs) {
                Ok(_) => Err(ExecutionFailure { error: tagged, revert_error: None }),
                Err(re) => Err(
                    ExecutionFailure {
                        error: tagged,
                        revert_error: Some(ActionError::child(tg, re)),
                    },
                ),
            }
        },
    }
}

} // verus!
