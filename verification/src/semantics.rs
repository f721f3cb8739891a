//! The meaning of execution and reversion, as total functions on values.
//!
//! Each function here maps a planned action and a filesystem to the
//! updated action, the updated filesystem, and the outcome.  The engine's
//! executable functions are proved to return exactly these values, and the
//! laws in [`crate::laws`] are proved about these functions.

use vstd::prelude::*;
use crate::action::{ActionState, ActionView, PlannedView, tag_of};
use crate::error::{ErrorView, LeafErrorView, push_tag};
use crate::system::FsEntryView;

verus! {

broadcast use
    vstd::std_specs::vec::axiom_vec_decreases_to_view,
    vstd::seq::axiom_seq_index_decreases,
    vstd::seq::axiom_seq_subrange_decreases,
;

/// The filesystem as a value.
pub type FsView = Map<Seq<u8>, FsEntryView>;

/// The byte of `/`, the path separator.
pub const SLASH: u8 = 47;

/// Index of the last `/` among the first `i` bytes of `p`, if any.
pub open spec fn last_slash(p: Seq<u8>, i: int) -> Option<int>
    decreases i,
{
    if i <= 0 || i > p.len() {
        None
    } else if p[i - 1] == SLASH {
        Some(i - 1)
    } else {
        last_slash(p, i - 1)
    }
}

/// The parent of a path: everything before the last `/`, when nonempty.
pub open spec fn parent_path(p: Seq<u8>) -> Option<Seq<u8>> {
    match last_slash(p, p.len() as int) {
        Some(i) => if i > 0 {
            Some(p.subrange(0, i))
        } else {
            None
        },
        None => None,
    }
}

/// An unattributed failure.
pub open spec fn leaf_err(l: LeafErrorView) -> ErrorView {
    ErrorView { chain: Seq::empty(), leaf: l }
}

/// Whether an action is a composite.
pub open spec fn is_composite(a: ActionView) -> bool {
    a matches ActionView::Composite { .. }
}

/// Meaning of `try_execute`: nothing happens once the marker is
/// `Completed`; otherwise the action runs, and only success moves the
/// marker to `Completed`.
pub open spec fn v_try_execute(p: PlannedView, fs: FsView) -> (PlannedView, FsView, Result<
    (),
    ErrorView,
>)
    decreases p,
{
    if p.state == ActionState::Completed {
        (p, fs, Ok(()))
    } else {
        let (a2, fs2, r) = v_execute_action(p.action, fs);
        match r {
            Ok(_) => (PlannedView { action: a2, state: ActionState::Completed }, fs2, Ok(())),
            Err(e) => (PlannedView { action: a2, state: p.state }, fs2, Err(e)),
        }
    }
}

/// Meaning of executing an action against a filesystem.
///
/// Creating a directory asks the machine for the whole path, so it does
/// not require the parent to exist; creating a file does.  Both refuse a
/// path that is already occupied: overwriting would make reversion unable
/// to restore the previous state.
pub open spec fn v_execute_action(a: ActionView, fs: FsView) -> (ActionView, FsView, Result<
    (),
    ErrorView,
>)
    decreases a,
{
    match a {
        ActionView::CreateDirectory { path, mode } => {
            if fs.contains_key(path) {
                (a, fs, Err(leaf_err(LeafErrorView::PathAlreadyExists { path })))
            } else {
                (a, fs.insert(path, FsEntryView::Dir { mode }), Ok(()))
            }
        },
        ActionView::CreateFile { path, mode, content } => {
            if fs.contains_key(path) {
                (a, fs, Err(leaf_err(LeafErrorView::PathAlreadyExists { path })))
            } else {
                match parent_path(path) {
                    Some(parent) => {
                        if fs.contains_key(parent) && is_dir(fs[parent]) {
                            (a, fs.insert(path, FsEntryView::File { mode, content }), Ok(()))
                        } else {
                            (
                                a,
                                fs,
                                Err(leaf_err(LeafErrorView::ParentDirectoryMissing { path, parent })),
                            )
                        }
                    },
                    None => (a, fs.insert(path, FsEntryView::File { mode, content }), Ok(())),
                }
            }
        },
        ActionView::Composite { tag, children } => {
            let (cs2, fs2, r) = v_exec_children(children, fs);
            (ActionView::Composite { tag, children: cs2 }, fs2, r)
        },
    }
}

/// Whether an entry is a directory.
pub open spec fn is_dir(e: FsEntryView) -> bool {
    e matches FsEntryView::Dir { .. }
}

/// Meaning of executing children in declared order.
///
/// Each child starts from the filesystem its predecessor left; the first
/// failure stops the walk, is wrapped with the failing child's tag, and
/// leaves the remaining children untouched.
pub open spec fn v_exec_children(cs: Seq<PlannedView>, fs: FsView) -> (Seq<PlannedView>, FsView, Result<
    (),
    ErrorView,
>)
    decreases cs,
{
    if cs.len() == 0 {
        (cs, fs, Ok(()))
    } else {
        let (h2, fs2, r) = v_try_execute(cs[0], fs);
        let rest = cs.subrange(1, cs.len() as int);
        match r {
            Ok(_) => {
                let (t2, fs3, r3) = v_exec_children(rest, fs2);
                (seq![h2] + t2, fs3, r3)
            },
            Err(e) => (seq![h2] + rest, fs2, Err(push_tag(tag_of(cs[0]), e))),
        }
    }
}

/// Meaning of `try_revert`: nothing happens once the marker is
/// `Reverted`; a leaf runs its inverse only when it was `Completed`; a
/// composite always walks its children, whose own markers decide what is
/// undone, so that the completed part of a partially executed composite is
/// still cleaned up.
pub open spec fn v_try_revert(p: PlannedView, fs: FsView) -> (PlannedView, FsView, Result<
    (),
    ErrorView,
>)
    decreases p,
{
    if p.state == ActionState::Reverted {
        (p, fs, Ok(()))
    } else if p.state == ActionState::Completed || is_composite(p.action) {
        let (a2, fs2, r) = v_revert_action(p.action, fs);
        match r {
            Ok(_) => (PlannedView { action: a2, state: ActionState::Reverted }, fs2, Ok(())),
            Err(e) => (PlannedView { action: a2, state: p.state }, fs2, Err(e)),
        }
    } else {
        (p, fs, Ok(()))
    }
}

/// Meaning of reverting an action: the inverse of execution.
///
/// Removal is idempotent-safe: a target already absent is not an error.
pub open spec fn v_revert_action(a: ActionView, fs: FsView) -> (ActionView, FsView, Result<
    (),
    ErrorView,
>)
    decreases a,
{
    match a {
        ActionView::CreateDirectory { path, .. } => (a, fs.remove(path), Ok(())),
        ActionView::CreateFile { path, .. } => (a, fs.remove(path), Ok(())),
        ActionView::Composite { tag, children } => {
            let (cs2, fs2, r) = v_rev_children(children, fs);
            (ActionView::Composite { tag, children: cs2 }, fs2, r)
        },
    }
}

/// Meaning of reverting children in reverse declared order: the later
/// children are undone before the earlier ones, and the first failure
/// stops the walk before the earlier children are touched.
pub open spec fn v_rev_children(cs: Seq<PlannedView>, fs: FsView) -> (Seq<PlannedView>, FsView, Result<
    (),
    ErrorView,
>)
    decreases cs,
{
    if cs.len() == 0 {
        (cs, fs, Ok(()))
    } else {
        let rest = cs.subrange(1, cs.len() as int);
        let (t2, fs2, r) = v_rev_children(rest, fs);
        match r {
            Err(_) => (seq![cs[0]] + t2, fs2, r),
            Ok(_) => {
                let (h2, fs3, rh) = v_try_revert(cs[0], fs2);
                match rh {
                    Ok(_) => (seq![h2] + t2, fs3, Ok(())),
                    Err(e) => (seq![h2] + t2, fs3, Err(push_tag(tag_of(cs[0]), e))),
                }
            },
        }
    }
}

/// Meaning of running a whole plan: execute the root; on failure, wrap
/// the error with the root's own tag and attempt a full rollback, and
/// surface a rollback failure beside the original one rather than in its
/// place.
pub open spec fn v_execute_plan(p: PlannedView, fs: FsView) -> (PlannedView, FsView, Result<
    (),
    (ErrorView, Option<ErrorView>),
>) {
    let (p1, fs1, r) = v_try_execute(p, fs);
    match r {
        Ok(_) => (p1, fs1, Ok(())),
        Err(e) => {
            let tagged = push_tag(tag_of(p), e);
            let (p2, fs2, r2) = v_try_revert(p1, fs1);
            match r2 {
                Ok(_) => (p2, fs2, Err((tagged, None))),
                Err(re) => (p2, fs2, Err((tagged, Some(push_tag(tag_of(p), re))))),
            }
        },
    }
}

} // verus!
