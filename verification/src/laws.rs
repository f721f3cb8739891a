//! The guarantees of the engine, proved once about the interpreter.
//!
//! Because every engine function is proved to return exactly what the
//! interpreter returns, each law here holds of the executable engine as
//! well.

use vstd::prelude::*;
use crate::action::{ActionState, ActionView, PlannedView, pristine, pristine_action, tag_of};
use crate::error::ErrorView;
use crate::semantics::{
    FsView, is_composite, v_exec_children, v_execute_action, v_execute_plan, v_rev_children,
    v_revert_action, v_try_execute, v_try_revert,
};

verus! {

broadcast use
    vstd::std_specs::vec::axiom_vec_decreases_to_view,
    vstd::seq::axiom_seq_index_decreases,
    vstd::seq::axiom_seq_subrange_decreases,
;

/// Idempotency: running `try_execute` a second time changes nothing — the
/// action, the filesystem, and the outcome are exactly those of the first
/// run, whether it succeeded or failed.
pub proof fn lemma_try_execute_idempotent(p: PlannedView, fs: FsView)
    ensures
        ({
            let (p1, fs1, r1) = v_try_execute(p, fs);
            v_try_execute(p1, fs1) == (p1, fs1, r1)
        }),
    decreases p,
{
    if p.state != ActionState::Completed {
        let (a2, fs2, r) = v_execute_action(p.action, fs);
        if r is Err {
            lemma_execute_action_err_idempotent(p.action, fs);
        }
    }
}

/// A failed action run leaves a state in which running it again fails the
/// same way without further change.
proof fn lemma_execute_action_err_idempotent(a: ActionView, fs: FsView)
    ensures
        ({
            let (a2, fs2, r) = v_execute_action(a, fs);
            r is Err ==> v_execute_action(a2, fs2) == (a2, fs2, r)
        }),
    decreases a,
{
    match a {
        ActionView::Composite { tag, children } => {
            lemma_exec_children_err_idempotent(children, fs);
        },
        _ => {},
    }
}

/// A failed children walk leaves a state in which walking again fails the
/// same way without further change.
proof fn lemma_exec_children_err_idempotent(cs: Seq<PlannedView>, fs: FsView)
    ensures
        ({
            let (cs2, fs2, r) = v_exec_children(cs, fs);
            r is Err ==> v_exec_children(cs2, fs2) == (cs2, fs2, r)
        }),
    decreases cs,
{
    reveal_with_fuel(v_exec_children, 3);
    if cs.len() > 0 {
        let (h2, fsh, rh) = v_try_execute(cs[0], fs);
        let rest = cs.subrange(1, cs.len() as int);
        lemma_try_execute_idempotent(cs[0], fs);
        match rh {
            Ok(_) => {
                let (t2, fs3, r3) = v_exec_children(rest, fsh);
                lemma_exec_children_err_idempotent(rest, fsh);
                if r3 is Err {
                    let cs2 = seq![h2] + t2;
                    assert(cs2[0] == h2);
                    assert(cs2.subrange(1, cs2.len() as int) =~= t2);
                    assert(h2.state == ActionState::Completed);
                    let (t2b, fs3b, r3b) = v_exec_children(t2, fs3);
                    assert(seq![h2] + t2b =~= cs2);
                }
            },
            Err(e) => {
                let cs2 = seq![h2] + rest;
                assert(cs2[0] == h2);
                assert(cs2.subrange(1, cs2.len() as int) =~= rest);
                lemma_execute_action_preserves_tag(cs[0].action, fs);
                assert(tag_of(h2) == tag_of(cs[0]));
                assert(seq![cs2[0]] + cs2.subrange(1, cs2.len() as int) =~= cs2);
            },
        }
    }
}

/// Executing an action does not change its kind, so its tag is stable.
proof fn lemma_execute_action_preserves_tag(a: ActionView, fs: FsView)
    ensures
        crate::action::tag_of_action(v_execute_action(a, fs).0)
            == crate::action::tag_of_action(a),
{
    match a {
        ActionView::CreateDirectory { .. } => {},
        ActionView::CreateFile { .. } => {},
        ActionView::Composite { .. } => {},
    }
}

/// Idempotency of reversion: a revert always succeeds — removal
/// tolerates a target that is already absent — and running it a second
/// time changes nothing.
pub proof fn lemma_try_revert_idempotent(p: PlannedView, fs: FsView)
    ensures
        ({
            let (p2, fs2, r) = v_try_revert(p, fs);
            r is Ok && v_try_revert(p2, fs2) == (p2, fs2, r)
        }),
    decreases p,
{
    if p.state != ActionState::Reverted && (p.state == ActionState::Completed || is_composite(
        p.action,
    )) {
        lemma_revert_action_total(p.action, fs);
    }
}

/// Reverting an action always succeeds in the model.
proof fn lemma_revert_action_total(a: ActionView, fs: FsView)
    ensures
        v_revert_action(a, fs).2 is Ok,
    decreases a,
{
    match a {
        ActionView::Composite { tag, children } => {
            lemma_rev_children_total(children, fs);
        },
        _ => {},
    }
}

/// Reverting children always succeeds in the model.
proof fn lemma_rev_children_total(cs: Seq<PlannedView>, fs: FsView)
    ensures
        v_rev_children(cs, fs).2 is Ok,
    decreases cs,
{
    if cs.len() > 0 {
        let rest = cs.subrange(1, cs.len() as int);
        lemma_rev_children_total(rest, fs);
        let (t2, fs2, r) = v_rev_children(rest, fs);
        lemma_try_revert_idempotent(cs[0], fs2);
    }
}

/// Reverting a plan on which nothing has run leaves the filesystem
/// untouched and succeeds.
proof fn lemma_revert_pristine(p: PlannedView, fs: FsView)
    requires
        pristine(p),
    ensures
        ({
            let (p2, fs2, r) = v_try_revert(p, fs);
            fs2 == fs && r is Ok
        }),
    decreases p,
{
    if is_composite(p.action) {
        lemma_revert_pristine_action(p.action, fs);
    }
}

/// Reverting an action on which nothing has run leaves the filesystem
/// untouched and succeeds.  Only the composite case is ever reached: a
/// never-run leaf is short-circuited by its wrapper.
proof fn lemma_revert_pristine_action(a: ActionView, fs: FsView)
    requires
        pristine_action(a),
        is_composite(a),
    ensures
        ({
            let (a2, fs2, r) = v_revert_action(a, fs);
            fs2 == fs && r is Ok
        }),
    decreases a,
{
    match a {
        ActionView::Composite { tag, children } => {
            lemma_revert_pristine_children(children, fs);
        },
        _ => {},
    }
}

/// Reverting children on which nothing has run leaves the filesystem
/// untouched and succeeds.
proof fn lemma_revert_pristine_children(cs: Seq<PlannedView>, fs: FsView)
    requires
        forall|i: int| 0 <= i < cs.len() ==> pristine(#[trigger] cs[i]),
    ensures
        ({
            let (cs2, fs2, r) = v_rev_children(cs, fs);
            fs2 == fs && r is Ok
        }),
    decreases cs,
{
    if cs.len() > 0 {
        let rest = cs.subrange(1, cs.len() as int);
        assert(forall|i: int| 0 <= i < rest.len() ==> pristine(#[trigger] rest[i]));
        lemma_revert_pristine_children(rest, fs);
        lemma_revert_pristine(cs[0], fs);
    }
}

/// Inverse and cleanup: executing a fresh plan and then reverting it
/// restores the filesystem exactly, whether execution succeeded or failed
/// partway, and the reversion itself succeeds.
pub proof fn lemma_execute_then_revert_restores(p: PlannedView, fs: FsView)
    requires
        pristine(p),
    ensures
        ({
            let (p1, fs1, r1) = v_try_execute(p, fs);
            let (p2, fs2, r2) = v_try_revert(p1, fs1);
            fs2 == fs && r2 is Ok
        }),
    decreases p,
{
    let (a1, fs1, r) = v_execute_action(p.action, fs);
    lemma_execute_then_revert_restores_action(p.action, fs);
    if r is Err && !is_composite(p.action) {
        // a failed leaf run changes nothing, and its wrapper then declines
        // to revert it
        assert(fs1 == fs);
    }
}

/// Action-level inverse: executing a fresh action and then reverting it
/// restores the filesystem.  For a leaf the claim concerns a successful
/// run (a failed leaf run is never reverted by its wrapper); a composite
/// is cleaned up after success and failure alike.
proof fn lemma_execute_then_revert_restores_action(a: ActionView, fs: FsView)
    requires
        pristine_action(a),
    ensures
        ({
            let (a1, fs1, r) = v_execute_action(a, fs);
            let (a2, fs2, r2) = v_revert_action(a1, fs1);
            (r is Ok || is_composite(a)) ==> (fs2 == fs && r2 is Ok)
        }),
    decreases a,
{
    match a {
        ActionView::CreateDirectory { path, mode } => {
            if !fs.contains_key(path) {
                assert(fs.insert(path, crate::system::FsEntryView::Dir { mode }).remove(path)
                    =~= fs);
            }
        },
        ActionView::CreateFile { path, mode, content } => {
            if !fs.contains_key(path) {
                assert(fs.insert(
                    path,
                    crate::system::FsEntryView::File { mode, content },
                ).remove(path) =~= fs);
            }
        },
        ActionView::Composite { tag, children } => {
            lemma_children_execute_then_revert(children, fs);
        },
    }
}

/// Children-level inverse: walking fresh children forward and then
/// reverting the result restores the filesystem, whether the walk
/// completed or stopped at a failure.
proof fn lemma_children_execute_then_revert(cs: Seq<PlannedView>, fs: FsView)
    requires
        forall|i: int| 0 <= i < cs.len() ==> pristine(#[trigger] cs[i]),
    ensures
        ({
            let (cs1, fs1, r) = v_exec_children(cs, fs);
            let (cs2, fs2, r2) = v_rev_children(cs1, fs1);
            fs2 == fs && r2 is Ok
        }),
    decreases cs,
{
    if cs.len() > 0 {
        let (h1, fsa, rh) = v_try_execute(cs[0], fs);
        let rest = cs.subrange(1, cs.len() as int);
        assert(forall|i: int| 0 <= i < rest.len() ==> pristine(#[trigger] rest[i]));
        lemma_execute_then_revert_restores(cs[0], fs);
        match rh {
            Ok(_) => {
                let (t1, fs1, rt) = v_exec_children(rest, fsa);
                let cs1 = seq![h1] + t1;
                assert(cs1[0] == h1);
                assert(cs1.subrange(1, cs1.len() as int) =~= t1);
                lemma_children_execute_then_revert(rest, fsa);
            },
            Err(_) => {
                let cs1 = seq![h1] + rest;
                assert(cs1[0] == h1);
                assert(cs1.subrange(1, cs1.len() as int) =~= rest);
                lemma_revert_pristine_children(rest, fsa);
            },
        }
    }
}

/// Ordering: in a composite of `[a, b, c]`, `b` runs from exactly the
/// state `a` left and `c` from exactly the state `b` left; reversion runs
/// `c`, then `b`, then `a`, each from the state the previous one left.
pub proof fn lemma_composite_ordering(a: PlannedView, b: PlannedView, c: PlannedView, fs: FsView)
    ensures
        ({
            let (a1, fs_a, ra) = v_try_execute(a, fs);
            let (b1, fs_b, rb) = v_try_execute(b, fs_a);
            let (c1, fs_c, rc) = v_try_execute(c, fs_b);
            (ra is Ok && rb is Ok) ==> v_exec_children(seq![a, b, c], fs) == (
                seq![a1, b1, c1],
                fs_c,
                match rc {
                    Ok(_) => Ok::<(), ErrorView>(()),
                    Err(e) => Err(crate::error::push_tag(tag_of(c), e)),
                },
            )
        }),
        ({
            let (c1, fs_c, rc) = v_try_revert(c, fs);
            let (b1, fs_b, rb) = v_try_revert(b, fs_c);
            let (a1, fs_a, ra) = v_try_revert(a, fs_b);
            (rc is Ok && rb is Ok) ==> v_rev_children(seq![a, b, c], fs) == (
                seq![a1, b1, c1],
                fs_a,
                match ra {
                    Ok(_) => Ok::<(), ErrorView>(()),
                    Err(e) => Err(crate::error::push_tag(tag_of(a), e)),
                },
            )
        }),
{
    reveal_with_fuel(v_exec_children, 5);
    reveal_with_fuel(v_rev_children, 5);
    let s = seq![a, b, c];
    let s1 = s.subrange(1, 3);
    let s2 = s1.subrange(1, 2);
    let s3 = s2.subrange(1, 1);
    assert(s1 =~= seq![b, c]);
    assert(s2 =~= seq![c]);
    assert(s3 =~= Seq::<PlannedView>::empty());
    let (a1, fs_a, ra) = v_try_execute(a, fs);
    let (b1, fs_b, rb) = v_try_execute(b, fs_a);
    let (c1, fs_c, rc) = v_try_execute(c, fs_b);
    if ra is Ok && rb is Ok {
        assert(v_exec_children(s2, fs_b).0 =~= seq![c1]);
        assert(v_exec_children(s1, fs_a).0 =~= seq![b1, c1]);
        assert(v_exec_children(s, fs).0 =~= seq![a1, b1, c1]);
    }
    let (rc1, fs_rc, rrc) = v_try_revert(c, fs);
    let (rb1, fs_rb, rrb) = v_try_revert(b, fs_rc);
    let (ra1, fs_ra, rra) = v_try_revert(a, fs_rb);
    if rrc is Ok && rrb is Ok {
        assert(v_rev_children(s2, fs).0 =~= seq![rc1]);
        assert(v_rev_children(s1, fs).0 =~= seq![rb1, rc1]);
        assert(v_rev_children(s, fs).0 =~= seq![ra1, rb1, rc1]);
    }
}

/// Partial failure: in a fresh composite of `[a, b, c]` where `b` fails,
/// `c` is never touched, the failure is attributed to `b`, the composite
/// is not marked complete, and a subsequent full revert of the composite
/// restores the filesystem exactly.
pub proof fn lemma_partial_failure(
    tag: crate::tag::ActionTag,
    a: PlannedView,
    b: PlannedView,
    c: PlannedView,
    fs: FsView,
)
    requires
        pristine(a),
        pristine(b),
        pristine(c),
        v_try_execute(a, fs).2 is Ok,
        ({
            let (a1, fs_a, ra) = v_try_execute(a, fs);
            v_try_execute(b, fs_a).2 is Err
        }),
    ensures
        ({
            let comp = PlannedView {
                action: ActionView::Composite { tag, children: seq![a, b, c] },
                state: ActionState::NotStarted,
            };
            let (a1, fs_a, ra) = v_try_execute(a, fs);
            let (b1, fs_b, rb) = v_try_execute(b, fs_a);
            let (p1, fs1, r) = v_try_execute(comp, fs);
            &&& p1.action == ActionView::Composite { tag, children: seq![a1, b1, c] }
            &&& p1.state == ActionState::NotStarted
            &&& fs1 == fs_b
            &&& r == match rb {
                Ok(_) => Ok::<(), ErrorView>(()),
                Err(e) => Err::<(), ErrorView>(crate::error::push_tag(tag_of(b), e)),
            }
            &&& ({
                let (p2, fs2, r2) = v_try_revert(p1, fs1);
                fs2 == fs && r2 is Ok
            })
        }),
{
    reveal_with_fuel(v_exec_children, 5);
    let comp = PlannedView {
        action: ActionView::Composite { tag, children: seq![a, b, c] },
        state: ActionState::NotStarted,
    };
    let s = seq![a, b, c];
    let s1 = s.subrange(1, 3);
    let s2 = s1.subrange(1, 2);
    assert(s1 =~= seq![b, c]);
    assert(s2 =~= seq![c]);
    let (a1, fs_a, ra) = v_try_execute(a, fs);
    let (b1, fs_b, rb) = v_try_execute(b, fs_a);
    assert(v_exec_children(s1, fs_a).0 =~= seq![b1] + s2);
    assert(v_exec_children(s, fs).0 =~= seq![a1, b1, c]);
    assert(forall|i: int| 0 <= i < s.len() ==> pristine(#[trigger] s[i]));
    lemma_children_execute_then_revert(s, fs);
    let (cs1, fsx, rx) = v_exec_children(s, fs);
    assert(cs1 =~= seq![a1, b1, c]);
    let (p1, fs1, r) = v_try_execute(comp, fs);
    assert(p1.action == ActionView::Composite { tag, children: cs1 });
}

/// Error attribution: a failure in a grandchild leaf surfaces at the top
/// of a two-level composite with the full three-tag chain — root, child,
/// grandchild — never flattened.
pub proof fn lemma_grandchild_attribution(
    root_tag: crate::tag::ActionTag,
    mid_tag: crate::tag::ActionTag,
    g: PlannedView,
    fs: FsView,
)
    requires
        v_try_execute(g, fs).2 is Err,
        ({
            let (g1, fs_g, rg) = v_try_execute(g, fs);
            rg matches Err(e) && e.chain.len() == 0
        }),
    ensures
        ({
            let mid = PlannedView {
                action: ActionView::Composite { tag: mid_tag, children: seq![g] },
                state: ActionState::NotStarted,
            };
            let root = PlannedView {
                action: ActionView::Composite { tag: root_tag, children: seq![mid] },
                state: ActionState::NotStarted,
            };
            let (p1, fs1, r) = v_execute_plan(root, fs);
            r matches Err(f) && f.0.chain =~= seq![root_tag, mid_tag, tag_of(g)]
        }),
{
    reveal_with_fuel(v_exec_children, 3);
    let mid = PlannedView {
        action: ActionView::Composite { tag: mid_tag, children: seq![g] },
        state: ActionState::NotStarted,
    };
    let root = PlannedView {
        action: ActionView::Composite { tag: root_tag, children: seq![mid] },
        state: ActionState::NotStarted,
    };
    let sg = seq![g];
    let sm = seq![mid];
    assert(sg.subrange(1, 1) =~= Seq::<PlannedView>::empty());
    assert(sm.subrange(1, 1) =~= Seq::<PlannedView>::empty());
    let (g1, fs_g, rg) = v_try_execute(g, fs);
    let e = rg->Err_0;
    let e_mid = crate::error::push_tag(tag_of(g), e);
    assert(v_exec_children(sg, fs).2 == Err::<(), ErrorView>(e_mid));
    assert(v_try_execute(mid, fs).2 == Err::<(), ErrorView>(e_mid));
    let e_root = crate::error::push_tag(mid_tag, e_mid);
    assert(v_exec_children(sm, fs).2 == Err::<(), ErrorView>(e_root));
    assert(v_try_execute(root, fs).2 == Err::<(), ErrorView>(e_root));
    let e_top = crate::error::push_tag(root_tag, e_root);
    assert(e_top.chain =~= seq![root_tag, mid_tag, tag_of(g)]);
}

} // verus!
