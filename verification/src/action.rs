//! Actions, the stateful wrapper around them, and their mathematical views.

use vstd::prelude::*;
use crate::tag::ActionTag;

verus! {

broadcast use
    vstd::std_specs::vec::axiom_vec_decreases_to_view,
    vstd::seq::axiom_seq_index_decreases,
    vstd::seq::axiom_seq_subrange_decreases,
;

/// Completion marker of a planned action.
///
/// The wrapper is the unit of idempotency: `try_execute` does nothing once
/// the marker is `Completed`, and `try_revert` does nothing once it is
/// `Reverted`.
#[derive(Clone, Copy, Debug, PartialEq, Eq, Structural)]
pub enum ActionState {
    NotStarted,
    Completed,
    Reverted,
}

/// A single describable, revertible unit of system change.
///
/// A composite action owns an ordered sequence of planned child actions;
/// the declared order is the execution order, and its reverse is the
/// reversion order.
#[derive(Debug, PartialEq)]
pub enum Action {
    CreateDirectory { path: Vec<u8>, mode: u32 },
    CreateFile { path: Vec<u8>, mode: u32, content: Vec<u8> },
    Composite { tag: ActionTag, children: Vec<StatefulAction> },
}

/// An action together with its completion marker.
///
/// Produced by a `plan` call, this wrapper lives for the action's whole
/// lifecycle: execution, optional persistence, and later reversion.
#[derive(Debug, PartialEq)]
pub struct StatefulAction {
    pub action: Action,
    pub state: ActionState,
}

/// Mathematical value of an [`Action`].
#[verifier::ext_equal]
pub enum ActionView {
    CreateDirectory { path: Seq<u8>, mode: u32 },
    CreateFile { path: Seq<u8>, mode: u32, content: Seq<u8> },
    Composite { tag: ActionTag, children: Seq<PlannedView> },
}

/// Mathematical value of a [`StatefulAction`].
#[verifier::ext_equal]
pub struct PlannedView {
    pub action: ActionView,
    pub state: ActionState,
}

/// Mathematical value of an [`Action`], by value.
pub open spec fn view_action(a: Action) -> ActionView
    decreases a,
{
    match a {
        Action::CreateDirectory { path, mode } => ActionView::CreateDirectory {
            path: path@,
            mode,
        },
        Action::CreateFile { path, mode, content } => ActionView::CreateFile {
            path: path@,
            mode,
            content: content@,
        },
        Action::Composite { tag, children } => ActionView::Composite {
            tag,
            children: view_children(children@),
        },
    }
}

/// Mathematical values of a sequence of planned actions.
pub open spec fn view_children(cs: Seq<StatefulAction>) -> Seq<PlannedView>
    decreases cs,
{
    if cs.len() == 0 {
        Seq::empty()
    } else {
        seq![view_planned(cs[0])] + view_children(cs.subrange(1, cs.len() as int))
    }
}

/// Mathematical value of a [`StatefulAction`], by value.
pub open spec fn view_planned(p: StatefulAction) -> PlannedView
    decreases p,
{
    PlannedView { action: view_action(p.action), state: p.state }
}

impl View for Action {
    type V = ActionView;

    open spec fn view(&self) -> ActionView {
        view_action(*self)
    }
}

impl View for StatefulAction {
    type V = PlannedView;

    open spec fn view(&self) -> PlannedView {
        view_planned(*self)
    }
}

/// The tag of an action: constant per concrete kind.
pub open spec fn tag_of_action(a: ActionView) -> ActionTag {
    match a {
        ActionView::CreateDirectory { .. } => ActionTag::CreateDirectory,
        ActionView::CreateFile { .. } => ActionTag::CreateFile,
        ActionView::Composite { tag, .. } => tag,
    }
}

/// The tag of a planned action.
pub open spec fn tag_of(p: PlannedView) -> ActionTag {
    tag_of_action(p.action)
}

/// Well-formedness: a composite carries a composite-kind tag, all the way
/// down.
pub open spec fn wf_action(a: ActionView) -> bool
    decreases a,
{
    match a {
        ActionView::CreateDirectory { .. } => true,
        ActionView::CreateFile { .. } => true,
        ActionView::Composite { tag, children } => {
            &&& tag.spec_is_composite_kind()
            &&& forall|i: int| 0 <= i < children.len() ==> wf_planned(#[trigger] children[i])
        },
    }
}

/// Well-formedness of a planned action.
pub open spec fn wf_planned(p: PlannedView) -> bool
    decreases p,
{
    wf_action(p.action)
}

/// A plan on which nothing has run yet: every marker is `NotStarted`.
pub open spec fn pristine_action(a: ActionView) -> bool
    decreases a,
{
    match a {
        ActionView::Composite { children, .. } => forall|i: int|
            0 <= i < children.len() ==> pristine(#[trigger] children[i]),
        _ => true,
    }
}

/// A planned action on which nothing has run yet.
pub open spec fn pristine(p: PlannedView) -> bool
    decreases p,
{
    p.state == ActionState::NotStarted && pristine_action(p.action)
}

/// Size of a planned action's tree, the termination measure of the engine.
pub open spec fn size_planned(p: PlannedView) -> nat
    decreases p,
{
    1 + size_action(p.action)
}

/// Size of an action's tree.
pub open spec fn size_action(a: ActionView) -> nat
    decreases a,
{
    match a {
        ActionView::Composite { children, .. } => 1 + size_children(children),
        _ => 1,
    }
}

/// Size of a sequence of planned actions.
pub open spec fn size_children(cs: Seq<PlannedView>) -> nat
    decreases cs,
{
    if cs.len() == 0 {
        1
    } else {
        1 + size_planned(cs[0]) + size_children(cs.subrange(1, cs.len() as int))
    }
}

/// A structured, human-readable account of an action, for dry-run
/// preview and logging: a fixed synopsis per kind, the key attribute (the
/// target path; empty for a composite), and an explanation.  It never
/// assumes the action has run.
pub struct ActionDescription {
    pub synopsis: String,
    pub subject: Vec<u8>,
    pub explanation: String,
}

/// The synopsis of executing an action.
pub open spec fn spec_synopsis(a: ActionView) -> Seq<char> {
    match a {
        ActionView::CreateDirectory { .. } => "Create a directory"@,
        ActionView::CreateFile { .. } => "Create a file"@,
        ActionView::Composite { tag, .. } => {
            if tag == ActionTag::PlaceNixConfiguration {
                "Place the Nix configuration in `/etc/nix/nix.conf`"@
            } else {
                "Run a group of actions"@
            }
        },
    }
}

/// The synopsis of reverting an action.
pub open spec fn spec_revert_synopsis(a: ActionView) -> Seq<char> {
    match a {
        ActionView::CreateDirectory { .. } => "Remove a directory"@,
        ActionView::CreateFile { .. } => "Remove a file"@,
        ActionView::Composite { tag, .. } => {
            if tag == ActionTag::PlaceNixConfiguration {
                "Remove the Nix configuration in `/etc/nix/nix.conf`"@
            } else {
                "Undo a group of actions"@
            }
        },
    }
}

/// The explanation shown beside the synopsis.
pub open spec fn spec_explanation(a: ActionView) -> Seq<char> {
    match a {
        ActionView::CreateDirectory { .. } => "The directory is created with the given mode."@,
        ActionView::CreateFile { .. } => "The file is written with the given mode and content."@,
        ActionView::Composite { tag, .. } => {
            if tag == ActionTag::PlaceNixConfiguration {
                "This file is read by the Nix daemon to set its configuration options at runtime."@
            } else {
                "Each child action runs in its declared order."@
            }
        },
    }
}

/// The key attribute of an action: its target path; empty for a
/// composite, whose children carry their own.
pub open spec fn spec_subject(a: ActionView) -> Seq<u8> {
    match a {
        ActionView::CreateDirectory { path, .. } => path,
        ActionView::CreateFile { path, .. } => path,
        ActionView::Composite { .. } => Seq::empty(),
    }
}

/// The views of children are the children's views, index by index.
pub proof fn lemma_view_children_elems(s: Seq<StatefulAction>)
    ensures
        view_children(s).len() == s.len(),
        forall|i: int| 0 <= i < s.len() ==> view_children(s)[i] == view_planned(#[trigger] s[i]),
    decreases s,
{
    if s.len() > 0 {
        let sub = s.subrange(1, s.len() as int);
        lemma_view_children_elems(sub);
        assert forall|i: int| 0 <= i < s.len() implies view_children(s)[i] == view_planned(
            s[i],
        ) by {
            if i > 0 {
                assert(view_children(s)[i] == view_children(sub)[i - 1]);
                assert(sub[i - 1] == s[i]);
            }
        }
    }
}

/// Viewing children commutes with appending one more.
pub proof fn lemma_view_children_push(s: Seq<StatefulAction>, x: StatefulAction)
    ensures
        view_children(s.push(x)) == view_children(s) + seq![view_planned(x)],
{
    lemma_view_children_elems(s.push(x));
    lemma_view_children_elems(s);
    assert forall|i: int| 0 <= i < s.len() + 1 implies view_children(s.push(x))[i]
        == (view_children(s) + seq![view_planned(x)])[i] by {
        if i < s.len() {
            assert(s.push(x)[i] == s[i]);
        } else {
            assert(s.push(x)[i] == x);
        }
    }
    assert(view_children(s.push(x)) =~= view_children(s) + seq![view_planned(x)]);
}

impl StatefulAction {
    /// The completion marker.
    pub fn state(&self) -> (s: ActionState)
        ensures
            s == self@.state,
    {
        self.state
    }

    /// The tag of the wrapped action.
    pub fn action_tag(&self) -> (t: ActionTag)
        ensures
            t == tag_of(self@),
    {
        match &self.action {
            Action::CreateDirectory { .. } => ActionTag::CreateDirectory,
            Action::CreateFile { .. } => ActionTag::CreateFile,
            Action::Composite { tag, .. } => *tag,
        }
    }

    /// What executing this action will do, in one line.
    pub fn synopsis(&self) -> (r: String)
        ensures
            r@ == spec_synopsis(self@.action),
    {
        match &self.action {
            Action::CreateDirectory { .. } => "Create a directory".to_owned(),
            Action::CreateFile { .. } => "Create a file".to_owned(),
            Action::Composite { tag, .. } => {
                match tag {
                    ActionTag::PlaceNixConfiguration => {
                        "Place the Nix configuration in `/etc/nix/nix.conf`".to_owned()
                    },
                    _ => "Run a group of actions".to_owned(),
                }
            },
        }
    }

    /// The key attribute of this action: its target path, when it has
    /// one.
    fn subject(&self) -> (r: Vec<u8>)
        ensures
            r@ == spec_subject(self@.action),
    {
        match &self.action {
            Action::CreateDirectory { path, .. } => {
                let r = vstd::slice::slice_to_vec(path.as_slice());
                proof {
                    assert(r@ =~= path@);
                }
                r
            },
            Action::CreateFile { path, .. } => {
                let r = vstd::slice::slice_to_vec(path.as_slice());
                proof {
                    assert(r@ =~= path@);
                }
                r
            },
            Action::Composite { .. } => {
                let r: Vec<u8> = Vec::new();
                proof {
                    assert(r@ =~= spec_subject(self@.action));
                }
                r
            },
        }
    }

    /// What executing this action will do, structured for preview and
    /// logging.
    pub fn execute_description(&self) -> (r: Vec<ActionDescription>)
        ensures
            r@.len() == 1,
            r@[0].synopsis@ == spec_synopsis(self@.action),
            r@[0].subject@ == spec_subject(self@.action),
            r@[0].explanation@ == spec_explanation(self@.action),
    {
        let synopsis = self.synopsis();
        let subject = self.subject();
        let explanation = match &self.action {
            Action::CreateDirectory { .. } => "The directory is created with the given mode."
                .to_owned(),
            Action::CreateFile { .. } => "The file is written with the given mode and content."
                .to_owned(),
            Action::Composite { tag, .. } => {
                match tag {
                    ActionTag::PlaceNixConfiguration => {
                        "This file is read by the Nix daemon to set its configuration options at runtime."
                            .to_owned()
                    },
                    _ => "Each child action runs in its declared order.".to_owned(),
                }
            },
        };
        let mut r: Vec<ActionDescription> = Vec::new();
        r.push(ActionDescription { synopsis, subject, explanation });
        r
    }

    /// What reverting this action will do, structured for preview and
    /// logging.
    pub fn revert_description(&self) -> (r: Vec<ActionDescription>)
        ensures
            r@.len() == 1,
            r@[0].synopsis@ == spec_revert_synopsis(self@.action),
            r@[0].subject@ == spec_subject(self@.action),
            r@[0].explanation@ == spec_explanation(self@.action),
    {
        let synopsis = match &self.action {
            Action::CreateDirectory { .. } => "Remove a directory".to_owned(),
            Action::CreateFile { .. } => "Remove a file".to_owned(),
            Action::Composite { tag, .. } => {
                match tag {
                    ActionTag::PlaceNixConfiguration => {
                        "Remove the Nix configuration in `/etc/nix/nix.conf`".to_owned()
                    },
                    _ => "Undo a group of actions".to_owned(),
                }
            },
        };
        let subject = self.subject();
        let explanation = match &self.action {
            Action::CreateDirectory { .. } => "The directory is created with the given mode."
                .to_owned(),
            Action::CreateFile { .. } => "The file is written with the given mode and content."
                .to_owned(),
            Action::Composite { tag, .. } => {
                match tag {
                    ActionTag::PlaceNixConfiguration => {
                        "This file is read by the Nix daemon to set its configuration options at runtime."
                            .to_owned()
                    },
                    _ => "Each child action runs in its declared order.".to_owned(),
                }
            },
        };
        let mut r: Vec<ActionDescription> = Vec::new();
        r.push(ActionDescription { synopsis, subject, explanation });
        r
    }
}

} // verus!
