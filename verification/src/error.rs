//! The error taxonomy: leaf failures, and attribution of nested failures.

use vstd::prelude::*;
use crate::tag::ActionTag;

verus! {

/// A failure of a single operation, before any attribution wrapping.
#[derive(Debug, PartialEq)]
pub enum LeafError {
    /// A required path was empty at planning time.
    EmptyPath,
    /// Execution found an entry already present at the target path.
    PathAlreadyExists { path: Vec<u8> },
    /// Execution needed `parent` to be a directory, and it was absent.
    ParentDirectoryMissing { path: Vec<u8>, parent: Vec<u8> },
    /// A composite was planned under a tag that is not a composite kind.
    NotACompositeKind { tag: ActionTag },
    /// Decoding met a kind code that no registered kind claims.
    UnknownActionKind { code: u8 },
    /// Decoding met bytes that are not a valid encoded plan.
    MalformedPlan,
}

/// An action failure.
///
/// Either a leaf failure, or a failure inside a specific child action,
/// wrapped with that child's tag.  A deeply nested failure therefore
/// carries a full chain of tags from the outermost composite down to the
/// exact action that failed.
#[derive(Debug, PartialEq)]
pub enum ActionError {
    Leaf { error: LeafError },
    Child { tag: ActionTag, error: Box<ActionError> },
}

/// Mathematical value of a [`LeafError`].
#[verifier::ext_equal]
pub enum LeafErrorView {
    EmptyPath,
    PathAlreadyExists { path: Seq<u8> },
    ParentDirectoryMissing { path: Seq<u8>, parent: Seq<u8> },
    NotACompositeKind { tag: ActionTag },
    UnknownActionKind { code: u8 },
    MalformedPlan,
}

/// Mathematical value of an [`ActionError`]: the chain of tags from the
/// outermost composite to the failing action, and the leaf failure.
#[verifier::ext_equal]
pub struct ErrorView {
    pub chain: Seq<ActionTag>,
    pub leaf: LeafErrorView,
}

impl View for LeafError {
    type V = LeafErrorView;

    open spec fn view(&self) -> LeafErrorView {
        match self {
            LeafError::EmptyPath => LeafErrorView::EmptyPath,
            LeafError::PathAlreadyExists { path } => LeafErrorView::PathAlreadyExists {
                path: path@,
            },
            LeafError::ParentDirectoryMissing { path, parent } => {
                LeafErrorView::ParentDirectoryMissing { path: path@, parent: parent@ }
            },
            LeafError::NotACompositeKind { tag } => LeafErrorView::NotACompositeKind {
                tag: *tag,
            },
            LeafError::UnknownActionKind { code } => LeafErrorView::UnknownActionKind {
                code: *code,
            },
            LeafError::MalformedPlan => LeafErrorView::MalformedPlan,
        }
    }
}

/// Mathematical value of an [`ActionError`], by value.
pub open spec fn err_view(e: ActionError) -> ErrorView
    decreases e,
{
    match e {
        ActionError::Leaf { error } => ErrorView { chain: Seq::empty(), leaf: error@ },
        ActionError::Child { tag, error } => {
            let inner = err_view(*error);
            ErrorView { chain: seq![tag] + inner.chain, leaf: inner.leaf }
        },
    }
}

impl View for ActionError {
    type V = ErrorView;

    open spec fn view(&self) -> ErrorView {
        err_view(*self)
    }
}

/// Prepending one attribution layer to an error view.
pub open spec fn push_tag(tag: ActionTag, e: ErrorView) -> ErrorView {
    ErrorView { chain: seq![tag] + e.chain, leaf: e.leaf }
}

impl ActionError {
    /// Wraps a child failure with the child's tag, one attribution layer.
    pub fn child(tag: ActionTag, error: ActionError) -> (r: ActionError)
        ensures
            r@ == push_tag(tag, error@),
    {
        ActionError::Child { tag, error: Box::new(error) }
    }

    /// The attribution chain, outermost tag first.
    pub fn tag_chain(&self) -> (r: Vec<ActionTag>)
        ensures
            r@ == self@.chain,
        decreases *self,
    {
        match self {
            ActionError::Leaf { .. } => Vec::new(),
            ActionError::Child { tag, error } => {
                let mut r = error.tag_chain();
                r.insert(0, *tag);
                r
            },
        }
    }
}

} // verus!
