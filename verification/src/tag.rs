//! Stable identifiers for the concrete action kinds.

use vstd::prelude::*;

verus! {

/// Identifies a concrete action kind.
///
/// Every kind carries a stable, globally unique string (see
/// [`ActionTag::as_str`]).  The tag is used to attribute a nested failure
/// to the action that caused it, and to drive the registry that encodes
/// and decodes heterogeneous plans.
#[derive(Clone, Copy, Debug, PartialEq, Eq, Structural)]
pub enum ActionTag {
    CreateDirectory,
    CreateFile,
    PlaceNixConfiguration,
}

impl ActionTag {
    /// The stable string of this kind, as a mathematical value.
    pub open spec fn spec_str(self) -> Seq<char> {
        match self {
            ActionTag::CreateDirectory => "create_directory"@,
            ActionTag::CreateFile => "create_file"@,
            ActionTag::PlaceNixConfiguration => "place_nix_configuration"@,
        }
    }

    /// The stable string of this kind.
    pub fn as_str(self) -> (r: &'static str)
        ensures
            r@ == self.spec_str(),
    {
        match self {
            ActionTag::CreateDirectory => "create_directory",
            ActionTag::CreateFile => "create_file",
            ActionTag::PlaceNixConfiguration => "place_nix_configuration",
        }
    }

    /// Whether this kind is a composite of child actions.
    pub open spec fn spec_is_composite_kind(self) -> bool {
        self == ActionTag::PlaceNixConfiguration
    }

    /// Whether this kind is a composite of child actions.
    pub fn is_composite_kind(self) -> (r: bool)
        ensures
            r == self.spec_is_composite_kind(),
    {
        match self {
            ActionTag::PlaceNixConfiguration => true,
            _ => false,
        }
    }
}

/// The tag strings are unique across the whole system: two distinct kinds
/// never share a string, so a persisted plan can never be decoded as the
/// wrong kind.
pub proof fn lemma_tag_strings_unique()
    ensures
        forall|t1: ActionTag, t2: ActionTag|
            t1.spec_str() == t2.spec_str() ==> t1 == t2,
{
    reveal_strlit("create_directory");
    reveal_strlit("create_file");
    reveal_strlit("place_nix_configuration");
    assert("create_directory"@.len() == 16);
    assert("create_file"@.len() == 11);
    assert("place_nix_configuration"@.len() == 23);
}

} // verus!
