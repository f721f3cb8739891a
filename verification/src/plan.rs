//! Planning: validating inputs and building ready-to-execute wrappers.
//!
//! A `plan` call validates its inputs and resolves any child plans; it
//! never touches the machine.  A failed child plan is propagated wrapped
//! with the child's tag, and no partial composite is ever returned.

use vstd::prelude::*;
use vstd::utf8::encode_utf8;
use crate::action::{
    Action, ActionState, ActionView, PlannedView, StatefulAction, view_children,
};
use crate::error::{ActionError, LeafError};
use crate::tag::ActionTag;

verus! {

/// Leaf kind: ensure a directory exists at a path.
///
/// Execution asks the machine for the whole path, so the parent need not
/// exist yet; reversion removes the directory, and an already absent
/// target is not an error.
pub struct CreateDirectory;

impl CreateDirectory {
    /// The stable tag of this kind.
    pub fn action_tag() -> (t: ActionTag)
        ensures
            t == ActionTag::CreateDirectory,
    {
        ActionTag::CreateDirectory
    }

    /// Plans the directory: rejects an empty path, touches nothing.
    pub fn plan(path: Vec<u8>, mode: u32) -> (r: Result<StatefulAction, ActionError>)
        ensures
            path@.len() == 0 ==> r == Err::<StatefulAction, ActionError>(
                ActionError::Leaf { error: LeafError::EmptyPath },
            ),
            path@.len() > 0 ==> (r matches Ok(sa) && sa@ == PlannedView {
                action: ActionView::CreateDirectory { path: path@, mode },
                state: ActionState::NotStarted,
            }),
    {
        if path.len() == 0 {
            Err(ActionError::Leaf { error: LeafError::EmptyPath })
        } else {
            Ok(
                StatefulAction {
                    action: Action::CreateDirectory { path, mode },
                    state: ActionState::NotStarted,
                },
            )
        }
    }
}

/// Leaf kind: create a file with the given content at a path.
///
/// Execution requires the parent directory to exist and the path to be
/// free; reversion removes the file, and an already absent target is not
/// an error.
pub struct CreateFile;

impl CreateFile {
    /// The stable tag of this kind.
    pub fn action_tag() -> (t: ActionTag)
        ensures
            t == ActionTag::CreateFile,
    {
        ActionTag::CreateFile
    }

    /// Plans the file: rejects an empty path, touches nothing.
    pub fn plan(path: Vec<u8>, mode: u32, content: Vec<u8>) -> (r: Result<
        StatefulAction,
        ActionError,
    >)
        ensures
            path@.len() == 0 ==> r == Err::<StatefulAction, ActionError>(
                ActionError::Leaf { error: LeafError::EmptyPath },
            ),
            path@.len() > 0 ==> (r matches Ok(sa) && sa@ == PlannedView {
                action: ActionView::CreateFile { path: path@, mode, content: content@ },
                state: ActionState::NotStarted,
            }),
    {
        if path.len() == 0 {
            Err(ActionError::Leaf { error: LeafError::EmptyPath })
        } else {
            Ok(
                StatefulAction {
                    action: Action::CreateFile { path, mode, content },
                    state: ActionState::NotStarted,
                },
            )
        }
    }
}

/// Plans a composite action from already planned children.
///
/// The declared order of `children` is the execution order, and its
/// reverse is the reversion order.  A tag that is not a composite kind is
/// rejected.
pub fn plan_composite(tag: ActionTag, children: Vec<StatefulAction>) -> (r: Result<
    StatefulAction,
    ActionError,
>)
    ensures
        !tag.spec_is_composite_kind() ==> r == Err::<StatefulAction, ActionError>(
            ActionError::Leaf { error: LeafError::NotACompositeKind { tag } },
        ),
        tag.spec_is_composite_kind() ==> (r matches Ok(sa) && sa@ == PlannedView {
            action: ActionView::Composite { tag, children: view_children(children@) },
            state: ActionState::NotStarted,
        }),
{
    if tag.is_composite_kind() {
        Ok(
            StatefulAction {
                action: Action::Composite { tag, children },
                state: ActionState::NotStarted,
            },
        )
    } else {
        Err(ActionError::Leaf { error: LeafError::NotACompositeKind { tag } })
    }
}

/// A nonempty text has a nonempty encoding.
proof fn lemma_encode_utf8_nonempty(s: Seq<char>)
    requires
        s.len() > 0,
    ensures
        encode_utf8(s).len() > 0,
{
    assert(encode_utf8(s) == vstd::utf8::encode_scalar(s[0] as u32) + encode_utf8(
        s.drop_first(),
    ));
}

/// The generated configuration text, as a value: a header naming the
/// injected version, the extra lines joined by line breaks, the build
/// users group, and the fixed settings.
pub open spec fn nix_conf_content(group: Seq<char>, extra: Seq<Seq<char>>, version: Seq<char>)
    -> Seq<u8> {
    encode_utf8("# Generated by the Nix installer, version "@) + encode_utf8(version)
        + encode_utf8(".\n\n"@) + joined_lines(extra) + encode_utf8(
        "\n\nbuild-users-group = "@,
    ) + encode_utf8(group) + encode_utf8(
        "\n\nexperimental-features = nix-command flakes\n\nauto-optimise-store = true\n\nbash-prompt-prefix = (nix:$name)\\040\n\nextra-nix-path = nixpkgs=flake:nixpkgs\n"@,
    )
}

/// The extra configuration lines, joined by line breaks.
pub open spec fn joined_lines(extra: Seq<Seq<char>>) -> Seq<u8>
    decreases extra.len(),
{
    if extra.len() == 0 {
        Seq::empty()
    } else if extra.len() == 1 {
        encode_utf8(extra[0])
    } else {
        encode_utf8(extra[0]) + encode_utf8("\n"@) + joined_lines(
            extra.subrange(1, extra.len() as int),
        )
    }
}

/// Appends the bytes of a text to a buffer.
fn push_str_bytes(out: &mut Vec<u8>, s: &str)
    ensures
        final(out)@ == old(out)@ + encode_utf8(s@),
{
    out.extend_from_slice(s.as_bytes());
}

/// The composite that places the Nix configuration: it ensures the
/// configuration directory exists and then writes the configuration file
/// into it, and undoes the two in the opposite order.
pub struct PlaceNixConfiguration;

impl PlaceNixConfiguration {
    /// The stable tag of this kind.
    pub fn action_tag() -> (t: ActionTag)
        ensures
            t == ActionTag::PlaceNixConfiguration,
    {
        ActionTag::PlaceNixConfiguration
    }

    /// Plans the composite: a directory for the configuration, then the
    /// configuration file itself, generated from the build group name,
    /// the extra lines, and the version injected by the caller.  Touches
    /// nothing, and always succeeds: both child paths are fixed and
    /// nonempty.
    pub fn plan(nix_build_group_name: String, extra_conf: Vec<String>, version: String) -> (r:
        Result<StatefulAction, ActionError>)
        ensures
            (r matches Ok(sa) && sa@ == PlannedView {
                action: ActionView::Composite {
                    tag: ActionTag::PlaceNixConfiguration,
                    children: seq![
                        PlannedView {
                            action: ActionView::CreateDirectory {
                                path: encode_utf8("/etc/nix"@),
                                mode: 0o755,
                            },
                            state: ActionState::NotStarted,
                        },
                        PlannedView {
                            action: ActionView::CreateFile {
                                path: encode_utf8("/etc/nix/nix.conf"@),
                                mode: 0o664,
                                content: nix_conf_content(
                                    nix_build_group_name@,
                                    extra_conf@.map_values(|s: String| s@),
                                    version@,
                                ),
                            },
                            state: ActionState::NotStarted,
                        },
                    ],
                },
                state: ActionState::NotStarted,
            }),
    {
        let mut content: Vec<u8> = Vec::new();
        push_str_bytes(&mut content, "# Generated by the Nix installer, version ");
        push_str_bytes(&mut content, version.as_str());
        push_str_bytes(&mut content, ".\n\n");
        append_joined_lines(&mut content, &extra_conf);
        push_str_bytes(&mut content, "\n\nbuild-users-group = ");
        push_str_bytes(&mut content, nix_build_group_name.as_str());
        push_str_bytes(
            &mut content,
            "\n\nexperimental-features = nix-command flakes\n\nauto-optimise-store = true\n\nbash-prompt-prefix = (nix:$name)\\040\n\nextra-nix-path = nixpkgs=flake:nixpkgs\n",
        );
        proof {
            assert(content@ =~= nix_conf_content(
                nix_build_group_name@,
                extra_conf@.map_values(|s: String| s@),
                version@,
            ));
        }
        let dir_path = vstd::slice::slice_to_vec("/etc/nix".as_bytes());
        let file_path = vstd::slice::slice_to_vec("/etc/nix/nix.conf".as_bytes());
        proof {
            reveal_strlit("/etc/nix");
            reveal_strlit("/etc/nix/nix.conf");
            lemma_encode_utf8_nonempty("/etc/nix"@);
            lemma_encode_utf8_nonempty("/etc/nix/nix.conf"@);
            assert(dir_path@ =~= encode_utf8("/etc/nix"@));
            assert(file_path@ =~= encode_utf8("/etc/nix/nix.conf"@));
        }
        let create_directory = match CreateDirectory::plan(dir_path, 0o755) {
            Ok(sa) => sa,
            Err(e) => {
                return Err(ActionError::child(ActionTag::CreateDirectory, e));
            },
        };
        let create_file = match CreateFile::plan(file_path, 0o664, content) {
            Ok(sa) => sa,
            Err(e) => {
                return Err(ActionError::child(ActionTag::CreateFile, e));
            },
        };
        let ghost dir_planned = create_directory;
        let ghost file_planned = create_file;
        let mut children: Vec<StatefulAction> = Vec::new();
        children.push(create_directory);
        children.push(create_file);
        let ghost children_view = children@;
        let r = plan_composite(ActionTag::PlaceNixConfiguration, children);
        proof {
            crate::action::lemma_view_children_elems(children_view);
            assert(children_view =~= seq![dir_planned, file_planned]);
            if r is Ok {
                let sa = r->Ok_0;
                {
                    assert(sa@.action->Composite_children =~= seq![
                        PlannedView {
                            action: ActionView::CreateDirectory {
                                path: encode_utf8("/etc/nix"@),
                                mode: 0o755,
                            },
                            state: ActionState::NotStarted,
                        },
                        PlannedView {
                            action: ActionView::CreateFile {
                                path: encode_utf8("/etc/nix/nix.conf"@),
                                mode: 0o664,
                                content: nix_conf_content(
                                    nix_build_group_name@,
                                    extra_conf@.map_values(|s: String| s@),
                                    version@,
                                ),
                            },
                            state: ActionState::NotStarted,
                        },
                    ]);
                }
            }
        }
        r
    }
}

/// Appends the extra lines, joined by line breaks.
fn append_joined_lines(out: &mut Vec<u8>, extra: &Vec<String>)
    ensures
        final(out)@ == old(out)@ + joined_lines(extra@.map_values(|s: String| s@)),
{
    let ghost lines = extra@.map_values(|s: String| s@);
    let n = extra.len();
    let mut i: usize = 0;
    proof {
        assert(out@ =~= old(out)@ + joined_upto(lines, 0));
    }
    while i < n
        invariant
            i <= n,
            n == extra@.len(),
            lines == extra@.map_values(|s: String| s@),
            out@ == old(out)@ + joined_upto(lines, i as int),
        decreases n - i,
    {
        if i > 0 {
            push_str_bytes(out, "\n");
        }
        push_str_bytes(out, extra[i].as_str());
        proof {
            assert(lines[i as int] == extra@[i as int]@);
            lemma_joined_upto_step(lines, i as int);
            assert(out@ =~= old(out)@ + joined_upto(lines, i as int + 1));
        }
        i += 1;
    }
    proof {
        lemma_joined_upto_all(lines);
    }
}

/// The join of the first `i` lines.
spec fn joined_upto(lines: Seq<Seq<char>>, i: int) -> Seq<u8>
    decreases i,
{
    if i <= 0 {
        Seq::empty()
    } else if i == 1 {
        encode_utf8(lines[0])
    } else {
        joined_upto(lines, i - 1) + encode_utf8("\n"@) + encode_utf8(lines[i - 1])
    }
}

/// One more line extends the join by a break and the line; the first
/// line starts it.
proof fn lemma_joined_upto_step(lines: Seq<Seq<char>>, i: int)
    requires
        0 <= i < lines.len(),
    ensures
        i == 0 ==> joined_upto(lines, 1) == joined_upto(lines, 0) + encode_utf8(lines[0]),
        i > 0 ==> joined_upto(lines, i + 1) == joined_upto(lines, i) + encode_utf8("\n"@)
            + encode_utf8(lines[i]),
{
    if i == 0 {
        assert(joined_upto(lines, 0) + encode_utf8(lines[0]) =~= encode_utf8(lines[0]));
    }
}

/// The join of all lines is the join of their first-to-last walk.
proof fn lemma_joined_upto_all(lines: Seq<Seq<char>>)
    ensures
        joined_upto(lines, lines.len() as int) == joined_lines(lines),
    decreases lines.len(),
{
    let n = lines.len() as int;
    if n > 1 {
        let rest = lines.subrange(1, n);
        lemma_joined_upto_all(rest);
        lemma_joined_shift(lines, n);
    }
}

/// Walking `lines` up to `i` equals walking the tail up to `i - 1`,
/// prefixed by the first line and a break.
proof fn lemma_joined_shift(lines: Seq<Seq<char>>, i: int)
    requires
        2 <= i <= lines.len(),
    ensures
        joined_upto(lines, i) == encode_utf8(lines[0]) + encode_utf8("\n"@) + joined_upto(
            lines.subrange(1, lines.len() as int),
            i - 1,
        ),
    decreases i,
{
    let rest = lines.subrange(1, lines.len() as int);
    if i == 2 {
        assert(joined_upto(lines, 2) == joined_upto(lines, 1) + encode_utf8("\n"@)
            + encode_utf8(lines[1]));
        assert(encode_utf8(lines[0]) + encode_utf8("\n"@) + joined_upto(rest, 1)
            =~= joined_upto(lines, 2));
    } else {
        lemma_joined_shift(lines, i - 1);
        assert(rest[i - 2] == lines[i - 1]);
        assert(encode_utf8(lines[0]) + encode_utf8("\n"@) + joined_upto(rest, i - 1)
            =~= joined_upto(lines, i));
    }
}

} // verus!
