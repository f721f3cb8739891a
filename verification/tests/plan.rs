use nix_actions::action::{Action, ActionState, StatefulAction};
use nix_actions::error::{ActionError, LeafError};
use nix_actions::plan::{plan_composite, CreateDirectory, CreateFile, PlaceNixConfiguration};
use nix_actions::system::{FileSystem, FsEntry};
use nix_actions::tag::ActionTag;

#[test]
fn empty_path_is_rejected_at_planning() {
    let err = CreateDirectory::plan(Vec::new(), 0o755).unwrap_err();
    assert_eq!(err, ActionError::Leaf { error: LeafError::EmptyPath });
    let err = CreateFile::plan(Vec::new(), 0o644, b"x".to_vec()).unwrap_err();
    assert_eq!(err, ActionError::Leaf { error: LeafError::EmptyPath });
}

#[test]
fn leaf_kind_tag_is_not_a_composite_kind() {
    let child = CreateDirectory::plan(b"/a".to_vec(), 0o755).unwrap();
    let err = plan_composite(ActionTag::CreateFile, vec![child]).unwrap_err();
    assert_eq!(
        err,
        ActionError::Leaf {
            error: LeafError::NotACompositeKind { tag: ActionTag::CreateFile }
        }
    );
}

#[test]
fn planning_touches_nothing_and_starts_fresh() {
    let plan = CreateDirectory::plan(b"/a".to_vec(), 0o755).unwrap();
    assert_eq!(plan.state, ActionState::NotStarted);
    assert_eq!(plan.action_tag(), ActionTag::CreateDirectory);
}

#[test]
fn place_nix_configuration_scenario() {
    let group = "nixbld".to_string();
    let extra = vec!["sandbox = true".to_string(), "cores = 4".to_string()];
    let version = "1.2.3".to_string();
    let mut plan =
        PlaceNixConfiguration::plan(group, extra, version).unwrap();
    assert_eq!(plan.action_tag(), ActionTag::PlaceNixConfiguration);

    let mut fs = FileSystem::new();
    assert!(plan.try_execute(&mut fs).is_ok());
    assert_eq!(
        fs.get(&b"/etc/nix".to_vec()),
        Some(&FsEntry::Dir { mode: 0o755 })
    );
    let expected = format!(
        "# Generated by the Nix installer, version 1.2.3.\n\n\
         sandbox = true\ncores = 4\n\n\
         build-users-group = nixbld\n\n\
         experimental-features = nix-command flakes\n\n\
         auto-optimise-store = true\n\n\
         bash-prompt-prefix = (nix:$name)\\040\n\n\
         extra-nix-path = nixpkgs=flake:nixpkgs\n"
    );
    assert_eq!(
        fs.get(&b"/etc/nix/nix.conf".to_vec()),
        Some(&FsEntry::File { mode: 0o664, content: expected.into_bytes() })
    );

    // a third party removed the file: reversion is still a clean no-op
    // for it, and the directory goes too
    fs.remove(&b"/etc/nix/nix.conf".to_vec());
    assert!(plan.try_revert(&mut fs).is_ok());
    assert_eq!(fs, FileSystem::new());
}

#[test]
fn generated_children_are_directory_then_file() {
    let plan = PlaceNixConfiguration::plan(
        "nixbld".to_string(),
        Vec::new(),
        "0.1".to_string(),
    )
    .unwrap();
    match &plan.action {
        Action::Composite { tag, children } => {
            assert_eq!(*tag, ActionTag::PlaceNixConfiguration);
            assert_eq!(children.len(), 2);
            assert_eq!(children[0].action_tag(), ActionTag::CreateDirectory);
            assert_eq!(children[1].action_tag(), ActionTag::CreateFile);
        },
        other => panic!("expected a composite, got {:?}", other),
    }
}

#[test]
fn descriptions_do_not_assume_execution() {
    let plan = PlaceNixConfiguration::plan(
        "nixbld".to_string(),
        Vec::new(),
        "0.1".to_string(),
    )
    .unwrap();
    let d = plan.execute_description();
    assert_eq!(d.len(), 1);
    assert_eq!(
        d[0].synopsis,
        "Place the Nix configuration in `/etc/nix/nix.conf`"
    );
    assert_eq!(
        d[0].explanation,
        "This file is read by the Nix daemon to set its configuration options at runtime."
    );
    let r = plan.revert_description();
    assert_eq!(r.len(), 1);
    assert_eq!(
        r[0].synopsis,
        "Remove the Nix configuration in `/etc/nix/nix.conf`"
    );

    let leaf = CreateDirectory::plan(b"/etc/nix".to_vec(), 0o755).unwrap();
    let d = leaf.execute_description();
    assert_eq!(d[0].synopsis, "Create a directory");
    assert_eq!(d[0].subject, b"/etc/nix".to_vec());
    assert_eq!(leaf.synopsis(), "Create a directory");
}

#[test]
fn empty_extra_conf_joins_to_nothing() {
    let mut plan = PlaceNixConfiguration::plan(
        "nixbld".to_string(),
        Vec::new(),
        "0.1".to_string(),
    )
    .unwrap();
    let mut fs = FileSystem::new();
    assert!(plan.try_execute(&mut fs).is_ok());
    match fs.get(&b"/etc/nix/nix.conf".to_vec()) {
        Some(FsEntry::File { content, .. }) => {
            let text = String::from_utf8(content.clone()).unwrap();
            assert!(text.starts_with(
                "# Generated by the Nix installer, version 0.1.\n\n\n\nbuild-users-group = nixbld"
            ));
        },
        other => panic!("expected the configuration file, got {:?}", other),
    }
}
