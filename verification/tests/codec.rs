use nix_actions::action::{ActionState, StatefulAction};
use nix_actions::codec::{deserialize_plan, serialize_plan};
use nix_actions::error::{ActionError, LeafError};
use nix_actions::plan::{plan_composite, CreateDirectory, CreateFile, PlaceNixConfiguration};
use nix_actions::system::FileSystem;
use nix_actions::tag::ActionTag;

fn sample_plan() -> StatefulAction {
    let a = CreateDirectory::plan(b"/etc/nix".to_vec(), 0o755).unwrap();
    let b = CreateFile::plan(b"/etc/nix/nix.conf".to_vec(), 0o664, b"x = y\n".to_vec()).unwrap();
    plan_composite(ActionTag::PlaceNixConfiguration, vec![a, b]).unwrap()
}

#[test]
fn round_trip_reproduces_the_tree() {
    let plan = sample_plan();
    let bytes = serialize_plan(&plan);
    let back = deserialize_plan(&bytes).unwrap();
    assert_eq!(back, plan);
}

#[test]
fn round_trip_preserves_completion_markers() {
    let mut fs = FileSystem::new();
    let mut plan = sample_plan();
    assert!(plan.try_execute(&mut fs).is_ok());
    assert_eq!(plan.state, ActionState::Completed);
    let bytes = serialize_plan(&plan);
    let back = deserialize_plan(&bytes).unwrap();
    assert_eq!(back, plan);
    assert_eq!(back.state, ActionState::Completed);
}

#[test]
fn round_trip_of_a_generated_plan() {
    let plan = PlaceNixConfiguration::plan(
        "nixbld".to_string(),
        vec!["sandbox = true".to_string()],
        "1.2.3".to_string(),
    )
    .unwrap();
    let bytes = serialize_plan(&plan);
    let back = deserialize_plan(&bytes).unwrap();
    assert_eq!(back, plan);
}

#[test]
fn resumed_plan_skips_completed_work() {
    let mut fs = FileSystem::new();
    let mut plan = sample_plan();
    assert!(plan.try_execute(&mut fs).is_ok());
    let fs_after = fs.clone();
    // persist, then resume in a fresh wrapper tree
    let bytes = serialize_plan(&plan);
    let mut resumed = deserialize_plan(&bytes).unwrap();
    assert!(resumed.try_execute(&mut fs).is_ok());
    assert_eq!(fs, fs_after);
}

#[test]
fn unknown_kind_code_is_refused() {
    let plan = sample_plan();
    let mut bytes = serialize_plan(&plan);
    // the kind code of the root follows its completion marker
    bytes[1] = 250;
    let err = deserialize_plan(&bytes).unwrap_err();
    assert_eq!(
        err,
        ActionError::Leaf {
            error: LeafError::UnknownActionKind { code: 250 }
        }
    );
}

#[test]
fn truncated_plan_is_refused() {
    let plan = sample_plan();
    let bytes = serialize_plan(&plan);
    let truncated = bytes[..bytes.len() - 1].to_vec();
    let err = deserialize_plan(&truncated).unwrap_err();
    assert_eq!(err, ActionError::Leaf { error: LeafError::MalformedPlan });
}

#[test]
fn trailing_bytes_are_refused() {
    let plan = sample_plan();
    let mut bytes = serialize_plan(&plan);
    bytes.push(0);
    let err = deserialize_plan(&bytes).unwrap_err();
    assert_eq!(err, ActionError::Leaf { error: LeafError::MalformedPlan });
}

#[test]
fn tag_strings_are_unique() {
    let tags = [
        ActionTag::CreateDirectory,
        ActionTag::CreateFile,
        ActionTag::PlaceNixConfiguration,
    ];
    for (i, a) in tags.iter().enumerate() {
        for (j, b) in tags.iter().enumerate() {
            if i != j {
                assert_ne!(a.as_str(), b.as_str());
            }
        }
    }
    assert_eq!(ActionTag::CreateDirectory.as_str(), "create_directory");
    assert_eq!(ActionTag::CreateFile.as_str(), "create_file");
    assert_eq!(
        ActionTag::PlaceNixConfiguration.as_str(),
        "place_nix_configuration"
    );
}
