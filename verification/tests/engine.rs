use nix_actions::action::{ActionState, StatefulAction};
use nix_actions::codec::serialize_plan;
use nix_actions::engine::execute_plan;
use nix_actions::error::{ActionError, LeafError};
use nix_actions::plan::{plan_composite, CreateDirectory, CreateFile};
use nix_actions::system::{FileSystem, FsEntry};
use nix_actions::tag::ActionTag;

fn dir(path: &str, mode: u32) -> StatefulAction {
    CreateDirectory::plan(path.as_bytes().to_vec(), mode).unwrap()
}

fn file(path: &str, mode: u32, content: &str) -> StatefulAction {
    CreateFile::plan(path.as_bytes().to_vec(), mode, content.as_bytes().to_vec()).unwrap()
}

fn composite(children: Vec<StatefulAction>) -> StatefulAction {
    plan_composite(ActionTag::PlaceNixConfiguration, children).unwrap()
}

#[test]
fn execute_creates_directory_and_file() {
    let mut fs = FileSystem::new();
    let mut plan = composite(vec![dir("/a", 0o755), file("/a/f", 0o644, "hi")]);
    assert!(plan.try_execute(&mut fs).is_ok());
    assert_eq!(plan.state, ActionState::Completed);
    assert_eq!(
        fs.get(&b"/a".to_vec()),
        Some(&FsEntry::Dir { mode: 0o755 })
    );
    assert_eq!(
        fs.get(&b"/a/f".to_vec()),
        Some(&FsEntry::File { mode: 0o644, content: b"hi".to_vec() })
    );
}

#[test]
fn try_execute_twice_is_idempotent() {
    let mut fs = FileSystem::new();
    let mut plan = composite(vec![dir("/a", 0o755), file("/a/f", 0o644, "hi")]);
    assert!(plan.try_execute(&mut fs).is_ok());
    let fs_after = fs.clone();
    let plan_after = serialize_plan(&plan);
    assert!(plan.try_execute(&mut fs).is_ok());
    assert_eq!(fs, fs_after);
    assert_eq!(serialize_plan(&plan), plan_after);
}

#[test]
fn try_execute_twice_after_failure_fails_the_same_way() {
    let mut fs = FileSystem::new();
    let mut plan = composite(vec![dir("/a", 0o755), file("/nodir/f", 0o644, "x")]);
    let e1 = plan.try_execute(&mut fs).unwrap_err();
    let fs_after = fs.clone();
    let plan_after = serialize_plan(&plan);
    let e2 = plan.try_execute(&mut fs).unwrap_err();
    assert_eq!(e1, e2);
    assert_eq!(fs, fs_after);
    assert_eq!(serialize_plan(&plan), plan_after);
}

#[test]
fn revert_restores_the_filesystem() {
    let mut fs = FileSystem::new();
    fs.insert(b"/keep".to_vec(), FsEntry::Dir { mode: 0o700 });
    let before = fs.clone();
    let mut plan = composite(vec![dir("/a", 0o755), file("/a/f", 0o644, "hi")]);
    assert!(plan.try_execute(&mut fs).is_ok());
    assert!(plan.try_revert(&mut fs).is_ok());
    assert_eq!(fs, before);
    assert_eq!(plan.state, ActionState::Reverted);
}

#[test]
fn execution_observes_declared_order() {
    // the file can only be created once the directory exists, so success
    // of the whole composite shows the declared order was followed
    let mut fs = FileSystem::new();
    let mut plan = composite(vec![
        dir("/d", 0o755),
        file("/d/one", 0o644, "1"),
        file("/d/two", 0o644, "2"),
    ]);
    assert!(plan.try_execute(&mut fs).is_ok());
    assert!(fs.contains(&b"/d/one".to_vec()));
    assert!(fs.contains(&b"/d/two".to_vec()));
    assert!(plan.try_revert(&mut fs).is_ok());
    assert!(!fs.contains(&b"/d".to_vec()));
}

#[test]
fn partial_failure_stops_and_cleans_up() {
    let mut fs = FileSystem::new();
    let a = dir("/a", 0o755);
    let b = file("/nodir/f", 0o644, "x");
    let c = file("/a/c", 0o644, "y");
    let mut plan = composite(vec![a, b, c]);
    let err = plan.try_execute(&mut fs).unwrap_err();
    // the failure is attributed to the failing child
    assert_eq!(err.tag_chain(), vec![ActionTag::CreateFile]);
    // the first child is applied, the third was never touched
    assert!(fs.contains(&b"/a".to_vec()));
    assert!(!fs.contains(&b"/a/c".to_vec()));
    // a subsequent full revert undoes the first child, and only it
    assert!(plan.try_revert(&mut fs).is_ok());
    assert_eq!(fs, FileSystem::new());
}

#[test]
fn grandchild_failure_surfaces_with_three_tags() {
    let mut fs = FileSystem::new();
    let grandchild = file("/nodir/f", 0o644, "x");
    let mid = composite(vec![grandchild]);
    let mut root = composite(vec![mid]);
    let failure = execute_plan(&mut root, &mut fs).unwrap_err();
    let chain = failure.error.tag_chain();
    assert_eq!(chain.len(), 3);
    assert_eq!(
        chain,
        vec![
            ActionTag::PlaceNixConfiguration,
            ActionTag::PlaceNixConfiguration,
            ActionTag::CreateFile,
        ]
    );
    assert!(failure.revert_error.is_none());
    // the rollback already ran: nothing is left behind
    assert_eq!(fs, FileSystem::new());
}

#[test]
fn execute_plan_succeeds_and_applies() {
    let mut fs = FileSystem::new();
    let mut root = composite(vec![dir("/a", 0o755)]);
    assert!(execute_plan(&mut root, &mut fs).is_ok());
    assert!(fs.contains(&b"/a".to_vec()));
}

#[test]
fn path_already_exists_is_reported() {
    let mut fs = FileSystem::new();
    fs.insert(b"/a".to_vec(), FsEntry::Dir { mode: 0o700 });
    let mut plan = dir("/a", 0o755);
    let err = plan.try_execute(&mut fs).unwrap_err();
    assert_eq!(
        err,
        ActionError::Leaf {
            error: LeafError::PathAlreadyExists { path: b"/a".to_vec() }
        }
    );
}

#[test]
fn parent_directory_missing_is_reported() {
    let mut fs = FileSystem::new();
    let mut plan = file("/nodir/f", 0o644, "x");
    let err = plan.try_execute(&mut fs).unwrap_err();
    assert_eq!(
        err,
        ActionError::Leaf {
            error: LeafError::ParentDirectoryMissing {
                path: b"/nodir/f".to_vec(),
                parent: b"/nodir".to_vec(),
            }
        }
    );
}

#[test]
fn try_revert_twice_is_idempotent() {
    let mut fs = FileSystem::new();
    let mut plan = composite(vec![dir("/a", 0o755), file("/a/f", 0o644, "hi")]);
    assert!(plan.try_execute(&mut fs).is_ok());
    assert!(plan.try_revert(&mut fs).is_ok());
    let fs_after = fs.clone();
    let plan_after = serialize_plan(&plan);
    assert!(plan.try_revert(&mut fs).is_ok());
    assert_eq!(fs, fs_after);
    assert_eq!(serialize_plan(&plan), plan_after);
}

#[test]
fn revert_of_never_run_leaf_is_a_no_op() {
    let mut fs = FileSystem::new();
    fs.insert(b"/a".to_vec(), FsEntry::Dir { mode: 0o700 });
    let before = fs.clone();
    let mut plan = dir("/a", 0o755);
    assert!(plan.try_revert(&mut fs).is_ok());
    assert_eq!(fs, before);
    assert_eq!(plan.state, ActionState::NotStarted);
}
