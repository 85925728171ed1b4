use envlock::profile::{SymlinkOnExist, SymlinkProfile};
use envlock::symlink::{SymlinkError, SymlinkInjection, TargetState};

fn s(x: &str) -> String {
    x.to_string()
}

fn link(on_exist: SymlinkOnExist) -> SymlinkInjection {
    SymlinkInjection::new(SymlinkProfile {
        enabled: true,
        source: s("/tmp/source.md"),
        target: s("/tmp/AGENTS.md"),
        on_exist,
        cleanup: true,
    })
}

#[test]
fn existing_file_in_error_mode_is_refused() {
    let err = link(SymlinkOnExist::Error).plan_register(&TargetState::Other).err().unwrap();
    assert!(err.message().contains("refusing to overwrite existing file"));
    assert!(matches!(err, SymlinkError::TargetExists { .. }));
}

#[test]
fn register_plans() {
    assert!(matches!(link(SymlinkOnExist::Error).plan_register(&TargetState::Absent), Ok(false)));
    assert!(matches!(link(SymlinkOnExist::Replace).plan_register(&TargetState::Other), Ok(true)));
    assert!(matches!(
        link(SymlinkOnExist::Replace).plan_register(&TargetState::Symlink { points_to: s("/x") }),
        Ok(true)
    ));
    assert!(matches!(
        link(SymlinkOnExist::Replace).plan_register(&TargetState::Directory),
        Err(SymlinkError::TargetIsDirectory { .. })
    ));
}

#[test]
fn shutdown_removes_only_the_configured_link() {
    let l = link(SymlinkOnExist::Error);
    assert!(l.plan_shutdown(&TargetState::Symlink { points_to: s("/tmp/source.md") }).is_ok());
    let other = l.plan_shutdown(&TargetState::Symlink { points_to: s("/tmp/other.md") }).err().unwrap();
    assert!(other.message().contains("refusing to remove symlink with unexpected target"));
    let file = l.plan_shutdown(&TargetState::Other).err().unwrap();
    assert!(file.message().contains("refusing to remove non-symlink"));
    assert!(l.plan_shutdown(&TargetState::Directory).is_err());
    assert!(matches!(l.plan_shutdown(&TargetState::Absent), Err(SymlinkError::Io { .. })));
}

#[test]
fn cleanup_is_owed_only_for_a_link_placed_this_run() {
    let mut l = link(SymlinkOnExist::Error);
    assert!(!l.owes_cleanup());
    l.link_placed();
    assert!(l.owes_cleanup());
    l.shut_down(true);
    assert!(!l.owes_cleanup());
    let mut keep = SymlinkInjection::new(SymlinkProfile {
        enabled: true,
        source: s("/a"),
        target: s("/b"),
        on_exist: SymlinkOnExist::Error,
        cleanup: false,
    });
    keep.link_placed();
    assert!(!keep.owes_cleanup());
}

#[test]
fn symlink_validation_errors() {
    let l = link(SymlinkOnExist::Error);
    assert!(l.validate(true).is_ok());
    assert!(l.validate(false).err().unwrap().message().contains("source does not exist: /tmp/source.md"));
    let blank = SymlinkInjection::new(SymlinkProfile {
        enabled: true,
        source: s(" "),
        target: s("/b"),
        on_exist: SymlinkOnExist::default(),
        cleanup: true,
    });
    assert!(matches!(blank.validate(true), Err(SymlinkError::EmptySource)));
}
