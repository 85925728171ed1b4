use std::collections::BTreeMap;

use envlock::ambient::EnvSnapshot;
use envlock::command::CommandOutput;
use envlock::injections::{Lifecycle, Reply, Request};
use envlock::profile::{CommandProfile, EnvOpProfile, EnvProfile, InjectionProfile, SymlinkOnExist, SymlinkProfile};
use envlock::symlink::TargetState;

fn s(x: &str) -> String {
    x.to_string()
}

/// A stand-in for the filesystem and the process table, with a log of what
/// was asked of it.
struct Fake {
    sources: Vec<String>,
    entries: BTreeMap<String, TargetState>,
    fail_place: Vec<String>,
    /// What each command line prints and how it exits.
    commands: BTreeMap<String, (Vec<u8>, i32)>,
    log: Vec<String>,
}

impl Fake {
    fn new() -> Self {
        Fake {
            sources: Vec::new(),
            entries: BTreeMap::new(),
            fail_place: Vec::new(),
            commands: BTreeMap::new(),
            log: Vec::new(),
        }
    }
}

fn drive(lc: &mut Lifecycle, fake: &mut Fake) {
    loop {
        match lc.next_request() {
            Request::Finished => return,
            Request::Work => {
                fake.log.push(format!("work {}", lc.exports().len()));
                lc.reply(Reply::Done(Ok(())));
            }
            Request::CheckSource { index, source } => {
                fake.log.push(format!("check {index}"));
                lc.reply(Reply::SourceExists(fake.sources.contains(&source)));
            }
            Request::ProbeTarget { index, target } => {
                fake.log.push(format!("probe {index}"));
                let state = fake.entries.get(&target).cloned().unwrap_or(TargetState::Absent);
                lc.reply(Reply::Probed(Ok(state)));
            }
            Request::PlaceLink { index, source, target, replace_existing } => {
                fake.log.push(format!("place {index} {replace_existing}"));
                if fake.fail_place.contains(&target) {
                    lc.reply(Reply::Done(Err(s("permission denied"))));
                } else {
                    fake.entries.insert(target, TargetState::Symlink { points_to: source });
                    lc.reply(Reply::Done(Ok(())));
                }
            }
            Request::RemoveLink { index, target } => {
                fake.log.push(format!("remove {index}"));
                fake.entries.remove(&target);
                lc.reply(Reply::Done(Ok(())));
            }
            Request::RunCommand { index, program, args } => {
                fake.log.push(format!("run {index}"));
                let line = format!("{} {}", program, args.join(" "));
                let run = match fake.commands.get(&line) {
                    Some((stdout, code)) => Ok(CommandOutput {
                        success: *code == 0,
                        code: Some(*code),
                        stdout: stdout.clone(),
                    }),
                    None => Err(format!("no such program: {program}")),
                };
                lc.reply(Reply::Ran(run));
            }
        }
    }
}

fn execute_lifecycle(specs: Vec<InjectionProfile>, fake: &mut Fake) -> Result<Vec<(String, String)>, String> {
    let mut lc = Lifecycle::new(specs, EnvSnapshot::empty(), s("/tmp/envlock-res"));
    drive(&mut lc, fake);
    lc.finish()
}

fn env_spec(enabled: bool, vars: &[(&str, &str)]) -> InjectionProfile {
    InjectionProfile::Env(EnvProfile {
        enabled,
        vars: vars.iter().map(|(k, v)| (s(k), s(v))).collect(),
        ops: Vec::new(),
    })
}

fn link_spec(source: &str, target: &str, on_exist: SymlinkOnExist) -> InjectionProfile {
    InjectionProfile::Symlink(SymlinkProfile {
        enabled: true,
        source: s(source),
        target: s(target),
        on_exist,
        cleanup: true,
    })
}

#[test]
fn skip_disabled_env_injection() {
    let specs = vec![env_spec(false, &[("A", "1")]), env_spec(true, &[("B", "2")])];
    let exports = execute_lifecycle(specs, &mut Fake::new()).expect("lifecycle should pass");
    assert_eq!(exports.len(), 1);
    assert!(exports.contains(&(s("B"), s("2"))));
}

#[test]
fn fail_validation_when_env_key_is_empty() {
    let specs = vec![env_spec(true, &[("   ", "1")])];
    let err = execute_lifecycle(specs, &mut Fake::new()).expect_err("empty env key should fail");
    assert!(err.contains("validation failed"));
}

#[test]
fn command_injection_exports_values() {
    let specs = vec![InjectionProfile::Command(CommandProfile {
        enabled: true,
        program: s("bash"),
        args: vec![s("-lc"), s("printf \"export CMD_A='1'\\nCMD_B=2\\n\"")],
    })];
    let mut fake = Fake::new();
    fake.commands.insert(
        s("bash -lc printf \"export CMD_A='1'\\nCMD_B=2\\n\""),
        (b"export CMD_A='1'\nCMD_B=2\n".to_vec(), 0),
    );
    let exports = execute_lifecycle(specs, &mut fake).expect("command lifecycle should pass");
    assert!(exports.contains(&(s("CMD_A"), s("1"))));
    assert!(exports.contains(&(s("CMD_B"), s("2"))));
}

#[test]
fn single_env_profile_exports_its_variable() {
    let exports = execute_lifecycle(vec![env_spec(true, &[("A", "1")])], &mut Fake::new()).unwrap();
    assert_eq!(exports, vec![(s("A"), s("1"))]);
}

#[test]
fn disabled_injections_are_never_staged() {
    let mut fake = Fake::new();
    let specs = vec![
        InjectionProfile::Symlink(SymlinkProfile {
            enabled: false,
            source: s("/src"),
            target: s("/dst"),
            on_exist: SymlinkOnExist::Error,
            cleanup: true,
        }),
        InjectionProfile::Command(CommandProfile { enabled: false, program: s("false"), args: vec![] }),
        env_spec(false, &[("A", "1")]),
    ];
    let exports = execute_lifecycle(specs, &mut fake).unwrap();
    assert!(exports.is_empty());
    assert_eq!(fake.log, vec![s("work 0")]);
}

#[test]
fn symlink_is_placed_and_removed_around_the_work() {
    let mut fake = Fake::new();
    fake.sources.push(s("/src/agents.md"));
    let specs = vec![link_spec("/src/agents.md", "/home/.codex/AGENTS.md", SymlinkOnExist::Error)];
    let exports = execute_lifecycle(specs, &mut fake).unwrap();
    assert!(exports.is_empty());
    assert_eq!(
        fake.log,
        vec![s("check 0"), s("probe 0"), s("place 0 false"), s("work 0"), s("probe 0"), s("remove 0")]
    );
    assert!(fake.entries.is_empty());
}

#[test]
fn existing_target_in_error_mode_fails_registration_without_a_link() {
    let mut fake = Fake::new();
    fake.sources.push(s("/src"));
    fake.entries.insert(s("/dst"), TargetState::Other);
    let err = execute_lifecycle(vec![link_spec("/src", "/dst", SymlinkOnExist::Error)], &mut fake)
        .expect_err("existing target should fail");
    assert!(err.contains("refusing to overwrite existing file"));
    assert!(err.contains("symlink registration failed"));
    assert!(!fake.log.iter().any(|l| l.starts_with("place")));
    assert!(matches!(fake.entries.get("/dst"), Some(TargetState::Other)));
}

#[test]
fn replace_mode_replaces_a_file_but_not_a_directory() {
    let mut fake = Fake::new();
    fake.sources.push(s("/src"));
    fake.entries.insert(s("/file"), TargetState::Other);
    fake.entries.insert(s("/dir"), TargetState::Directory);
    execute_lifecycle(vec![link_spec("/src", "/file", SymlinkOnExist::Replace)], &mut fake).unwrap();
    assert!(fake.log.contains(&s("place 0 true")));
    let err = execute_lifecycle(vec![link_spec("/src", "/dir", SymlinkOnExist::Replace)], &mut fake)
        .expect_err("a directory is never replaced");
    assert!(err.contains("refusing to replace directory target"));
}

#[test]
fn missing_source_fails_validation_before_any_change() {
    let mut fake = Fake::new();
    let err = execute_lifecycle(vec![link_spec("/nowhere", "/dst", SymlinkOnExist::Error)], &mut fake)
        .expect_err("missing source should fail");
    assert!(err.contains("symlink validation failed: source does not exist: /nowhere"));
    assert_eq!(fake.log, vec![s("check 0")]);
}

#[test]
fn registration_failure_rolls_back_earlier_injections_in_reverse() {
    let mut fake = Fake::new();
    fake.sources.push(s("/src"));
    fake.fail_place.push(s("/d"));
    let specs = vec![
        link_spec("/src", "/a", SymlinkOnExist::Error),
        env_spec(true, &[("A", "1")]),
        link_spec("/src", "/b", SymlinkOnExist::Error),
        link_spec("/src", "/d", SymlinkOnExist::Error),
        link_spec("/src", "/e", SymlinkOnExist::Error),
    ];
    let err = execute_lifecycle(specs, &mut fake).expect_err("fourth registration fails");
    assert!(err.contains("symlink registration failed: permission denied"));
    let after_failure: Vec<String> = fake
        .log
        .iter()
        .skip_while(|l| l.as_str() != "place 3 false")
        .skip(1)
        .cloned()
        .collect();
    assert_eq!(after_failure, vec![s("probe 2"), s("remove 2"), s("probe 0"), s("remove 0")]);
    assert!(!fake
        .log
        .iter()
        .any(|l| l == "probe 4" || l.starts_with("place 4") || l == "remove 4" || l.starts_with("work")));
    assert!(fake.entries.is_empty());
}

#[test]
fn repointed_link_is_left_alone_at_shutdown() {
    let mut fake = Fake::new();
    fake.sources.push(s("/src"));
    let mut lc = Lifecycle::new(
        vec![link_spec("/src", "/dst", SymlinkOnExist::Error)],
        EnvSnapshot::empty(),
        s("/res"),
    );
    loop {
        match lc.next_request() {
            Request::CheckSource { .. } => lc.reply(Reply::SourceExists(true)),
            Request::ProbeTarget { .. } => {
                let state = fake.entries.get("/dst").cloned().unwrap_or(TargetState::Absent);
                lc.reply(Reply::Probed(Ok(state)))
            }
            Request::PlaceLink { .. } => {
                fake.entries.insert(s("/dst"), TargetState::Symlink { points_to: s("/src") });
                lc.reply(Reply::Done(Ok(())))
            }
            Request::Work => {
                fake.entries.insert(s("/dst"), TargetState::Symlink { points_to: s("/elsewhere") });
                lc.reply(Reply::Done(Ok(())))
            }
            Request::RemoveLink { .. } => panic!("a repointed link must not be removed"),
            Request::RunCommand { .. } => panic!("no command here"),
            Request::Finished => break,
        }
    }
    let err = lc.finish().expect_err("shutdown refuses");
    assert!(err.contains("refusing to remove symlink with unexpected target"));
}

#[test]
fn failed_work_and_failed_shutdown_are_both_reported() {
    let mut lc = Lifecycle::new(
        vec![link_spec("/src", "/dst", SymlinkOnExist::Error)],
        EnvSnapshot::empty(),
        s("/res"),
    );
    loop {
        match lc.next_request() {
            Request::CheckSource { .. } => lc.reply(Reply::SourceExists(true)),
            Request::ProbeTarget { .. } => lc.reply(Reply::Probed(Ok(TargetState::Absent))),
            Request::PlaceLink { .. } => lc.reply(Reply::Done(Ok(()))),
            Request::Work => lc.reply(Reply::Done(Err(s("child failed")))),
            Request::RemoveLink { .. } => panic!("nothing to remove"),
            Request::RunCommand { .. } => panic!("no command here"),
            Request::Finished => break,
        }
    }
    let err = lc.finish().expect_err("both fail");
    assert!(err.starts_with("child failed; also failed shutdown: symlink shutdown failed"));
}

#[test]
fn failing_command_is_an_export_error() {
    let specs = vec![InjectionProfile::Command(CommandProfile {
        enabled: true,
        program: s("bash"),
        args: vec![s("-c"), s("exit 3")],
    })];
    let mut fake = Fake::new();
    fake.commands.insert(s("bash -c exit 3"), (Vec::new(), 3));
    let err = execute_lifecycle(specs, &mut fake).expect_err("non-zero exit");
    assert!(err.contains("command export failed: command exited with non-zero status: 3"));
}

#[test]
fn env_ops_see_resource_root() {
    let specs = vec![InjectionProfile::Env(EnvProfile {
        enabled: true,
        vars: vec![],
        ops: vec![EnvOpProfile::SetValue { key: s("K"), value: s("resource://k.yaml") }],
    })];
    let exports = execute_lifecycle(specs, &mut Fake::new()).unwrap();
    assert_eq!(exports, vec![(s("K"), s("/tmp/envlock-res/k.yaml"))]);
}

#[test]
fn command_output_must_be_utf8_and_program_must_exist() {
    let specs = |program: &str| {
        vec![InjectionProfile::Command(CommandProfile { enabled: true, program: s(program), args: vec![] })]
    };
    let mut fake = Fake::new();
    fake.commands.insert(s("bin "), (vec![0xff, 0xfe], 0));
    let err = execute_lifecycle(specs("bin"), &mut fake).expect_err("not UTF-8");
    assert!(err.contains("command stdout is not valid UTF-8"));
    let err = execute_lifecycle(specs("ghost"), &mut fake).expect_err("no program");
    assert!(err.contains("failed to run command: ghost"));
    let err = execute_lifecycle(specs("  "), &mut fake).expect_err("blank program");
    assert!(err.contains("command validation failed: program must not be empty"));
}

#[test]
fn failures_are_tagged_with_kind_and_stage() {
    let err = execute_lifecycle(vec![env_spec(true, &[("   ", "1")])], &mut Fake::new()).unwrap_err();
    assert_eq!(err, "env validation failed: env var key must not be empty");
    let mut fake = Fake::new();
    fake.sources.push(s("/src"));
    fake.entries.insert(s("/dst"), TargetState::Other);
    let err = execute_lifecycle(vec![link_spec("/src", "/dst", SymlinkOnExist::Error)], &mut fake).unwrap_err();
    assert_eq!(err, "symlink registration failed: refusing to overwrite existing file: /dst");
}

#[test]
fn a_failed_shutdown_does_not_stop_the_pass() {
    let specs = vec![
        link_spec("/src", "/a", SymlinkOnExist::Error),
        link_spec("/src", "/b", SymlinkOnExist::Error),
    ];
    let mut lc = Lifecycle::new(specs, EnvSnapshot::empty(), s("/res"));
    let mut log: Vec<String> = Vec::new();
    loop {
        match lc.next_request() {
            Request::CheckSource { .. } => lc.reply(Reply::SourceExists(true)),
            Request::ProbeTarget { index, target } => {
                log.push(format!("probe {index}"));
                let state = if log.iter().filter(|l| l.starts_with("probe")).count() <= 2 {
                    TargetState::Absent
                } else if target == "/b" {
                    TargetState::Symlink { points_to: s("/elsewhere") }
                } else {
                    TargetState::Symlink { points_to: s("/src") }
                };
                lc.reply(Reply::Probed(Ok(state)))
            }
            Request::PlaceLink { .. } => lc.reply(Reply::Done(Ok(()))),
            Request::Work => lc.reply(Reply::Done(Ok(()))),
            Request::RemoveLink { index, .. } => {
                log.push(format!("remove {index}"));
                lc.reply(Reply::Done(Ok(())))
            }
            Request::RunCommand { .. } => panic!("no command here"),
            Request::Finished => break,
        }
    }
    assert_eq!(log, vec![s("probe 0"), s("probe 1"), s("probe 1"), s("probe 0"), s("remove 0")]);
    let err = lc.finish().expect_err("the second link was repointed");
    assert_eq!(
        err,
        "symlink shutdown failed: refusing to remove symlink with unexpected target: /b"
    );
}

#[test]
fn exit_codes_are_written_in_decimal() {
    let specs = vec![InjectionProfile::Command(CommandProfile {
        enabled: true,
        program: s("tool"),
        args: vec![],
    })];
    let mut fake = Fake::new();
    fake.commands.insert(s("tool "), (Vec::new(), -12));
    let err = execute_lifecycle(specs, &mut fake).expect_err("negative exit");
    assert_eq!(err, "command export failed: command exited with non-zero status: -12");
}
