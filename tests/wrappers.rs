use envlock::loader::{normalize_path, normalize_symlink_paths, parent_dir};
use envlock::profile::{EnvProfile, InjectionProfile, Profile, SymlinkOnExist, SymlinkProfile};
use envlock::self_update::{check_digest, verify_archive_checksum};

fn s(x: &str) -> String {
    x.to_string()
}

#[test]
fn archive_digest_is_sha256_hex() {
    let abc = "ba7816bf8f01cfea414140de5dae2223b00361a396177a9cb410ff61f20015ad";
    assert!(verify_archive_checksum(b"abc", abc).is_ok());
    let err = verify_archive_checksum(b"abd", abc).err().unwrap();
    assert_eq!(err.expected, abc);
    assert_ne!(err.actual, abc);
    assert_eq!(err.actual.len(), 64);
    assert!(err.message("a.tar.gz").starts_with("checksum mismatch for a.tar.gz (expected "));
    assert!(check_digest(s("x"), "x").is_ok());
}

#[test]
fn tilde_and_relative_paths_are_made_absolute() {
    let home = Some(s("/home/tester"));
    assert_eq!(normalize_path("~/.codex/AGENTS.md", "/p", &home), "/home/tester/.codex/AGENTS.md");
    assert_eq!(normalize_path("~", "/p", &home), "/home/tester");
    assert_eq!(normalize_path("~other/x", "/p", &home), "/p/~other/x");
    assert_eq!(normalize_path("./fixtures/agents.md", "/p/q", &home), "/p/q/fixtures/agents.md");
    assert_eq!(normalize_path("../up.md", "/p/q", &home), "/p/up.md");
    assert_eq!(normalize_path("/abs/x", "/p", &home), "/abs/x");
    assert_eq!(normalize_path("~/x", "/p", &None), "/p/~/x");
}

#[test]
fn parent_directory_of_profile() {
    assert_eq!(parent_dir("/a/b/profile.json"), "/a/b");
    assert_eq!(parent_dir("/profile.json"), "/");
    assert_eq!(parent_dir("/a/b/"), "/a");
}

#[test]
fn only_symlink_paths_are_normalized() {
    let mut profile = Profile {
        injections: vec![
            InjectionProfile::Env(EnvProfile { enabled: true, vars: vec![(s("A"), s("./x"))], ops: vec![] }),
            InjectionProfile::Symlink(SymlinkProfile {
                enabled: true,
                source: s("./fixtures/agents.md"),
                target: s("~/.codex/AGENTS.md"),
                on_exist: SymlinkOnExist::Replace,
                cleanup: false,
            }),
        ],
    };
    normalize_symlink_paths("/work/profiles/dev.json", &mut profile, &Some(s("/home/t")));
    match &profile.injections[0] {
        InjectionProfile::Env(env) => assert_eq!(env.vars, vec![(s("A"), s("./x"))]),
        _ => panic!("expected env injection"),
    }
    match &profile.injections[1] {
        InjectionProfile::Symlink(link) => {
            assert_eq!(link.source, "/work/profiles/fixtures/agents.md");
            assert_eq!(link.target, "/home/t/.codex/AGENTS.md");
            assert_eq!(link.on_exist, SymlinkOnExist::Replace);
            assert!(!link.cleanup);
        }
        _ => panic!("expected symlink injection"),
    }
}
