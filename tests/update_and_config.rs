use envlock::config::{resolve_locations, RawEnv};
use envlock::preview::preview_env_keys;
use envlock::profile::{EnvOpProfile, EnvProfile};
use envlock::self_update::{
    find_asset, managed_install_binary_path_with_home, parse_checksum, parse_semver, release_tag,
    release_url, target_triple_for, ReleaseAsset,
};

fn s(x: &str) -> String {
    x.to_string()
}

#[test]
fn parse_semver_accepts_v_prefix() {
    let v = parse_semver("v1.2.3").ok().expect("semver should parse");
    assert_eq!(v, semver::Version::new(1, 2, 3));
}

#[test]
fn parse_semver_rejects_garbage() {
    let err = parse_semver("v1.x").err().unwrap();
    assert_eq!(err.message(), "invalid release tag version: v1.x");
    assert!(parse_semver("v").is_err());
    assert!(parse_semver("2.0.0").is_ok());
}

#[test]
fn parse_checksum_reads_sha256sum_format() {
    let checksums = "abc123  envlock-v0.2.0-x86_64-unknown-linux-gnu.tar.gz\n";
    let v = parse_checksum(checksums, "envlock-v0.2.0-x86_64-unknown-linux-gnu.tar.gz");
    assert_eq!(v.as_deref(), Some("abc123"));
}

#[test]
fn parse_checksum_reads_shasum_star_format() {
    let checksums = "def456 *envlock-v0.2.0-x86_64-unknown-linux-gnu.tar.gz\n";
    let v = parse_checksum(checksums, "envlock-v0.2.0-x86_64-unknown-linux-gnu.tar.gz");
    assert_eq!(v.as_deref(), Some("def456"));
}

#[test]
fn parse_checksum_picks_the_matching_line() {
    let listing = "111  other.tar.gz\n\n222  wanted.tar.gz\r\n333  wanted.tar.gz\n";
    assert_eq!(parse_checksum(listing, "wanted.tar.gz").as_deref(), Some("222"));
    assert_eq!(parse_checksum(listing, "missing.tar.gz"), None);
    assert_eq!(parse_checksum("lonely\n", "lonely"), None);
}

#[test]
fn managed_install_path_is_home_scoped() {
    let path = managed_install_binary_path_with_home(Some(s("/tmp/envlock-home")))
        .expect("managed path should build");
    assert_eq!(path, "/tmp/envlock-home/.envlock/bin/envlock");
    assert!(managed_install_binary_path_with_home(None).unwrap_err().contains("HOME is not set"));
}

#[test]
fn release_addresses() {
    assert_eq!(release_tag("1.0.0"), "v1.0.0");
    assert_eq!(release_tag("v1.0.0"), "v1.0.0");
    assert_eq!(
        release_url(Some("0.3.1")),
        "https://api.github.com/repos/PerishCode/envlock/releases/tags/v0.3.1"
    );
    assert_eq!(
        release_url(None),
        "https://api.github.com/repos/PerishCode/envlock/releases/latest"
    );
}

#[test]
fn assets_and_targets() {
    let assets = vec![
        ReleaseAsset { name: s("checksums.txt"), browser_download_url: s("u1") },
        ReleaseAsset { name: s("a.tar.gz"), browser_download_url: s("u2") },
    ];
    assert_eq!(find_asset(&assets, "a.tar.gz"), Some(1));
    assert_eq!(find_asset(&assets, "b.tar.gz"), None);
    assert_eq!(target_triple_for("linux", "x86_64"), Some("x86_64-unknown-linux-gnu"));
    assert_eq!(target_triple_for("macos", "aarch64"), Some("aarch64-apple-darwin"));
    assert_eq!(target_triple_for("windows", "x86_64"), None);
}

#[test]
fn locations_default_under_envlock_home() {
    let env = RawEnv {
        home: Some(s("/Users/tester")),
        envlock_home: None,
        envlock_resource_home: None,
    };
    let loc = resolve_locations(None, &env);
    assert_eq!(loc.envlock_home, "/Users/tester/.envlock");
    assert_eq!(loc.resource_home, "/Users/tester/.envlock/resources");
    assert_eq!(loc.profile_path, "/Users/tester/.envlock/profiles/default.json");
    let explicit = RawEnv {
        home: None,
        envlock_home: Some(s("/tmp/eh")),
        envlock_resource_home: Some(s("/tmp/res")),
    };
    let loc = resolve_locations(Some(s("/tmp/p.json")), &explicit);
    assert_eq!(loc.envlock_home, "/tmp/eh");
    assert_eq!(loc.resource_home, "/tmp/res");
    assert_eq!(loc.profile_path, "/tmp/p.json");
    let nohome = RawEnv { home: None, envlock_home: None, envlock_resource_home: None };
    assert_eq!(resolve_locations(None, &nohome).envlock_home, "~/.envlock");
}

#[test]
fn preview_lists_touched_keys_once_in_order() {
    let p = EnvProfile {
        enabled: true,
        vars: vec![(s("Z"), s("secret")), (s("A"), s("1"))],
        ops: vec![
            EnvOpProfile::Unset { key: s("M") },
            EnvOpProfile::SetValue { key: s("A"), value: s("2") },
        ],
    };
    assert_eq!(preview_env_keys(&p), vec![s("A"), s("M"), s("Z")]);
}
