use envlock::ambient::EnvSnapshot;
use envlock::env::{EnvError, EnvInjection};
use envlock::profile::{EnvOpProfile, EnvProfile};

fn s(x: &str) -> String {
    x.to_string()
}

fn injection(vars: Vec<(&str, &str)>, ops: Vec<EnvOpProfile>) -> EnvInjection {
    EnvInjection::new(EnvProfile {
        enabled: true,
        vars: vars.into_iter().map(|(k, v)| (s(k), s(v))).collect(),
        ops,
    })
}

#[test]
fn rejects_empty_env_key() {
    let injection = injection(vec![("   ", "x")], Vec::new());
    let err = injection.validate().expect_err("empty key should fail");
    assert!(err.message().contains("env var key must not be empty"));
}

#[test]
fn validation_reports_each_error_kind() {
    let blank_value = injection(vec![], vec![EnvOpProfile::SetValue { key: s("K"), value: s(" ") }]);
    assert_eq!(blank_value.validate(), Err(EnvError::EmptyValue));
    assert!(blank_value.validate().unwrap_err().message().contains("env var value must not be empty"));
    let empty_sep = injection(
        vec![],
        vec![EnvOpProfile::Append { key: s("P"), value: s("/x"), separator: Some(s("")), dedup: false }],
    );
    assert_eq!(empty_sep.validate(), Err(EnvError::EmptySeparator));
    assert!(empty_sep.validate().unwrap_err().message().contains("separator must not be empty"));
    let blank_unset = injection(vec![], vec![EnvOpProfile::Unset { key: s("\t") }]);
    assert_eq!(blank_unset.validate(), Err(EnvError::EmptyKey));
    let fine = injection(
        vec![("A", "1")],
        vec![EnvOpProfile::Prepend { key: s("P"), value: s("/x"), separator: Some(s("os")), dedup: true }],
    );
    assert_eq!(fine.validate(), Ok(()));
}

#[test]
fn prepend_path_with_dedup() {
    let injection = injection(
        vec![("PATH", "/usr/bin:/bin")],
        vec![EnvOpProfile::Prepend {
            key: s("PATH"),
            value: s("/custom/bin:/usr/bin"),
            separator: Some(s("os")),
            dedup: true,
        }],
    );
    let exports = injection.export(&EnvSnapshot::new(Vec::new()), "/tmp/envlock-res");
    let path = exports
        .into_iter()
        .find(|(k, _)| k == "PATH")
        .map(|(_, v)| v)
        .expect("PATH should exist");
    assert_eq!(path, "/custom/bin:/usr/bin:/bin");
}

#[test]
fn set_if_absent_uses_current_env() {
    let key = "ENVLOCK_TEST_SET_IF_ABSENT";
    let ambient = EnvSnapshot::new(vec![(s(key), s("present"))]);
    let injection = injection(
        vec![],
        vec![EnvOpProfile::SetIfAbsent { key: s(key), value: s("fallback") }],
    );
    let exports = injection.export(&ambient, "/tmp/envlock-res");
    assert!(!exports.iter().any(|(k, _)| k == key));
}

#[test]
fn ops_apply_in_order_and_export_in_key_order() {
    let ambient = EnvSnapshot::new(vec![(s("PATH"), s("/bin")), (s("GONE"), s("ambient"))]);
    let injection = injection(
        vec![("Z", "resource://z.txt"), ("B", "b"), ("GONE", "x")],
        vec![
            EnvOpProfile::Append { key: s("PATH"), value: s("/opt/bin"), separator: None, dedup: false },
            EnvOpProfile::SetIfAbsent { key: s("NEW"), value: s("n") },
            EnvOpProfile::SetValue { key: s("B"), value: s("b2") },
            EnvOpProfile::Unset { key: s("GONE") },
            EnvOpProfile::Prepend { key: s("LIST"), value: s("a;b;a"), separator: Some(s(";")), dedup: true },
        ],
    );
    let exports = injection.export(&ambient, "/res");
    assert_eq!(
        exports,
        vec![
            (s("B"), s("b2")),
            (s("LIST"), s("a;b")),
            (s("NEW"), s("n")),
            (s("PATH"), s("/bin:/opt/bin")),
            (s("Z"), s("/res/z.txt")),
        ]
    );
}

#[test]
fn later_var_entry_overrides_earlier() {
    let injection = injection(vec![("A", "1"), ("A", "2")], vec![]);
    assert_eq!(injection.export(&EnvSnapshot::empty(), "/r"), vec![(s("A"), s("2"))]);
}
