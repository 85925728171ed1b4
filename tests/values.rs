use envlock::command::{expand_vars, normalize_value, parse_exports};
use envlock::ambient::EnvSnapshot;
use envlock::merge::{merge_values, separator_value, split_parts};
use envlock::resource::resolve_resource_refs;

fn s(x: &str) -> String {
    x.to_string()
}

fn env_of(pairs: &[(&str, &str)]) -> EnvSnapshot {
    EnvSnapshot::new(pairs.iter().map(|(k, v)| (s(k), s(v))).collect())
}

#[test]
fn parse_export_and_plain_assignment() {
    let env = env_of(&[]);
    let vars = parse_exports("export A='1'\nB=2\nignored line\n", &env);
    assert_eq!(vars, vec![(s("A"), s("1")), (s("B"), s("2"))]);
}

#[test]
fn parse_fnm_style_path_value() {
    let env = env_of(&[("ENVLOCK_TEST_PATH", "/usr/bin:/bin")]);
    let vars = parse_exports("export PATH=\"/tmp/fnm/bin\":\"$ENVLOCK_TEST_PATH\"\n", &env);
    assert_eq!(vars, vec![(s("PATH"), s("/tmp/fnm/bin:/usr/bin:/bin"))]);
}

#[test]
fn parse_skips_blank_lines_and_empty_keys() {
    let env = env_of(&[]);
    let vars = parse_exports("\n   \n =x\n  export  K = v=w \r\n", &env);
    assert_eq!(vars, vec![(s("K"), s("v=w"))]);
}

#[test]
fn resolves_resource_uri_with_default_home() {
    let resolved = resolve_resource_refs("resource://kubeconfig/xx.yaml", "/tmp/envlock-res");
    assert_eq!(resolved, "/tmp/envlock-res/kubeconfig/xx.yaml");
}

#[test]
fn resolves_multiple_resource_uris_in_one_value() {
    let resolved = resolve_resource_refs(
        "resource://kubeconfig/xx.yaml:resource://kubeconfig/yy.yaml",
        "/tmp/envlock-res",
    );
    assert_eq!(
        resolved,
        "/tmp/envlock-res/kubeconfig/xx.yaml:/tmp/envlock-res/kubeconfig/yy.yaml"
    );
}

#[test]
fn resource_reference_edge_cases() {
    assert_eq!(resolve_resource_refs("a;resource://;b", "/r"), "a;resource://;b");
    assert_eq!(resolve_resource_refs("resource://x;tail", "/r/"), "/r/x;tail");
    assert_eq!(resolve_resource_refs("resource:///abs", "/r"), "/abs");
    assert_eq!(resolve_resource_refs("plain", "/r"), "plain");
}

#[test]
fn expand_vars_forms() {
    let env = env_of(&[("A", "1"), ("B_2", "two")]);
    assert_eq!(expand_vars("x${A}y", &env), "x1y");
    assert_eq!(expand_vars("$B_2-$A", &env), "two-1");
    assert_eq!(expand_vars("${MISSING}|$MISSING", &env), "|");
    assert_eq!(expand_vars("${}z", &env), "z");
    assert_eq!(expand_vars("${A", &env), "${A");
    assert_eq!(expand_vars("cost: $ 5 $", &env), "cost: $ 5 $");
}

#[test]
fn expand_vars_without_dollar_is_identity() {
    let env = env_of(&[("A", "1")]);
    for input in ["", "plain text", "{A} ${ no", "quotes 'A' \"A\""] {
        if !input.contains('$') {
            assert_eq!(expand_vars(input, &env), input);
        }
    }
}

#[test]
fn normalize_value_strips_quotes_then_expands() {
    let env = env_of(&[("HOME", "/home/u")]);
    assert_eq!(normalize_value("\"$HOME\"/'x'", &env), "/home/u/x");
    assert_eq!(normalize_value("it's", &env), "its");
}

#[test]
fn split_parts_drops_empty_segments() {
    assert_eq!(split_parts("::a::b:", ":"), vec![s("a"), s("b")]);
    assert_eq!(split_parts("a--b----c", "--"), vec![s("a"), s("b"), s("c")]);
    assert_eq!(split_parts("abc", ""), vec![s("a"), s("b"), s("c")]);
    assert!(split_parts("", ":").is_empty());
}

#[test]
fn merge_without_dedup_keeps_every_part() {
    let left = "/a::/b";
    let right = "/b:/c:";
    let merged = merge_values(left, right, ":", false);
    assert_eq!(merged, "/a:/b:/b:/c");
    let mut expected = split_parts(left, ":");
    expected.extend(split_parts(right, ":"));
    assert_eq!(split_parts(&merged, ":"), expected);
}

#[test]
fn merge_with_dedup_keeps_first_occurrences() {
    let merged = merge_values("/x:/y:/x", "/y:/z:/x", ":", true);
    assert_eq!(merged, "/x:/y:/z");
    assert_eq!(merge_values("", "", ":", true), "");
}

#[test]
fn separator_value_resolves_os_and_custom() {
    assert_eq!(separator_value(&None), ":");
    assert_eq!(separator_value(&Some(s("os"))), ":");
    assert_eq!(separator_value(&Some(s(";"))), ";");
}

#[test]
fn merge_round_trips_with_a_multi_character_separator() {
    let merged = merge_values("x--y", "--z", "--", false);
    assert_eq!(merged, "x--y--z");
    assert_eq!(split_parts(&merged, "--"), vec![s("x"), s("y"), s("z")]);
}

#[test]
fn self_overlapping_separator_can_lose_parts() {
    let merged = merge_values("a", "a", "aa", false);
    assert_eq!(merged, "aaaa");
    assert!(split_parts(&merged, "aa").is_empty());
}
