use envlock::output::{render_outputs, shell_single_quote_escape, to_env_map};

fn s(x: &str) -> String {
    x.to_string()
}

#[test]
fn lib_escape_single_quotes_for_shell() {
    assert_eq!(shell_single_quote_escape("a'b"), "a'\"'\"'b");
}

#[test]
fn lib_env_map_keeps_last_value_for_duplicate_keys() {
    let map = to_env_map(
        vec![(s("A"), s("1")), (s("B"), s("2")), (s("A"), s("3"))],
        false,
    )
    .ok()
    .expect("non-strict mode should allow duplicate keys");
    assert_eq!(map.get(&s("A")), Some(s("3")));
    assert_eq!(map.get(&s("B")), Some(s("2")));
}

#[test]
fn lib_env_map_rejects_duplicate_keys_in_strict_mode() {
    let err = to_env_map(vec![(s("A"), s("1")), (s("A"), s("2"))], true)
        .err()
        .expect("strict mode should reject duplicate keys");
    assert!(err.message().contains("duplicate exported key"));
}

#[test]
fn main_escape_single_quotes_for_shell() {
    assert_eq!(shell_single_quote_escape("a'b"), "a'\"'\"'b");
}

#[test]
fn main_env_map_keeps_last_value_for_duplicate_keys() {
    let map = to_env_map(
        vec![(s("A"), s("1")), (s("B"), s("2")), (s("A"), s("3"))],
        false,
    )
    .ok()
    .expect("non-strict mode should allow duplicate keys");
    assert_eq!(map.get(&s("A")), Some(s("3")));
    assert_eq!(map.get(&s("B")), Some(s("2")));
}

#[test]
fn main_env_map_rejects_duplicate_keys_in_strict_mode() {
    let err = to_env_map(vec![(s("A"), s("1")), (s("A"), s("2"))], true)
        .err()
        .expect("strict mode should reject duplicate keys");
    assert!(err.message().contains("duplicate exported key"));
}

#[test]
fn strict_mode_without_duplicates_passes() {
    let map = to_env_map(vec![(s("A"), s("1")), (s("B"), s("2"))], true).ok().unwrap();
    assert_eq!(map.get(&s("A")), Some(s("1")));
    assert_eq!(map.get(&s("C")), None);
}

#[test]
fn render_shell_lines_in_key_order() {
    let text = render_outputs(vec![(s("B"), s("it's")), (s("A"), s("1"))], false, false)
        .ok()
        .unwrap();
    assert_eq!(text, "export A='1'\nexport B='it'\"'\"'s'\n");
}

#[test]
fn render_json_object() {
    let text = render_outputs(vec![(s("B"), s("2")), (s("A"), s("1"))], true, false)
        .ok()
        .unwrap();
    assert_eq!(text, "{\n  \"A\": \"1\",\n  \"B\": \"2\"\n}\n");
}

#[test]
fn render_refuses_duplicates_in_strict_mode() {
    let err = render_outputs(vec![(s("A"), s("1")), (s("A"), s("1"))], true, true).err().unwrap();
    assert!(err.message().contains("duplicate exported key detected in strict mode: A"));
}
