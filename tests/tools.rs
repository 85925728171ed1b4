use envlock::injection::{execute_lifecycle, InjectionSpec, KubeConfig, NodeConfig, CodexConfig};

fn s(x: &str) -> String {
    x.to_string()
}

#[test]
fn skip_disabled_injections() {
    let specs = vec![
        InjectionSpec::Node(NodeConfig {
            enabled: false,
            version: Some(s("22.11.0")),
            npm_registry: None,
        }),
        InjectionSpec::Kube(KubeConfig {
            enabled: true,
            context: Some(s("dev")),
            namespace: Some(s("platform")),
        }),
    ];

    let exports = execute_lifecycle(specs).ok().expect("lifecycle should pass");
    assert_eq!(exports.len(), 2);
    assert!(exports.contains(&(s("KUBECONFIG_CONTEXT"), s("dev"))));
    assert!(exports.contains(&(s("KUBECONFIG_NAMESPACE"), s("platform"))));
}

#[test]
fn fail_validation_when_node_version_is_empty() {
    let specs = vec![InjectionSpec::Node(NodeConfig {
        enabled: true,
        version: Some(s("   ")),
        npm_registry: None,
    })];

    let err = execute_lifecycle(specs).err().expect("empty version should fail");
    assert!(err.message().contains("validation failed"));
}

#[test]
fn tool_exports_follow_declaration_order() {
    let specs = vec![
        InjectionSpec::Codex(CodexConfig { enabled: true }),
        InjectionSpec::Node(NodeConfig {
            enabled: true,
            version: Some(s("20")),
            npm_registry: Some(s("https://r.example/")),
        }),
        InjectionSpec::Kube(KubeConfig { enabled: true, context: None, namespace: Some(s("ns")) }),
    ];
    let exports = execute_lifecycle(specs).ok().unwrap();
    assert_eq!(
        exports,
        vec![
            (s("ENVLOCK_NODE_VERSION"), s("20")),
            (s("NPM_CONFIG_REGISTRY"), s("https://r.example/")),
            (s("KUBECONFIG_NAMESPACE"), s("ns")),
        ]
    );
}

#[test]
fn first_invalid_tool_is_reported() {
    let specs = vec![
        InjectionSpec::Kube(KubeConfig { enabled: true, context: Some(s("")), namespace: None }),
        InjectionSpec::Node(NodeConfig { enabled: true, version: Some(s(" ")), npm_registry: None }),
    ];
    let err = execute_lifecycle(specs).err().unwrap();
    assert_eq!(err.message(), "kube validation failed: context must not be empty");
}
