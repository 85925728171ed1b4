//! A fixed set of tool-specific injections (node, kube, codex) and a
//! lifecycle that validates, registers, exports and shuts them down.
use vstd::prelude::*;
use vstd::string::*;

use crate::ambient::pairs_view;
use crate::env::blank;
use crate::stage::{Stage, StageError};
use crate::text::{chars_of, trim_chars};

verus! {

/// Node.js settings.
#[derive(Debug, Clone)]
pub struct NodeConfig {
    pub enabled: bool,
    pub version: Option<String>,
    pub npm_registry: Option<String>,
}

/// Kubernetes settings.
#[derive(Debug, Clone)]
pub struct KubeConfig {
    pub enabled: bool,
    pub context: Option<String>,
    pub namespace: Option<String>,
}

/// Codex settings.
#[derive(Debug, Clone)]
pub struct CodexConfig {
    pub enabled: bool,
}

/// One declared tool injection.
#[derive(Debug, Clone)]
pub enum InjectionSpec {
    Node(NodeConfig),
    Kube(KubeConfig),
    Codex(CodexConfig),
}

impl InjectionSpec {
    pub open spec fn spec_enabled(&self) -> bool {
        match self {
            InjectionSpec::Node(c) => c.enabled,
            InjectionSpec::Kube(c) => c.enabled,
            InjectionSpec::Codex(c) => c.enabled,
        }
    }
}

/// Whether an optional setting is present but blank.
pub open spec fn blank_setting(o: Option<String>) -> bool {
    match o {
        Some(s) => blank(s@),
        None => false,
    }
}

fn is_blank_setting(o: &Option<String>) -> (r: bool)
    ensures
        r == blank_setting(*o),
{
    match o {
        Some(s) => trim_chars(&chars_of(s.as_str())).len() == 0,
        None => false,
    }
}

/// A pair for an optional setting: none when it is absent.
pub open spec fn setting_pair(name: Seq<char>, o: Option<String>) -> Seq<(Seq<char>, Seq<char>)> {
    match o {
        Some(s) => seq![(name, s@)],
        None => seq![],
    }
}

fn push_setting(out: &mut Vec<(String, String)>, name: &str, o: &Option<String>)
    ensures
        pairs_view(final(out)@) == pairs_view(old(out)@) + setting_pair(name@, *o),
{
    match o {
        Some(s) => {
            let ghost before = out@;
            out.push((String::from_str(name), s.clone()));
            assert(pairs_view(out@) =~= pairs_view(before) + setting_pair(name@, *o));
        },
        None => {
            assert(pairs_view(out@) =~= pairs_view(old(out)@) + setting_pair(name@, *o));
        },
    }
}

/// Exports the node version and npm registry.
pub struct NodeInjection {
    pub cfg: NodeConfig,
    pub registered: bool,
}

impl NodeInjection {
    pub fn new(cfg: NodeConfig) -> (r: NodeInjection)
        ensures
            r.cfg == cfg,
            !r.registered,
    {
        NodeInjection { cfg, registered: false }
    }

    pub fn name(&self) -> (r: &'static str)
        ensures
            r@ == "node"@,
    {
        "node"
    }

    /// Refuses a blank version or registry.
    pub fn validate(&self) -> (r: Result<(), String>)
        ensures
            r is Ok <==> !blank_setting(self.cfg.version) && !blank_setting(self.cfg.npm_registry),
    {
        if is_blank_setting(&self.cfg.version) {
            return Err(String::from_str("version must not be empty"));
        }
        if is_blank_setting(&self.cfg.npm_registry) {
            return Err(String::from_str("npm_registry must not be empty"));
        }
        Ok(())
    }

    pub fn register(&mut self) -> (r: Result<(), String>)
        ensures
            r is Ok,
            final(self).registered,
            final(self).cfg == old(self).cfg,
    {
        self.registered = true;
        Ok(())
    }

    /// `ENVLOCK_NODE_VERSION` and `NPM_CONFIG_REGISTRY`, for the settings present.
    pub fn export(&self) -> (r: Vec<(String, String)>)
        ensures
            pairs_view(r@) == setting_pair("ENVLOCK_NODE_VERSION"@, self.cfg.version) + setting_pair(
                "NPM_CONFIG_REGISTRY"@,
                self.cfg.npm_registry,
            ),
    {
        let mut vars: Vec<(String, String)> = Vec::new();
        push_setting(&mut vars, "ENVLOCK_NODE_VERSION", &self.cfg.version);
        push_setting(&mut vars, "NPM_CONFIG_REGISTRY", &self.cfg.npm_registry);
        assert(pairs_view(Seq::<(String, String)>::empty()) =~= Seq::empty());
        vars
    }

    pub fn shutdown(&mut self) -> (r: Result<(), String>)
        ensures
            r is Ok,
            !final(self).registered,
            final(self).cfg == old(self).cfg,
    {
        if self.registered {
            self.registered = false;
        }
        Ok(())
    }
}

/// Exports the kube context and namespace.
pub struct KubeInjection {
    pub cfg: KubeConfig,
    pub registered: bool,
}

impl KubeInjection {
    pub fn new(cfg: KubeConfig) -> (r: KubeInjection)
        ensures
            r.cfg == cfg,
            !r.registered,
    {
        KubeInjection { cfg, registered: false }
    }

    pub fn name(&self) -> (r: &'static str)
        ensures
            r@ == "kube"@,
    {
        "kube"
    }

    /// Refuses a blank context or namespace.
    pub fn validate(&self) -> (r: Result<(), String>)
        ensures
            r is Ok <==> !blank_setting(self.cfg.context) && !blank_setting(self.cfg.namespace),
    {
        if is_blank_setting(&self.cfg.context) {
            return Err(String::from_str("context must not be empty"));
        }
        if is_blank_setting(&self.cfg.namespace) {
            return Err(String::from_str("namespace must not be empty"));
        }
        Ok(())
    }

    pub fn register(&mut self) -> (r: Result<(), String>)
        ensures
            r is Ok,
            final(self).registered,
            final(self).cfg == old(self).cfg,
    {
        self.registered = true;
        Ok(())
    }

    /// `KUBECONFIG_CONTEXT` and `KUBECONFIG_NAMESPACE`, for the settings present.
    pub fn export(&self) -> (r: Vec<(String, String)>)
        ensures
            pairs_view(r@) == setting_pair("KUBECONFIG_CONTEXT"@, self.cfg.context) + setting_pair(
                "KUBECONFIG_NAMESPACE"@,
                self.cfg.namespace,
            ),
    {
        let mut vars: Vec<(String, String)> = Vec::new();
        push_setting(&mut vars, "KUBECONFIG_CONTEXT", &self.cfg.context);
        push_setting(&mut vars, "KUBECONFIG_NAMESPACE", &self.cfg.namespace);
        assert(pairs_view(Seq::<(String, String)>::empty()) =~= Seq::empty());
        vars
    }

    pub fn shutdown(&mut self) -> (r: Result<(), String>)
        ensures
            r is Ok,
            !final(self).registered,
            final(self).cfg == old(self).cfg,
    {
        if self.registered {
            self.registered = false;
        }
        Ok(())
    }
}

/// Exports nothing; only takes part in the stages.
pub struct CodexInjection {
    pub cfg: CodexConfig,
    pub registered: bool,
}

impl CodexInjection {
    pub fn new(cfg: CodexConfig) -> (r: CodexInjection)
        ensures
            r.cfg == cfg,
            !r.registered,
    {
        CodexInjection { cfg, registered: false }
    }

    pub fn name(&self) -> (r: &'static str)
        ensures
            r@ == "codex"@,
    {
        "codex"
    }

    pub fn validate(&self) -> (r: Result<(), String>)
        ensures
            r is Ok,
    {
        Ok(())
    }

    pub fn register(&mut self) -> (r: Result<(), String>)
        ensures
            r is Ok,
            final(self).registered,
            final(self).cfg == old(self).cfg,
    {
        self.registered = true;
        Ok(())
    }

    pub fn export(&self) -> (r: Vec<(String, String)>)
        ensures
            r@.len() == 0,
    {
        Vec::new()
    }

    pub fn shutdown(&mut self) -> (r: Result<(), String>)
        ensures
            r is Ok,
            !final(self).registered,
            final(self).cfg == old(self).cfg,
    {
        if self.registered {
            self.registered = false;
        }
        Ok(())
    }
}

/// An enabled tool injection of one run.
pub enum RuntimeInjection {
    Node(NodeInjection),
    Kube(KubeInjection),
    Codex(CodexInjection),
}

/// The injection that a declaration becomes.
pub open spec fn runtime_of(spec: InjectionSpec) -> RuntimeInjection {
    match spec {
        InjectionSpec::Node(c) => RuntimeInjection::Node(NodeInjection { cfg: c, registered: false }),
        InjectionSpec::Kube(c) => RuntimeInjection::Kube(KubeInjection { cfg: c, registered: false }),
        InjectionSpec::Codex(c) => RuntimeInjection::Codex(
            CodexInjection { cfg: c, registered: false },
        ),
    }
}

/// The enabled declarations, in order.
pub open spec fn enabled_specs(specs: Seq<InjectionSpec>) -> Seq<InjectionSpec>
    decreases specs.len(),
{
    if specs.len() == 0 {
        seq![]
    } else if specs.last().spec_enabled() {
        enabled_specs(specs.drop_last()).push(specs.last())
    } else {
        enabled_specs(specs.drop_last())
    }
}

/// The injections that a run builds from a list of declarations.
pub open spec fn runtimes(specs: Seq<InjectionSpec>) -> Seq<RuntimeInjection> {
    enabled_specs(specs).map_values(|s: InjectionSpec| runtime_of(s))
}

impl RuntimeInjection {
    /// Whether validation of this injection passes.
    pub open spec fn spec_valid(&self) -> bool {
        match self {
            RuntimeInjection::Node(n) => !blank_setting(n.cfg.version) && !blank_setting(
                n.cfg.npm_registry,
            ),
            RuntimeInjection::Kube(k) => !blank_setting(k.cfg.context) && !blank_setting(
                k.cfg.namespace,
            ),
            RuntimeInjection::Codex(_) => true,
        }
    }

    /// What this injection exports.
    pub open spec fn spec_exports(&self) -> Seq<(Seq<char>, Seq<char>)> {
        match self {
            RuntimeInjection::Node(n) => setting_pair("ENVLOCK_NODE_VERSION"@, n.cfg.version)
                + setting_pair("NPM_CONFIG_REGISTRY"@, n.cfg.npm_registry),
            RuntimeInjection::Kube(k) => setting_pair("KUBECONFIG_CONTEXT"@, k.cfg.context)
                + setting_pair("KUBECONFIG_NAMESPACE"@, k.cfg.namespace),
            RuntimeInjection::Codex(_) => seq![],
        }
    }

    /// Whether the injection is registered.
    pub open spec fn spec_registered(&self) -> bool {
        match self {
            RuntimeInjection::Node(n) => n.registered,
            RuntimeInjection::Kube(k) => k.registered,
            RuntimeInjection::Codex(c) => c.registered,
        }
    }

    /// The same injection, ignoring its registration flag.
    pub open spec fn same_config(&self, other: RuntimeInjection) -> bool {
        match (self, other) {
            (RuntimeInjection::Node(a), RuntimeInjection::Node(b)) => a.cfg == b.cfg,
            (RuntimeInjection::Kube(a), RuntimeInjection::Kube(b)) => a.cfg == b.cfg,
            (RuntimeInjection::Codex(a), RuntimeInjection::Codex(b)) => a.cfg == b.cfg,
            _ => false,
        }
    }

    /// The name of the injection's kind.
    pub open spec fn spec_name(&self) -> Seq<char> {
        match self {
            RuntimeInjection::Node(_) => "node"@,
            RuntimeInjection::Kube(_) => "kube"@,
            RuntimeInjection::Codex(_) => "codex"@,
        }
    }

    pub fn name(&self) -> (r: &'static str)
        ensures
            r@ == self.spec_name(),
    {
        match self {
            RuntimeInjection::Node(inner) => inner.name(),
            RuntimeInjection::Kube(inner) => inner.name(),
            RuntimeInjection::Codex(inner) => inner.name(),
        }
    }

    pub fn validate(&self) -> (r: Result<(), String>)
        ensures
            r is Ok <==> self.spec_valid(),
    {
        match self {
            RuntimeInjection::Node(inner) => inner.validate(),
            RuntimeInjection::Kube(inner) => inner.validate(),
            RuntimeInjection::Codex(inner) => inner.validate(),
        }
    }

    pub fn register(&mut self) -> (r: Result<(), String>)
        ensures
            r is Ok,
            final(self).same_config(*old(self)),
    {
        match self {
            RuntimeInjection::Node(inner) => inner.register(),
            RuntimeInjection::Kube(inner) => inner.register(),
            RuntimeInjection::Codex(inner) => inner.register(),
        }
    }

    pub fn export(&self) -> (r: Vec<(String, String)>)
        ensures
            pairs_view(r@) == self.spec_exports(),
    {
        match self {
            RuntimeInjection::Node(inner) => inner.export(),
            RuntimeInjection::Kube(inner) => inner.export(),
            RuntimeInjection::Codex(inner) => {
                let r = inner.export();
                assert(pairs_view(r@) =~= Seq::empty());
                r
            },
        }
    }

    pub fn shutdown(&mut self) -> (r: Result<(), String>)
        ensures
            r is Ok,
            final(self).same_config(*old(self)),
            !final(self).spec_registered(),
    {
        match self {
            RuntimeInjection::Node(inner) => inner.shutdown(),
            RuntimeInjection::Kube(inner) => inner.shutdown(),
            RuntimeInjection::Codex(inner) => inner.shutdown(),
        }
    }
}

/// Whether two lists hold the same injections, ignoring registration flags.
pub open spec fn same_injections(a: Seq<RuntimeInjection>, b: Seq<RuntimeInjection>) -> bool {
    a.len() == b.len() && forall|i: int| 0 <= i < a.len() ==> (#[trigger] a[i]).same_config(b[i])
}

/// Builds one injection per enabled declaration, in order.
pub fn build_injections(specs: Vec<InjectionSpec>) -> (r: Vec<RuntimeInjection>)
    ensures
        r@ == runtimes(specs@),
{
    let ghost all = specs@;
    let n = specs.len();
    let mut rest = specs;
    let mut injections: Vec<RuntimeInjection> = Vec::new();
    let mut i: usize = 0;
    while rest.len() > 0
        invariant
            i <= all.len(),
            all.len() == n,
            rest@ == all.subrange(i as int, all.len() as int),
            injections@ == enabled_specs(all.subrange(0, i as int)).map_values(
                |s: InjectionSpec| runtime_of(s),
            ),
        decreases rest.len(),
    {
        assert(all.subrange(0, i + 1).drop_last() =~= all.subrange(0, i as int));
        let spec = rest.remove(0);
        assert(spec == all[i as int]);
        match spec {
            InjectionSpec::Node(cfg) => {
                if cfg.enabled {
                    injections.push(RuntimeInjection::Node(NodeInjection::new(cfg)));
                }
            },
            InjectionSpec::Kube(cfg) => {
                if cfg.enabled {
                    injections.push(RuntimeInjection::Kube(KubeInjection::new(cfg)));
                }
            },
            InjectionSpec::Codex(cfg) => {
                if cfg.enabled {
                    injections.push(RuntimeInjection::Codex(CodexInjection::new(cfg)));
                }
            },
        }
        assert(injections@ =~= enabled_specs(all.subrange(0, i + 1)).map_values(
            |s: InjectionSpec| runtime_of(s),
        ));
        i += 1;
        assert(rest@ =~= all.subrange(i as int, all.len() as int));
    }
    assert(all.subrange(0, i as int) =~= all);
    injections
}

/// What the injections export, one after the other.
pub open spec fn all_exports(injs: Seq<RuntimeInjection>) -> Seq<(Seq<char>, Seq<char>)>
    decreases injs.len(),
{
    if injs.len() == 0 {
        seq![]
    } else {
        all_exports(injs.drop_last()) + injs.last().spec_exports()
    }
}

proof fn lemma_same_exports(a: Seq<RuntimeInjection>, b: Seq<RuntimeInjection>)
    requires
        same_injections(a, b),
    ensures
        all_exports(a) == all_exports(b),
    decreases a.len(),
{
    if a.len() > 0 {
        assert(a.last().same_config(b.last()));
        lemma_same_exports(a.drop_last(), b.drop_last());
    }
}

/// Concatenates the exports of every injection, in order.
fn collect_exports(injections: &Vec<RuntimeInjection>) -> (r: Vec<(String, String)>)
    ensures
        pairs_view(r@) == all_exports(injections@),
{
    let mut exports: Vec<(String, String)> = Vec::new();
    let mut i: usize = 0;
    while i < injections.len()
        invariant
            i <= injections@.len(),
            pairs_view(exports@) == all_exports(injections@.subrange(0, i as int)),
        decreases injections.len() - i,
    {
        assert(injections@.subrange(0, i + 1).drop_last() =~= injections@.subrange(0, i as int));
        let mut exported = injections[i].export();
        let ghost before = exports@;
        let ghost added = exported@;
        exports.append(&mut exported);
        assert(pairs_view(exports@) =~= pairs_view(before) + pairs_view(added));
        i += 1;
    }
    assert(injections@.subrange(0, i as int) =~= injections@);
    exports
}

/// Shuts down the first `registered` injections, last one first; the
/// returned order lists the positions shut down, in the order it happened.
fn shutdown_registered(injections: &mut Vec<RuntimeInjection>, registered: usize) -> (r: (Result<
    (),
    StageError,
>, Ghost<Seq<int>>))
    requires
        registered <= old(injections)@.len(),
    ensures
        r.0 is Ok,
        r.1@ == Seq::new(registered as nat, |j: int| registered - 1 - j),
        same_injections(final(injections)@, old(injections)@),
        forall|j: int| 0 <= j < registered ==> !(#[trigger] final(injections)@[j]).spec_registered(),
        forall|j: int| registered <= j < old(injections)@.len() ==> #[trigger] final(injections)@[j] == old(injections)@[j],
{
    let mut idx: usize = registered;
    let mut order: Ghost<Seq<int>> = Ghost(Seq::empty());
    assert(order@ =~= Seq::new((registered - idx) as nat, |j: int| registered - 1 - j));
    while idx > 0
        invariant
            idx <= registered <= injections@.len(),
            injections@.len() == old(injections)@.len(),
            same_injections(injections@, old(injections)@),
            order@ == Seq::new((registered - idx) as nat, |j: int| registered - 1 - j),
            forall|j: int| idx <= j < registered ==> !(#[trigger] injections@[j]).spec_registered(),
            forall|j: int| registered <= j < old(injections)@.len() ==> #[trigger] injections@[j] == old(injections)@[j],
        decreases idx,
    {
        idx -= 1;
        order = Ghost(order@.push(idx as int));
        assert(order@ =~= Seq::new((registered - idx) as nat, |j: int| registered - 1 - j));
        let ghost before = injections@;
        let mut inj = injections.remove(idx);
        let _ = inj.shutdown();
        injections.insert(idx, inj);
        assert(injections@ =~= before.update(idx as int, inj));
        assert forall|i: int| 0 <= i < injections@.len() implies (#[trigger] injections@[i]).same_config(
            old(injections)@[i],
        ) by {
            if i != idx {
                assert(injections@[i] == before[i]);
            }
        }
    }
    (Ok(()), order)
}

/// Runs the lifecycle over the enabled declarations: validates all, then
/// registers all, then collects their exports, then shuts down every
/// registered one in reverse order. The first injection that fails
/// validation stops the run before any registration.
pub fn execute_lifecycle(specs: Vec<InjectionSpec>) -> (r: Result<Vec<(String, String)>, StageError>)
    ensures
        ({
            let injs = runtimes(specs@);
            match r {
                Ok(exports) => (forall|i: int| 0 <= i < injs.len() ==> (#[trigger] injs[i]).spec_valid())
                    && pairs_view(exports@) == all_exports(injs),
                Err(e) => e.stage == Stage::Validate && exists|i: int|
                    0 <= i < injs.len() && !(#[trigger] injs[i]).spec_valid() && (forall|j: int|
                        0 <= j < i ==> injs[j].spec_valid()) && e.injection@ == injs[i].spec_name(),
            }
        }),
{
    let ghost want = runtimes(specs@);
    let mut injections = build_injections(specs);
    let ghost built = injections@;
    let mut i: usize = 0;
    while i < injections.len()
        invariant
            i <= injections@.len(),
            injections@ == built,
            built == want,
            want == runtimes(specs@),
            forall|j: int| 0 <= j < i ==> (#[trigger] built[j]).spec_valid(),
        decreases injections.len() - i,
    {
        match injections[i].validate() {
            Err(cause) => {
                let e = StageError::new(injections[i].name(), Stage::Validate, cause);
                assert(!want[i as int].spec_valid() && (forall|j: int|
                    0 <= j < i ==> want[j].spec_valid()) && e.injection@ == want[i as int].spec_name());
                return Err(e);
            },
            Ok(()) => {},
        }
        i += 1;
    }
    let mut registered: usize = 0;
    while registered < injections.len()
        invariant
            registered <= injections@.len(),
            same_injections(injections@, built),
            built == runtimes(specs@),
            forall|j: int| 0 <= j < built.len() ==> (#[trigger] built[j]).spec_valid(),
        decreases injections.len() - registered,
    {
        let ghost before = injections@;
        let mut inj = injections.remove(registered);
        let _ = inj.register();
        injections.insert(registered, inj);
        assert(injections@ =~= before.update(registered as int, inj));
        assert forall|k: int| 0 <= k < injections@.len() implies (#[trigger] injections@[k]).same_config(
            built[k],
        ) by {
            if k != registered {
                assert(injections@[k] == before[k]);
            }
        }
        registered += 1;
    }
    let exports = collect_exports(&injections);
    proof {
        lemma_same_exports(injections@, built);
    }
    let _ = shutdown_registered(&mut injections, registered);
    Ok(exports)
}

} // verus!
