//! The typed form of a profile: the injections it declares.
use vstd::prelude::*;

verus! {

/// A parsed profile.
#[derive(Debug, Clone)]
pub struct Profile {
    pub injections: Vec<InjectionProfile>,
}

/// One declared injection.
#[derive(Debug, Clone)]
pub enum InjectionProfile {
    Env(EnvProfile),
    Command(CommandProfile),
    Symlink(SymlinkProfile),
}

/// Variables to set, then operations to apply to them in order.
#[derive(Debug, Clone)]
pub struct EnvProfile {
    pub enabled: bool,
    /// Initial variables; a later entry of a key overrides an earlier one.
    pub vars: Vec<(String, String)>,
    pub ops: Vec<EnvOpProfile>,
}

/// A command whose standard output declares variables.
#[derive(Debug, Clone)]
pub struct CommandProfile {
    pub enabled: bool,
    pub program: String,
    pub args: Vec<String>,
}

/// One operation on the variables of an env injection.
#[derive(Debug, Clone)]
pub enum EnvOpProfile {
    SetValue { key: String, value: String },
    SetIfAbsent { key: String, value: String },
    Prepend { key: String, value: String, separator: Option<String>, dedup: bool },
    Append { key: String, value: String, separator: Option<String>, dedup: bool },
    Unset { key: String },
}

/// A symbolic link to place at `target`, pointing to `source`.
#[derive(Debug, Clone)]
pub struct SymlinkProfile {
    pub enabled: bool,
    pub source: String,
    pub target: String,
    pub on_exist: SymlinkOnExist,
    pub cleanup: bool,
}

/// What to do when something already exists at a link's target.
#[derive(Debug, Clone, Copy, PartialEq, Eq, Structural)]
pub enum SymlinkOnExist {
    Error,
    Replace,
}

impl Default for SymlinkOnExist {
    fn default() -> (r: SymlinkOnExist)
        ensures
            r == SymlinkOnExist::Error,
    {
        SymlinkOnExist::Error
    }
}

impl InjectionProfile {
    /// Whether this injection takes part in a run.
    pub open spec fn spec_enabled(&self) -> bool {
        match self {
            InjectionProfile::Env(p) => p.enabled,
            InjectionProfile::Command(p) => p.enabled,
            InjectionProfile::Symlink(p) => p.enabled,
        }
    }
}

/// An injection is enabled unless the profile says otherwise.
pub fn default_enabled() -> (r: bool)
    ensures
        r,
{
    true
}

/// A link is removed at shutdown unless the profile says otherwise.
pub fn default_cleanup() -> (r: bool)
    ensures
        r,
{
    true
}

} // verus!
