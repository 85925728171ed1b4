//! The env injection: variables from the profile, transformed by operations.
use vstd::prelude::*;

use crate::ambient::{opt_view, pairs_view, EnvSnapshot};
use crate::envmap::{in_key_order, EnvMap};
use crate::merge::{merge_spec, merge_values, separator_spec, separator_value};
use crate::profile::{EnvOpProfile, EnvProfile};
use crate::resource::{resolve_resource_refs, resolve_spec};
use crate::text::{chars_of, trim_chars, trim_spec};

verus! {

/// Why an env injection's declaration is refused.
#[derive(Debug, Clone, Copy, PartialEq, Eq, Structural)]
pub enum EnvError {
    EmptyKey,
    EmptyValue,
    EmptySeparator,
}

impl EnvError {
    /// A description of the error.
    pub fn message(&self) -> (r: String)
        ensures
            r@ == match *self {
                EnvError::EmptyKey => "env var key must not be empty"@,
                EnvError::EmptyValue => "env var value must not be empty"@,
                EnvError::EmptySeparator => "separator must not be empty"@,
            },
    {
        match self {
            EnvError::EmptyKey => String::from_str("env var key must not be empty"),
            EnvError::EmptyValue => String::from_str("env var value must not be empty"),
            EnvError::EmptySeparator => String::from_str("separator must not be empty"),
        }
    }
}

/// Text that is empty or white space only.
pub open spec fn blank(s: Seq<char>) -> bool {
    trim_spec(s).len() == 0
}

fn is_blank(s: &String) -> (r: bool)
    ensures
        r == blank(s@),
{
    trim_chars(&chars_of(s.as_str())).len() == 0
}

/// What is wrong with a key and a value, if anything.
pub open spec fn key_value_error(key: Seq<char>, value: Seq<char>) -> Option<EnvError> {
    if blank(key) {
        Some(EnvError::EmptyKey)
    } else if blank(value) {
        Some(EnvError::EmptyValue)
    } else {
        None
    }
}

/// What is wrong with one operation, if anything.
pub open spec fn op_error(op: EnvOpProfile) -> Option<EnvError> {
    match op {
        EnvOpProfile::SetValue { key, value } => key_value_error(key@, value@),
        EnvOpProfile::SetIfAbsent { key, value } => key_value_error(key@, value@),
        EnvOpProfile::Prepend { key, value, separator, .. } => separator_error(
            key@,
            value@,
            opt_view(separator),
        ),
        EnvOpProfile::Append { key, value, separator, .. } => separator_error(
            key@,
            value@,
            opt_view(separator),
        ),
        EnvOpProfile::Unset { key } => if blank(key@) {
            Some(EnvError::EmptyKey)
        } else {
            None
        },
    }
}

/// What is wrong with a merge operation's key, value and separator, if anything.
pub open spec fn separator_error(key: Seq<char>, value: Seq<char>, sep: Option<Seq<char>>) -> Option<
    EnvError,
> {
    match key_value_error(key, value) {
        Some(e) => Some(e),
        None => match sep {
            Some(s) => if s.len() == 0 {
                Some(EnvError::EmptySeparator)
            } else {
                None
            },
            None => None,
        },
    }
}

/// The first error among the operations, in order.
pub open spec fn ops_error(ops: Seq<EnvOpProfile>) -> Option<EnvError>
    decreases ops.len(),
{
    if ops.len() == 0 {
        None
    } else {
        match op_error(ops[0]) {
            Some(e) => Some(e),
            None => ops_error(ops.drop_first()),
        }
    }
}

/// What validating an env declaration gives: a blank variable name first,
/// then the first faulty operation.
pub open spec fn env_validate_spec(p: EnvProfile) -> Option<EnvError> {
    if exists|i: int| 0 <= i < p.vars@.len() && blank(#[trigger] p.vars@[i].0@) {
        Some(EnvError::EmptyKey)
    } else {
        ops_error(p.ops@)
    }
}

/// The variables of a declaration, with resource references resolved.
pub open spec fn vars_map(vars: Seq<(String, String)>, root: Seq<char>) -> Map<Seq<char>, Seq<char>>
    decreases vars.len(),
{
    if vars.len() == 0 {
        Map::empty()
    } else {
        vars_map(vars.drop_last(), root).insert(
            vars.last().0@,
            resolve_spec(vars.last().1@, root),
        )
    }
}

/// The current value of `key`: the one set so far, else the ambient one, else nothing.
pub open spec fn base_value(m: Map<Seq<char>, Seq<char>>, key: Seq<char>, ambient: EnvSnapshot) -> Seq<
    char,
> {
    if m.contains_key(key) {
        m[key]
    } else {
        ambient.value_or_empty(key)
    }
}

/// The variables after one operation.
pub open spec fn apply_op(
    m: Map<Seq<char>, Seq<char>>,
    op: EnvOpProfile,
    ambient: EnvSnapshot,
    root: Seq<char>,
) -> Map<Seq<char>, Seq<char>> {
    match op {
        EnvOpProfile::SetValue { key, value } => m.insert(key@, resolve_spec(value@, root)),
        EnvOpProfile::SetIfAbsent { key, value } => if !m.contains_key(key@) && ambient.lookup(
            key@,
        ) is None {
            m.insert(key@, resolve_spec(value@, root))
        } else {
            m
        },
        EnvOpProfile::Prepend { key, value, separator, dedup } => m.insert(
            key@,
            merge_spec(
                resolve_spec(value@, root),
                base_value(m, key@, ambient),
                separator_spec(opt_view(separator)),
                dedup,
            ),
        ),
        EnvOpProfile::Append { key, value, separator, dedup } => m.insert(
            key@,
            merge_spec(
                base_value(m, key@, ambient),
                resolve_spec(value@, root),
                separator_spec(opt_view(separator)),
                dedup,
            ),
        ),
        EnvOpProfile::Unset { key } => m.remove(key@),
    }
}

/// The variables after the operations, applied in order.
pub open spec fn apply_ops_spec(
    m: Map<Seq<char>, Seq<char>>,
    ops: Seq<EnvOpProfile>,
    ambient: EnvSnapshot,
    root: Seq<char>,
) -> Map<Seq<char>, Seq<char>>
    decreases ops.len(),
{
    if ops.len() == 0 {
        m
    } else {
        apply_op(apply_ops_spec(m, ops.drop_last(), ambient, root), ops.last(), ambient, root)
    }
}

/// The variables that an env declaration exports.
pub open spec fn env_export_spec(p: EnvProfile, ambient: EnvSnapshot, root: Seq<char>) -> Map<
    Seq<char>,
    Seq<char>,
> {
    apply_ops_spec(vars_map(p.vars@, root), p.ops@, ambient, root)
}

fn validate_key_value(key: &String, value: &String) -> (r: Result<(), EnvError>)
    ensures
        match r {
            Ok(()) => key_value_error(key@, value@) is None,
            Err(e) => key_value_error(key@, value@) == Some(e),
        },
{
    if is_blank(key) {
        return Err(EnvError::EmptyKey);
    }
    if is_blank(value) {
        return Err(EnvError::EmptyValue);
    }
    Ok(())
}

fn validate_op(op: &EnvOpProfile) -> (r: Result<(), EnvError>)
    ensures
        match r {
            Ok(()) => op_error(*op) is None,
            Err(e) => op_error(*op) == Some(e),
        },
{
    match op {
        EnvOpProfile::SetValue { key, value } => validate_key_value(key, value),
        EnvOpProfile::SetIfAbsent { key, value } => validate_key_value(key, value),
        EnvOpProfile::Prepend { key, value, separator, .. }
        | EnvOpProfile::Append { key, value, separator, .. } => {
            match validate_key_value(key, value) {
                Err(e) => Err(e),
                Ok(()) => match separator {
                    Some(sep) => {
                        if chars_of(sep.as_str()).len() == 0 {
                            Err(EnvError::EmptySeparator)
                        } else {
                            Ok(())
                        }
                    },
                    None => Ok(()),
                },
            }
        },
        EnvOpProfile::Unset { key } => {
            if is_blank(key) {
                Err(EnvError::EmptyKey)
            } else {
                Ok(())
            }
        },
    }
}

/// Checks the variable names, then the operations in order.
pub fn validate_env(p: &EnvProfile) -> (r: Result<(), EnvError>)
    ensures
        match r {
            Ok(()) => env_validate_spec(*p) is None,
            Err(e) => env_validate_spec(*p) == Some(e),
        },
{
    let mut i: usize = 0;
    while i < p.vars.len()
        invariant
            i <= p.vars@.len(),
            forall|j: int| 0 <= j < i ==> !blank(#[trigger] p.vars@[j].0@),
        decreases p.vars.len() - i,
    {
        if is_blank(&p.vars[i].0) {
            return Err(EnvError::EmptyKey);
        }
        i += 1;
    }
    assert(!exists|j: int| 0 <= j < p.vars@.len() && blank(#[trigger] p.vars@[j].0@));
    let mut k: usize = 0;
    assert(p.ops@.subrange(0, p.ops@.len() as int) =~= p.ops@);
    while k < p.ops.len()
        invariant
            k <= p.ops@.len(),
            !exists|j: int| 0 <= j < p.vars@.len() && blank(#[trigger] p.vars@[j].0@),
            ops_error(p.ops@) == ops_error(p.ops@.subrange(k as int, p.ops@.len() as int)),
        decreases p.ops.len() - k,
    {
        let ghost rest = p.ops@.subrange(k as int, p.ops@.len() as int);
        assert(rest[0] == p.ops@[k as int]);
        assert(rest.drop_first() =~= p.ops@.subrange(k + 1, p.ops@.len() as int));
        match validate_op(&p.ops[k]) {
            Err(e) => {
                return Err(e);
            },
            Ok(()) => {},
        }
        k += 1;
    }
    Ok(())
}

fn current_value(env: &EnvMap, key: &String, ambient: &EnvSnapshot) -> (r: String)
    requires
        env.wf(),
    ensures
        r@ == base_value(env@, key@, *ambient),
{
    match env.get(key) {
        Some(v) => v,
        None => match ambient.get(key.as_str()) {
            Some(v) => v,
            None => String::new(),
        },
    }
}

fn apply_one(env: &mut EnvMap, op: &EnvOpProfile, ambient: &EnvSnapshot, resource_home: &str)
    requires
        old(env).wf(),
    ensures
        final(env).wf(),
        final(env)@ == apply_op(old(env)@, *op, *ambient, resource_home@),
{
    match op {
        EnvOpProfile::SetValue { key, value } => {
            env.insert(key.clone(), resolve_resource_refs(value.as_str(), resource_home));
        },
        EnvOpProfile::SetIfAbsent { key, value } => {
            if !env.contains_key(key) && ambient.get(key.as_str()).is_none() {
                env.insert(key.clone(), resolve_resource_refs(value.as_str(), resource_home));
            }
        },
        EnvOpProfile::Prepend { key, value, separator, dedup } => {
            let sep = separator_value(separator);
            let base = current_value(env, key, ambient);
            let resolved = resolve_resource_refs(value.as_str(), resource_home);
            env.insert(
                key.clone(),
                merge_values(resolved.as_str(), base.as_str(), sep.as_str(), *dedup),
            );
        },
        EnvOpProfile::Append { key, value, separator, dedup } => {
            let sep = separator_value(separator);
            let base = current_value(env, key, ambient);
            let resolved = resolve_resource_refs(value.as_str(), resource_home);
            env.insert(
                key.clone(),
                merge_values(base.as_str(), resolved.as_str(), sep.as_str(), *dedup),
            );
        },
        EnvOpProfile::Unset { key } => {
            env.remove(key);
        },
    }
}

/// Applies the operations in order to the variables in `env`.
pub fn apply_ops(
    env: &mut EnvMap,
    ops: &Vec<EnvOpProfile>,
    ambient: &EnvSnapshot,
    resource_home: &str,
)
    requires
        old(env).wf(),
    ensures
        final(env).wf(),
        final(env)@ == apply_ops_spec(old(env)@, ops@, *ambient, resource_home@),
{
    let ghost start = env@;
    let mut i: usize = 0;
    while i < ops.len()
        invariant
            i <= ops@.len(),
            env.wf(),
            env@ == apply_ops_spec(start, ops@.subrange(0, i as int), *ambient, resource_home@),
        decreases ops.len() - i,
    {
        assert(ops@.subrange(0, i + 1).drop_last() =~= ops@.subrange(0, i as int));
        apply_one(env, &ops[i], ambient, resource_home);
        i += 1;
    }
    assert(ops@.subrange(0, i as int) =~= ops@);
}

/// The variables that `p` exports, in key order.
pub fn env_export(p: &EnvProfile, ambient: &EnvSnapshot, resource_home: &str) -> (r: Vec<
    (String, String),
>)
    ensures
        in_key_order(pairs_view(r@), env_export_spec(*p, *ambient, resource_home@)),
{
    let mut env = EnvMap::new();
    let mut i: usize = 0;
    while i < p.vars.len()
        invariant
            i <= p.vars@.len(),
            env.wf(),
            env@ == vars_map(p.vars@.subrange(0, i as int), resource_home@),
        decreases p.vars.len() - i,
    {
        assert(p.vars@.subrange(0, i + 1).drop_last() =~= p.vars@.subrange(0, i as int));
        env.insert(
            p.vars[i].0.clone(),
            resolve_resource_refs(p.vars[i].1.as_str(), resource_home),
        );
        i += 1;
    }
    assert(p.vars@.subrange(0, i as int) =~= p.vars@);
    apply_ops(&mut env, &p.ops, ambient, resource_home);
    env.into_pairs()
}

/// An env injection of one run.
pub struct EnvInjection {
    pub cfg: EnvProfile,
}

impl EnvInjection {
    pub fn new(cfg: EnvProfile) -> (r: EnvInjection)
        ensures
            r.cfg == cfg,
    {
        EnvInjection { cfg }
    }

    pub fn name(&self) -> (r: &'static str)
        ensures
            r@ == "env"@,
    {
        "env"
    }

    /// Refuses blank variable names, blank values and empty separators.
    pub fn validate(&self) -> (r: Result<(), EnvError>)
        ensures
            match r {
                Ok(()) => env_validate_spec(self.cfg) is None,
                Err(e) => env_validate_spec(self.cfg) == Some(e),
            },
    {
        validate_env(&self.cfg)
    }

    /// The variables this injection exports, in key order.
    pub fn export(&self, ambient: &EnvSnapshot, resource_home: &str) -> (r: Vec<(String, String)>)
        ensures
            in_key_order(pairs_view(r@), env_export_spec(self.cfg, *ambient, resource_home@)),
    {
        env_export(&self.cfg, ambient, resource_home)
    }
}

} // verus!
