//! What a preview of a profile shows of its env injections.
use vstd::prelude::*;
use vstd::string::*;

use crate::envmap::{in_key_order, EnvMap};
use crate::profile::{EnvOpProfile, EnvProfile};

verus! {

/// How a preview is printed.
#[derive(Debug, Clone, Copy, PartialEq, Eq, Structural)]
pub enum PreviewOutputMode {
    Text,
    Json,
}

/// The key an operation acts on.
pub open spec fn op_key(op: EnvOpProfile) -> Seq<char> {
    match op {
        EnvOpProfile::SetValue { key, .. } => key@,
        EnvOpProfile::SetIfAbsent { key, .. } => key@,
        EnvOpProfile::Prepend { key, .. } => key@,
        EnvOpProfile::Append { key, .. } => key@,
        EnvOpProfile::Unset { key } => key@,
    }
}

/// The keys an env declaration touches: its variables and the keys of its operations.
pub open spec fn touched_keys(p: EnvProfile) -> Set<Seq<char>> {
    Set::new(
        |k: Seq<char>|
            (exists|i: int| 0 <= i < p.vars@.len() && #[trigger] p.vars@[i].0@ == k) || (exists|
                i: int,
            |
                0 <= i < p.ops@.len() && op_key(#[trigger] p.ops@[i]) == k),
    )
}

fn op_key_of(op: &EnvOpProfile) -> (r: &String)
    ensures
        r@ == op_key(*op),
{
    match op {
        EnvOpProfile::SetValue { key, .. } => key,
        EnvOpProfile::SetIfAbsent { key, .. } => key,
        EnvOpProfile::Prepend { key, .. } => key,
        EnvOpProfile::Append { key, .. } => key,
        EnvOpProfile::Unset { key } => key,
    }
}

/// The keys an env declaration touches, each once, in key order. Values are
/// never shown.
pub fn preview_env_keys(p: &EnvProfile) -> (r: Vec<String>)
    ensures
        forall|i: int, j: int| 0 <= i < j < r@.len() ==> crate::envmap::chars_lt(#[trigger] r@[i]@, #[trigger] r@[j]@),
        forall|i: int| 0 <= i < r@.len() ==> touched_keys(*p).contains(#[trigger] r@[i]@),
        forall|k: Seq<char>| touched_keys(*p).contains(k) ==> exists|i: int| 0 <= i < r@.len() && #[trigger] r@[i]@ == k,
{
    let mut keys = EnvMap::new();
    let mut i: usize = 0;
    while i < p.vars.len()
        invariant
            i <= p.vars@.len(),
            keys.wf(),
            forall|k: Seq<char>| keys@.contains_key(k) <==> (exists|j: int| 0 <= j < i && #[trigger] p.vars@[j].0@ == k),
        decreases p.vars.len() - i,
    {
        keys.insert(p.vars[i].0.clone(), String::new());
        proof {
            assert forall|k: Seq<char>| keys@.contains_key(k) <==> (exists|j: int| 0 <= j < i + 1 && #[trigger] p.vars@[j].0@ == k) by {
                if k == p.vars@[i as int].0@ {
                    assert(p.vars@[i as int].0@ == k);
                }
                if exists|j: int| 0 <= j < i + 1 && #[trigger] p.vars@[j].0@ == k {
                    let j = choose|j: int| 0 <= j < i + 1 && #[trigger] p.vars@[j].0@ == k;
                    if j < i {
                        assert(exists|j2: int| 0 <= j2 < i && #[trigger] p.vars@[j2].0@ == k);
                    }
                }
            }
        }
        i += 1;
    }
    let mut o: usize = 0;
    while o < p.ops.len()
        invariant
            o <= p.ops@.len(),
            keys.wf(),
            forall|k: Seq<char>| keys@.contains_key(k) <==> ((exists|j: int| 0 <= j < p.vars@.len() && #[trigger] p.vars@[j].0@ == k) || (exists|j: int| 0 <= j < o && op_key(#[trigger] p.ops@[j]) == k)),
        decreases p.ops.len() - o,
    {
        keys.insert(op_key_of(&p.ops[o]).clone(), String::new());
        proof {
            assert forall|k: Seq<char>| keys@.contains_key(k) <==> ((exists|j: int| 0 <= j < p.vars@.len() && #[trigger] p.vars@[j].0@ == k) || (exists|j: int| 0 <= j < o + 1 && op_key(#[trigger] p.ops@[j]) == k)) by {
                if k == op_key(p.ops@[o as int]) {
                    assert(op_key(p.ops@[o as int]) == k);
                }
                if exists|j: int| 0 <= j < o + 1 && op_key(#[trigger] p.ops@[j]) == k {
                    let j = choose|j: int| 0 <= j < o + 1 && op_key(#[trigger] p.ops@[j]) == k;
                    if j < o {
                        assert(exists|j2: int| 0 <= j2 < o && op_key(#[trigger] p.ops@[j2]) == k);
                    }
                }
            }
        }
        o += 1;
    }
    let ghost m = keys@;
    let pairs = keys.into_pairs();
    let mut out: Vec<String> = Vec::new();
    let mut n: usize = 0;
    while n < pairs.len()
        invariant
            n <= pairs@.len(),
            in_key_order(crate::ambient::pairs_view(pairs@), m),
            out@.len() == n,
            forall|x: int| 0 <= x < n ==> (#[trigger] out@[x])@ == pairs@[x].0@,
        decreases pairs.len() - n,
    {
        out.push(pairs[n].0.clone());
        n += 1;
    }
    proof {
        let pv = crate::ambient::pairs_view(pairs@);
        assert forall|i: int, j: int| 0 <= i < j < out@.len() implies crate::envmap::chars_lt(#[trigger] out@[i]@, #[trigger] out@[j]@) by {
            assert(pv[i].0 == out@[i]@);
            assert(pv[j].0 == out@[j]@);
        }
        assert forall|i: int| 0 <= i < out@.len() implies touched_keys(*p).contains(#[trigger] out@[i]@) by {
            assert(pv[i].0 == out@[i]@);
        }
        assert forall|k: Seq<char>| touched_keys(*p).contains(k) implies exists|i: int| 0 <= i < out@.len() && #[trigger] out@[i]@ == k by {
            assert(m.contains_key(k));
            let i = choose|i: int| 0 <= i < pv.len() && #[trigger] pv[i].0 == k;
            assert(out@[i]@ == k);
        }
    }
    out
}

} // verus!
