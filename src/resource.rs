//! Resolving `resource://` references to paths under a resource root.
use vstd::prelude::*;

use crate::paths::{path_join_chars, path_join_spec};
use crate::text::{chars_of, extend_chars, matches_at, occurs_at, slice_chars, string_of};

verus! {

/// The scheme that marks a reference to a resource.
pub open spec fn resource_prefix() -> Seq<char> {
    seq!['r', 'e', 's', 'o', 'u', 'r', 'c', 'e', ':', '/', '/']
}

/// The first position at or after `k` where `pat` occurs in `s`, or the
/// length of `s` when there is none.
pub open spec fn find_from(s: Seq<char>, k: int, pat: Seq<char>) -> int
    decreases s.len() + 1 - k,
{
    if k < 0 || k + pat.len() > s.len() {
        s.len() as int
    } else if occurs_at(s, k, pat) {
        k
    } else {
        find_from(s, k + 1, pat)
    }
}

/// Whether `c` ends the relative path of a resource reference.
pub open spec fn ends_reference(c: char) -> bool {
    c == ':' || c == ';'
}

/// The first position at or after `k` that holds `:` or `;`, or the length of `s`.
pub open spec fn reference_end(s: Seq<char>, k: int) -> int
    decreases s.len() - k,
{
    if k < 0 || k >= s.len() {
        s.len() as int
    } else if ends_reference(s[k]) {
        k
    } else {
        reference_end(s, k + 1)
    }
}

/// `s` with every `resource://<rel>` replaced by `<rel>` joined onto `root`,
/// where `<rel>` runs up to the next `:` or `;` or the end; a reference with
/// an empty `<rel>` is kept as it is. Text around references is kept.
pub open spec fn resolve_spec(s: Seq<char>, root: Seq<char>) -> Seq<char>
    decreases s.len(),
{
    let idx = find_from(s, 0, resource_prefix());
    if idx < 0 || idx + resource_prefix().len() > s.len() {
        s
    } else {
        let after = s.subrange(idx + resource_prefix().len(), s.len() as int);
        let end = reference_end(after, 0);
        if end < 0 || end > after.len() {
            s
        } else {
            let rel = after.subrange(0, end);
            s.subrange(0, idx) + (if rel.len() == 0 {
                resource_prefix()
            } else {
                path_join_spec(root, rel)
            }) + resolve_spec(after.subrange(end, after.len() as int), root)
        }
    }
}

fn find_pattern(v: &Vec<char>, pat: &Vec<char>) -> (r: usize)
    ensures
        r == find_from(v@, 0, pat@),
{
    let mut k: usize = 0;
    while k < v.len() && pat.len() <= v.len() - k && !matches_at(v, k, pat)
        invariant
            k <= v.len(),
            find_from(v@, 0, pat@) == find_from(v@, k as int, pat@),
        decreases v.len() - k,
    {
        k += 1;
    }
    if k < v.len() && pat.len() <= v.len() - k {
        k
    } else {
        assert(k == v.len() && pat@.len() == 0 ==> v@.subrange(k as int, k as int) =~= pat@);
        v.len()
    }
}

fn find_reference_end(v: &Vec<char>) -> (r: usize)
    ensures
        r == reference_end(v@, 0),
        r <= v.len(),
{
    let mut k: usize = 0;
    while k < v.len() && v[k] != ':' && v[k] != ';'
        invariant
            k <= v.len(),
            reference_end(v@, 0) == reference_end(v@, k as int),
        decreases v.len() - k,
    {
        k += 1;
    }
    k
}

/// Replaces every `resource://<rel>` in `value` by `<rel>` joined onto
/// `resource_home`.
pub fn resolve_resource_refs(value: &str, resource_home: &str) -> (r: String)
    ensures
        r@ == resolve_spec(value@, resource_home@),
{
    let prefix = chars_of("resource://");
    proof {
        reveal_strlit("resource://");
    }
    assert(prefix@ =~= resource_prefix());
    let root = chars_of(resource_home);
    let mut rest = chars_of(value);
    let mut out: Vec<char> = Vec::new();
    loop
        invariant
            prefix@ == resource_prefix(),
            root@ == resource_home@,
            resolve_spec(value@, resource_home@) == out@ + resolve_spec(rest@, root@),
        decreases rest.len(),
    {
        let idx = find_pattern(&rest, &prefix);
        if idx >= rest.len() || prefix.len() > rest.len() - idx {
            extend_chars(&mut out, &rest);
            return string_of(out.as_slice());
        }
        let ghost before = out@;
        let after = slice_chars(&rest, idx + prefix.len(), rest.len());
        let end = find_reference_end(&after);
        let rel = slice_chars(&after, 0, end);
        extend_chars(&mut out, &slice_chars(&rest, 0, idx));
        if rel.len() == 0 {
            extend_chars(&mut out, &prefix);
        } else {
            extend_chars(&mut out, &path_join_chars(&root, &rel));
        }
        let next = slice_chars(&after, end, after.len());
        assert(before + (rest@.subrange(0, idx as int) + (if rel@.len() == 0 {
            resource_prefix()
        } else {
            path_join_spec(root@, rel@)
        }) + resolve_spec(next@, root@)) =~= out@ + resolve_spec(next@, root@));
        rest = next;
    }
}

} // verus!
