//! Joining paths held as text.
use vstd::prelude::*;

use crate::text::{chars_of, extend_chars, string_of};

verus! {

/// `rel` joined onto `base` as `Path::join` does on Unix: an absolute `rel`
/// replaces `base`; otherwise a `/` is put between them unless `base` is
/// empty or already ends with one.
pub open spec fn path_join_spec(base: Seq<char>, rel: Seq<char>) -> Seq<char> {
    if rel.len() > 0 && rel[0] == '/' {
        rel
    } else if base.len() == 0 || base.last() == '/' {
        base + rel
    } else {
        base + seq!['/'] + rel
    }
}

/// Joins `rel` onto `base`.
pub fn path_join_chars(base: &Vec<char>, rel: &Vec<char>) -> (r: Vec<char>)
    ensures
        r@ == path_join_spec(base@, rel@),
{
    if rel.len() > 0 && rel[0] == '/' {
        let mut out: Vec<char> = Vec::new();
        extend_chars(&mut out, rel);
        assert(out@ =~= rel@);
        return out;
    }
    let mut out: Vec<char> = Vec::new();
    extend_chars(&mut out, base);
    if base.len() > 0 && base[base.len() - 1] != '/' {
        out.push('/');
    }
    extend_chars(&mut out, rel);
    assert(Seq::<char>::empty() + base@ =~= base@);
    out
}

/// Joins `rel` onto `base`.
pub fn path_join(base: &str, rel: &str) -> (r: String)
    ensures
        r@ == path_join_spec(base@, rel@),
{
    string_of(path_join_chars(&chars_of(base), &chars_of(rel)).as_slice())
}

} // verus!
