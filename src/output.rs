//! Assembling the exported pairs into the final environment, and quoting
//! values for a POSIX shell.
use vstd::prelude::*;

use crate::ambient::pairs_view;
use crate::envmap::{in_key_order, EnvMap};
use vstd::string::*;
use crate::text::{chars_of, string_of};

verus! {

/// The mapping that a list of exported pairs gives when a later pair of a
/// key overrides an earlier one.
pub open spec fn exports_map(s: Seq<(Seq<char>, Seq<char>)>) -> Map<Seq<char>, Seq<char>>
    decreases s.len(),
{
    if s.len() == 0 {
        Map::empty()
    } else {
        exports_map(s.drop_last()).insert(s.last().0, s.last().1)
    }
}

/// Whether the pair at `j` repeats the key of an earlier pair.
pub open spec fn repeats_key(s: Seq<(Seq<char>, Seq<char>)>, j: int) -> bool {
    exists|i: int| 0 <= i < j && #[trigger] s[i].0 == s[j].0
}

/// Whether some key occurs twice.
pub open spec fn has_duplicate_key(s: Seq<(Seq<char>, Seq<char>)>) -> bool {
    exists|j: int| 0 <= j < s.len() && #[trigger] repeats_key(s, j)
}

/// A key exported twice while duplicates are refused.
pub struct DuplicateKey {
    pub key: String,
}

impl DuplicateKey {
    /// A description of the error.
    pub fn message(&self) -> (r: String)
        ensures
            r@ == "duplicate exported key detected in strict mode: "@ + self.key@,
    {
        let mut m = String::from_str("duplicate exported key detected in strict mode: ");
        m.append(self.key.as_str());
        m
    }
}

/// Folds exported pairs into a mapping, a later pair of a key overriding an
/// earlier one; in strict mode the first pair that repeats a key is refused
/// instead.
pub fn to_env_map(exports: Vec<(String, String)>, strict: bool) -> (r: Result<EnvMap, DuplicateKey>)
    ensures
        match r {
            Ok(m) => m.wf() && m@ == exports_map(pairs_view(exports@)) && !(strict
                && has_duplicate_key(pairs_view(exports@))),
            Err(d) => strict && exists|j: int|
                0 <= j < exports@.len() && repeats_key(pairs_view(exports@), j) && d.key@
                    == exports@[j].0@ && !has_duplicate_key(pairs_view(exports@).subrange(0, j)),
        },
{
    let ghost all = pairs_view(exports@);
    let mut env = EnvMap::new();
    let mut i: usize = 0;
    while i < exports.len()
        invariant
            i <= exports@.len(),
            all == pairs_view(exports@),
            env.wf(),
            env@ == exports_map(all.subrange(0, i as int)),
            strict ==> !has_duplicate_key(all.subrange(0, i as int)),
        decreases exports.len() - i,
    {
        let ghost prefix = all.subrange(0, i + 1);
        assert(prefix.drop_last() =~= all.subrange(0, i as int));
        assert(prefix.last() == (exports@[i as int].0@, exports@[i as int].1@));
        if strict && env.contains_key(&exports[i].0) {
            assert(repeats_key(all, i as int)) by {
                lemma_exports_map_keys(all.subrange(0, i as int), exports@[i as int].0@);
                let k = choose|k: int| 0 <= k < i && #[trigger] all.subrange(0, i as int)[k].0
                    == exports@[i as int].0@;
                assert(all[k].0 == all[i as int].0);
            }
            return Err(DuplicateKey { key: exports[i].0.clone() });
        }
        proof {
            if strict {
                assert(!has_duplicate_key(prefix)) by {
                    lemma_exports_map_keys(all.subrange(0, i as int), exports@[i as int].0@);
                    if has_duplicate_key(prefix) {
                        let j = choose|j: int| 0 <= j < prefix.len() && #[trigger] repeats_key(
                            prefix,
                            j,
                        );
                        let k = choose|k: int| 0 <= k < j && #[trigger] prefix[k].0 == prefix[j].0;
                        if j < i {
                            assert(repeats_key(all.subrange(0, i as int), j));
                        } else {
                            assert(all.subrange(0, i as int)[k].0 == prefix[k].0);
                        }
                    }
                }
            }
        }
        env.insert(exports[i].0.clone(), exports[i].1.clone());
        i += 1;
    }
    assert(all.subrange(0, i as int) =~= all);
    Ok(env)
}

/// The keys of `exports_map(s)` are the keys of `s`.
proof fn lemma_exports_map_keys(s: Seq<(Seq<char>, Seq<char>)>, key: Seq<char>)
    ensures
        exports_map(s).contains_key(key) <==> exists|k: int| 0 <= k < s.len() && #[trigger] s[k].0
            == key,
    decreases s.len(),
{
    if s.len() > 0 {
        lemma_exports_map_keys(s.drop_last(), key);
        if exists|k: int| 0 <= k < s.len() && #[trigger] s[k].0 == key {
            let k = choose|k: int| 0 <= k < s.len() && #[trigger] s[k].0 == key;
            if k < s.len() - 1 {
                assert(s.drop_last()[k].0 == key);
            }
        }
        if exists|k: int| 0 <= k < s.drop_last().len() && #[trigger] s.drop_last()[k].0 == key {
            let k = choose|k: int| 0 <= k < s.drop_last().len() && #[trigger] s.drop_last()[k].0
                == key;
            assert(s[k].0 == key);
        }
    }
}

/// The characters that stand for one single quote inside a single-quoted
/// shell word: close the quote, a double-quoted quote, reopen.
pub open spec fn quote_escape() -> Seq<char> {
    seq!['\'', '"', '\'', '"', '\'']
}

/// `s` with every single quote replaced by `quote_escape()`.
pub open spec fn shell_escape_spec(s: Seq<char>) -> Seq<char>
    decreases s.len(),
{
    if s.len() == 0 {
        seq![]
    } else if s.last() == '\'' {
        shell_escape_spec(s.drop_last()) + quote_escape()
    } else {
        shell_escape_spec(s.drop_last()).push(s.last())
    }
}

/// Escapes `input` for use between single quotes in a POSIX shell.
pub fn shell_single_quote_escape(input: &str) -> (r: String)
    ensures
        r@ == shell_escape_spec(input@),
{
    let s = chars_of(input);
    let mut out: Vec<char> = Vec::new();
    let mut i: usize = 0;
    while i < s.len()
        invariant
            i <= s.len(),
            out@ == shell_escape_spec(s@.subrange(0, i as int)),
        decreases s.len() - i,
    {
        assert(s@.subrange(0, i + 1).drop_last() =~= s@.subrange(0, i as int));
        if s[i] == '\'' {
            let ghost before = out@;
            out.push('\'');
            out.push('"');
            out.push('\'');
            out.push('"');
            out.push('\'');
            assert(out@ =~= before + quote_escape());
        } else {
            out.push(s[i]);
        }
        i += 1;
    }
    assert(s@.subrange(0, i as int) =~= input@);
    string_of(out.as_slice())
}

#[verifier::external_type_specification]
#[verifier::external_body]
pub struct ExJsonError(serde_json::Error);

/// The pretty-printed JSON object that `serde_json` writes for a map of
/// strings with these entries.
pub uninterp spec fn pretty_json_of(pairs: Seq<(Seq<char>, Seq<char>)>) -> Seq<char>;

/// Relies on `serde_json::to_string_pretty` on a `BTreeMap` of the pairs:
/// the text depends on the entries alone, and writing string keys and
/// values into memory cannot fail.
#[verifier::external_body]
fn pretty_json(pairs: &Vec<(String, String)>) -> (r: Result<String, serde_json::Error>)
    ensures
        r is Ok,
        r matches Ok(s) ==> s@ == pretty_json_of(pairs_view(pairs@)),
{
    let map: std::collections::BTreeMap<&str, &str> = pairs.iter().map(
        |p| (p.0.as_str(), p.1.as_str()),
    ).collect();
    serde_json::to_string_pretty(&map)
}

/// Why the exports could not be rendered.
pub enum RenderError {
    Duplicate(DuplicateKey),
    Json(String),
}

impl RenderError {
    /// A description of the error.
    pub fn message(&self) -> String {
        match self {
            RenderError::Duplicate(d) => d.message(),
            RenderError::Json(m) => m.clone(),
        }
    }
}

/// The line that exports `key` with `value` in a POSIX shell.
pub open spec fn shell_line(key: Seq<char>, value: Seq<char>) -> Seq<char> {
    "export "@ + key + "='"@ + shell_escape_spec(value) + "'\n"@
}

/// The shell lines for entries, in order.
pub open spec fn shell_text(pairs: Seq<(Seq<char>, Seq<char>)>) -> Seq<char>
    decreases pairs.len(),
{
    if pairs.len() == 0 {
        seq![]
    } else {
        shell_text(pairs.drop_last()) + shell_line(pairs.last().0, pairs.last().1)
    }
}

/// What printing the exports writes: one `export KEY='VALUE'` line per
/// variable in key order, or a pretty JSON object followed by a newline.
pub fn render_outputs(exports: Vec<(String, String)>, as_json: bool, strict: bool) -> (r: Result<
    String,
    RenderError,
>)
    ensures
        r is Ok ==> !(strict && has_duplicate_key(pairs_view(exports@))),
        strict && has_duplicate_key(pairs_view(exports@)) ==> r matches Err(RenderError::Duplicate(_)),
        !(strict && has_duplicate_key(pairs_view(exports@))) ==> r is Ok,
        r matches Ok(text) ==> exists|entries: Seq<(Seq<char>, Seq<char>)>|
            in_key_order(entries, exports_map(pairs_view(exports@))) && #[trigger] text@ == (if as_json {
                pretty_json_of(entries) + "\n"@
            } else {
                shell_text(entries)
            }),
{
    let env = match to_env_map(exports, strict) {
        Ok(env) => env,
        Err(d) => {
            return Err(RenderError::Duplicate(d));
        },
    };
    let ghost m = env@;
    let pairs = env.into_pairs();
    if as_json {
        match pretty_json(&pairs) {
            Ok(text) => {
                let mut out = text;
                out.append("\n");
                Ok(out)
            },
            Err(_) => Err(RenderError::Json(String::from_str("failed to render exports as JSON"))),
        }
    } else {
        let mut out = String::new();
        let mut i: usize = 0;
        while i < pairs.len()
            invariant
                i <= pairs@.len(),
                out@ == shell_text(pairs_view(pairs@).subrange(0, i as int)),
            decreases pairs.len() - i,
        {
            assert(pairs_view(pairs@).subrange(0, i + 1).drop_last() =~= pairs_view(
                pairs@,
            ).subrange(0, i as int));
            out.append("export ");
            out.append(pairs[i].0.as_str());
            out.append("='");
            out.append(shell_single_quote_escape(pairs[i].1.as_str()).as_str());
            out.append("'\n");
            i += 1;
        }
        assert(pairs_view(pairs@).subrange(0, i as int) =~= pairs_view(pairs@));
        Ok(out)
    }
}

} // verus!
