//! Normalizing the paths of a parsed profile: symlink sources and targets
//! become absolute, relative to the profile's directory, with `~` expanded.
use path_absolutize::Absolutize;
use vstd::prelude::*;
use vstd::string::*;

use crate::profile::{InjectionProfile, Profile, SymlinkProfile};
use crate::text::{chars_of, slice_chars, string_of};

verus! {

/// `path` with a leading `~` (alone, or before `/`) replaced by `home`, as
/// `shellexpand::tilde_with_context` does; unchanged otherwise or when the
/// home is unknown.
pub open spec fn tilde_spec(path: Seq<char>, home: Option<Seq<char>>) -> Seq<char> {
    if path.len() > 0 && path[0] == '~' && (path.len() == 1 || path[1] == '/') {
        match home {
            Some(h) => h + path.drop_first(),
            None => path,
        }
    } else {
        path
    }
}

/// Relies on `shellexpand::tilde_with_context`, which replaces a leading `~`
/// that stands alone or before `/` by the home directory the closure gives,
/// and leaves every other input as it is.
#[verifier::external_body]
fn expand_tilde(path: &str, home: &Option<String>) -> (r: String)
    ensures
        r@ == tilde_spec(path@, opt_chars(home)),
{
    let home = home.clone();
    shellexpand::tilde_with_context(path, move || home).into_owned()
}

/// The view of an optional string.
pub open spec fn opt_chars(o: &Option<String>) -> Option<Seq<char>> {
    match o {
        Some(s) => Some(s@),
        None => None,
    }
}

/// The absolute path that `path_absolutize` makes of `path` against `base`.
pub uninterp spec fn absolutized(path: Seq<char>, base: Seq<char>) -> Seq<char>;

/// Whether a path is absolute on Unix.
pub open spec fn is_absolute(p: Seq<char>) -> bool {
    p.len() > 0 && p[0] == '/'
}

/// Relies on `path_absolutize::Absolutize::absolutize_from`, which on Unix
/// resolves `.` and `..` against `base` from the text alone and never fails;
/// an absolute `base` keeps it from running out of components.
#[verifier::external_body]
fn absolutize_from(path: &str, base: &str) -> (r: String)
    requires
        is_absolute(base@),
    ensures
        r@ == absolutized(path@, base@),
{
    match std::path::Path::new(path).absolutize_from(base) {
        Ok(p) => p.to_string_lossy().into_owned(),
        Err(_) => String::new(),
    }
}

/// `p` without trailing `/`s, keeping a lone `/`.
pub open spec fn strip_trailing_slashes(p: Seq<char>) -> Seq<char>
    decreases p.len(),
{
    if p.len() > 1 && p.last() == '/' {
        strip_trailing_slashes(p.drop_last())
    } else {
        p
    }
}

/// The last position before `k` that holds `/`, or -1.
pub open spec fn last_slash_before(p: Seq<char>, k: int) -> int
    decreases k,
{
    if k <= 0 || k > p.len() {
        -1
    } else if p[k - 1] == '/' {
        k - 1
    } else {
        last_slash_before(p, k - 1)
    }
}

/// The directory of an absolute path: the text before its last `/` once
/// trailing `/`s are dropped, or `/` for an entry of the root.
pub open spec fn parent_spec(p: Seq<char>) -> Seq<char> {
    let q = strip_trailing_slashes(p);
    let i = last_slash_before(q, q.len() as int);
    if i <= 0 {
        seq!['/']
    } else {
        q.subrange(0, i)
    }
}

/// Computes `parent_spec`.
pub fn parent_dir(p: &str) -> (r: String)
    requires
        is_absolute(p@),
    ensures
        r@ == parent_spec(p@),
        is_absolute(r@),
{
    let v = chars_of(p);
    let mut end: usize = v.len();
    assert(v@.subrange(0, v@.len() as int) =~= v@);
    while end > 1 && v[end - 1] == '/'
        invariant
            end <= v.len(),
            strip_trailing_slashes(v@) == strip_trailing_slashes(v@.subrange(0, end as int)),
        decreases end,
    {
        assert(v@.subrange(0, end as int).drop_last() =~= v@.subrange(0, end - 1));
        end -= 1;
    }
    let ghost q = v@.subrange(0, end as int);
    assert(strip_trailing_slashes(q) == q);
    let mut k: usize = end;
    while k > 0 && v[k - 1] != '/'
        invariant
            k <= end <= v.len(),
            q == v@.subrange(0, end as int),
            last_slash_before(q, end as int) == last_slash_before(q, k as int),
        decreases k,
    {
        assert(q[k - 1] == v@[k - 1]);
        k -= 1;
    }
    if k > 0 {
        assert(q[k - 1] == v@[k - 1]);
    }
    if k <= 1 {
        let mut root: Vec<char> = Vec::new();
        root.push('/');
        assert(root@ =~= seq!['/']);
        string_of(root.as_slice())
    } else {
        let r = slice_chars(&v, 0, k - 1);
        assert(r@ =~= q.subrange(0, k - 1));
        assert(r@[0] == v@[0]);
        string_of(r.as_slice())
    }
}

/// Where a symlink path of a profile points: `~` expanded, then made
/// absolute against the profile's directory unless it already is.
pub open spec fn normalize_spec(path: Seq<char>, base: Seq<char>, home: Option<Seq<char>>) -> Seq<
    char,
> {
    let e = tilde_spec(path, home);
    if is_absolute(e) {
        e
    } else {
        absolutized(e, base)
    }
}

/// Normalizes one path of a profile.
pub fn normalize_path(path: &str, base_dir: &str, home: &Option<String>) -> (r: String)
    requires
        is_absolute(base_dir@),
    ensures
        r@ == normalize_spec(path@, base_dir@, opt_chars(home)),
{
    let expanded = expand_tilde(path, home);
    let chars = chars_of(expanded.as_str());
    if chars.len() > 0 && chars[0] == '/' {
        expanded
    } else {
        absolutize_from(expanded.as_str(), base_dir)
    }
}

/// What normalizing gives for one injection of a profile read from a file
/// in directory `base`.
pub open spec fn normalized_injection(
    old: InjectionProfile,
    new: InjectionProfile,
    base: Seq<char>,
    home: Option<Seq<char>>,
) -> bool {
    match (old, new) {
        (InjectionProfile::Symlink(a), InjectionProfile::Symlink(b)) => b.source@ == normalize_spec(
            a.source@,
            base,
            home,
        ) && b.target@ == normalize_spec(a.target@, base, home) && b.enabled == a.enabled
            && b.on_exist == a.on_exist && b.cleanup == a.cleanup,
        (InjectionProfile::Symlink(_), _) => false,
        (_, InjectionProfile::Symlink(_)) => false,
        _ => old == new,
    }
}

/// Makes the source and target of every symlink injection absolute,
/// relative to the directory of the profile file at `profile_path`, after
/// expanding a leading `~` with `home`. Other injections are kept.
pub fn normalize_symlink_paths(profile_path: &str, profile: &mut Profile, home: &Option<String>)
    requires
        is_absolute(profile_path@),
    ensures
        final(profile).injections@.len() == old(profile).injections@.len(),
        forall|i: int|
            0 <= i < old(profile).injections@.len() ==> normalized_injection(
                #[trigger] old(profile).injections@[i],
                final(profile).injections@[i],
                parent_spec(profile_path@),
                opt_chars(home),
            ),
{
    let base_dir = parent_dir(profile_path);
    let n = profile.injections.len();
    let mut i: usize = 0;
    while i < n
        invariant
            n == old(profile).injections@.len(),
            profile.injections@.len() == n,
            i <= n,
            base_dir@ == parent_spec(profile_path@),
            is_absolute(base_dir@),
            forall|j: int|
                0 <= j < i ==> normalized_injection(
                    #[trigger] old(profile).injections@[j],
                    profile.injections@[j],
                    parent_spec(profile_path@),
                    opt_chars(home),
                ),
            forall|j: int| i <= j < n ==> #[trigger] profile.injections@[j] == old(profile).injections@[j],
        decreases n - i,
    {
        let ghost before = profile.injections@;
        let injection = profile.injections.remove(i);
        let updated = match injection {
            InjectionProfile::Symlink(spec) => {
                let source = normalize_path(spec.source.as_str(), base_dir.as_str(), home);
                let target = normalize_path(spec.target.as_str(), base_dir.as_str(), home);
                InjectionProfile::Symlink(
                    SymlinkProfile {
                        enabled: spec.enabled,
                        source,
                        target,
                        on_exist: spec.on_exist,
                        cleanup: spec.cleanup,
                    },
                )
            },
            other => other,
        };
        profile.injections.insert(i, updated);
        assert(profile.injections@ =~= before.update(i as int, updated));
        i += 1;
    }
}

} // verus!
