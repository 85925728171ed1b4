//! The value-merge algebra: separators, splitting into parts, and merging
//! two list-valued variables with optional de-duplication.
use vstd::prelude::*;
use vstd::string::*;

use crate::text::{chars_eq, chars_of, extend_chars, matches_at, occurs_at, string_of};

verus! {

/// The separator between entries of a path list on this platform.
pub const PATH_LIST_SEPARATOR: &'static str = ":";

/// The views of a sequence of character vectors.
pub open spec fn views(s: Seq<Vec<char>>) -> Seq<Seq<char>> {
    s.map_values(|x: Vec<char>| x@)
}

/// The views of a sequence of strings.
pub open spec fn strs(s: Seq<String>) -> Seq<Seq<char>> {
    s.map_values(|x: String| x@)
}

/// `cur` as a list of one part, or of none when it is empty.
pub open spec fn keep_nonempty(cur: Seq<char>) -> Seq<Seq<char>> {
    if cur.len() == 0 {
        seq![]
    } else {
        seq![cur]
    }
}

/// The non-empty parts of `v` split on `sep`, where `cur` is the part read so far.
pub open spec fn parts_from(v: Seq<char>, sep: Seq<char>, cur: Seq<char>) -> Seq<Seq<char>>
    decreases v.len(),
{
    if v.len() == 0 {
        keep_nonempty(cur)
    } else if sep.len() > 0 && occurs_at(v, 0, sep) {
        keep_nonempty(cur) + parts_from(v.subrange(sep.len() as int, v.len() as int), sep, seq![])
    } else {
        parts_from(v.subrange(1, v.len() as int), sep, cur.push(v[0]))
    }
}

/// The non-empty parts of `v` between occurrences of `sep`, read left to
/// right; an empty separator splits between every two characters.
pub open spec fn split_spec(v: Seq<char>, sep: Seq<char>) -> Seq<Seq<char>> {
    if sep.len() == 0 {
        Seq::new(v.len(), |i: int| seq![v[i]])
    } else {
        parts_from(v, sep, seq![])
    }
}

/// The parts joined with `sep` between every two of them.
pub open spec fn join_spec(parts: Seq<Seq<char>>, sep: Seq<char>) -> Seq<char>
    decreases parts.len(),
{
    if parts.len() == 0 {
        seq![]
    } else if parts.len() == 1 {
        parts[0]
    } else {
        join_spec(parts.drop_last(), sep) + sep + parts.last()
    }
}

/// The parts with every later repetition of a part removed, first
/// occurrences kept in their order.
pub open spec fn dedup_spec(parts: Seq<Seq<char>>) -> Seq<Seq<char>>
    decreases parts.len(),
{
    if parts.len() == 0 {
        seq![]
    } else {
        let d = dedup_spec(parts.drop_last());
        if d.contains(parts.last()) {
            d
        } else {
            d.push(parts.last())
        }
    }
}

/// The parts of `left` followed by those of `right`, de-duplicated when asked.
pub open spec fn merged_parts(left: Seq<char>, right: Seq<char>, sep: Seq<char>, dedup: bool) -> Seq<
    Seq<char>,
> {
    let all = split_spec(left, sep) + split_spec(right, sep);
    if dedup {
        dedup_spec(all)
    } else {
        all
    }
}

/// What merging `left` and `right` with `sep` gives.
pub open spec fn merge_spec(left: Seq<char>, right: Seq<char>, sep: Seq<char>, dedup: bool) -> Seq<
    char,
> {
    join_spec(merged_parts(left, right, sep, dedup), sep)
}

/// The separator that an optional custom separator stands for: the
/// platform's path-list separator when absent or `"os"`, else itself.
pub open spec fn separator_spec(custom: Option<Seq<char>>) -> Seq<char> {
    match custom {
        None => PATH_LIST_SEPARATOR@,
        Some(s) => if s == "os"@ {
            PATH_LIST_SEPARATOR@
        } else {
            s
        },
    }
}

/// Resolves an optional custom separator.
pub fn separator_value(separator: &Option<String>) -> (r: String)
    ensures
        r@ == separator_spec(
            match separator {
                None => None,
                Some(s) => Some(s@),
            },
        ),
{
    match separator {
        None => String::from_str(PATH_LIST_SEPARATOR),
        Some(custom) => {
            let os = chars_of("os");
            if chars_eq(&chars_of(custom.as_str()), &os) {
                String::from_str(PATH_LIST_SEPARATOR)
            } else {
                custom.clone()
            }
        },
    }
}

/// Splits `v` on `sep`, dropping empty parts.
pub fn split_chars(v: &Vec<char>, sep: &Vec<char>) -> (r: Vec<Vec<char>>)
    ensures
        views(r@) == split_spec(v@, sep@),
{
    let mut out: Vec<Vec<char>> = Vec::new();
    if sep.len() == 0 {
        let mut i: usize = 0;
        while i < v.len()
            invariant
                i <= v.len(),
                views(out@) =~= Seq::new(i as nat, |j: int| seq![v@[j]]),
            decreases v.len() - i,
        {
            let mut one: Vec<char> = Vec::new();
            one.push(v[i]);
            assert(one@ =~= seq![v@[i as int]]);
            let ghost old_out = out@;
            out.push(one);
            assert(views(out@) =~= views(old_out).push(one@));
            i += 1;
        }
        return out;
    }
    let mut cur: Vec<char> = Vec::new();
    let mut i: usize = 0;
    assert(v@.subrange(0, v@.len() as int) =~= v@);
    assert(views(out@) =~= Seq::<Seq<char>>::empty());
    assert(cur@ =~= Seq::<char>::empty());
    while i < v.len()
        invariant
            sep@.len() > 0,
            i <= v.len(),
            parts_from(v@, sep@, seq![]) == views(out@) + parts_from(
                v@.subrange(i as int, v@.len() as int),
                sep@,
                cur@,
            ),
        decreases v.len() - i,
    {
        let rest = Ghost(v@.subrange(i as int, v@.len() as int));
        if matches_at(v, i, sep) {
            assert(rest@.subrange(0, sep@.len() as int) =~= v@.subrange(
                i as int,
                i + sep@.len(),
            ));
            assert(rest@.subrange(sep@.len() as int, rest@.len() as int) =~= v@.subrange(
                i + sep@.len(),
                v@.len() as int,
            ));
            let ghost old_out = out@;
            let ghost old_cur = cur@;
            let ghost rest2 = v@.subrange(i + sep@.len(), v@.len() as int);
            assert(parts_from(rest@, sep@, old_cur) == keep_nonempty(old_cur) + parts_from(
                rest2,
                sep@,
                seq![],
            ));
            if cur.len() > 0 {
                out.push(cur);
                assert(views(out@) =~= views(old_out) + keep_nonempty(old_cur));
            } else {
                assert(views(out@) =~= views(old_out) + keep_nonempty(old_cur));
            }
            cur = Vec::new();
            i = i + sep.len();
            assert(cur@ =~= Seq::<char>::empty());
            assert(views(old_out) + (keep_nonempty(old_cur) + parts_from(rest2, sep@, seq![]))
                =~= views(out@) + parts_from(rest2, sep@, cur@));
        } else {
            assert(!occurs_at(rest@, 0, sep@)) by {
                if occurs_at(rest@, 0, sep@) {
                    assert(rest@.subrange(0, sep@.len() as int) =~= v@.subrange(
                        i as int,
                        i + sep@.len(),
                    ));
                }
            }
            assert(rest@.subrange(1, rest@.len() as int) =~= v@.subrange(
                i + 1,
                v@.len() as int,
            ));
            cur.push(v[i]);
            i += 1;
        }
    }
    assert(v@.subrange(i as int, v@.len() as int) =~= Seq::<char>::empty());
    let ghost old_out = out@;
    if cur.len() > 0 {
        out.push(cur);
    }
    assert(views(out@) =~= views(old_out) + keep_nonempty(cur@));
    out
}

/// Splits `value` on `separator`, dropping empty parts.
pub fn split_parts(value: &str, separator: &str) -> (r: Vec<String>)
    ensures
        strs(r@) == split_spec(value@, separator@),
{
    let parts = split_chars(&chars_of(value), &chars_of(separator));
    let mut out: Vec<String> = Vec::new();
    let mut i: usize = 0;
    while i < parts.len()
        invariant
            i <= parts.len(),
            strs(out@) =~= views(parts@).subrange(0, i as int),
        decreases parts.len() - i,
    {
        let s = string_of(parts[i].as_slice());
        let ghost old_out = out@;
        out.push(s);
        assert(strs(out@) =~= strs(old_out).push(s@));
        assert(views(parts@).subrange(0, i + 1) =~= views(parts@).subrange(0, i as int).push(
            parts@[i as int]@,
        ));
        i += 1;
    }
    assert(views(parts@).subrange(0, i as int) =~= views(parts@));
    out
}

/// Joins `parts` with `sep` between every two of them.
pub fn join_chars(parts: &Vec<Vec<char>>, sep: &Vec<char>) -> (r: Vec<char>)
    ensures
        r@ == join_spec(views(parts@), sep@),
{
    let mut out: Vec<char> = Vec::new();
    let mut i: usize = 0;
    while i < parts.len()
        invariant
            i <= parts.len(),
            out@ == join_spec(views(parts@).subrange(0, i as int), sep@),
        decreases parts.len() - i,
    {
        let ghost prefix = views(parts@).subrange(0, i + 1);
        assert(prefix.drop_last() =~= views(parts@).subrange(0, i as int));
        if i > 0 {
            extend_chars(&mut out, sep);
        }
        extend_chars(&mut out, &parts[i]);
        i += 1;
        assert(out@ =~= join_spec(prefix, sep@));
    }
    assert(views(parts@).subrange(0, i as int) =~= views(parts@));
    out
}

/// Whether `x` is one of `parts`.
pub fn contains_part(parts: &Vec<Vec<char>>, x: &Vec<char>) -> (r: bool)
    ensures
        r == views(parts@).contains(x@),
{
    let mut i: usize = 0;
    while i < parts.len()
        invariant
            i <= parts.len(),
            forall|j: int| 0 <= j < i ==> parts@[j]@ != x@,
        decreases parts.len() - i,
    {
        if chars_eq(&parts[i], x) {
            assert(views(parts@)[i as int] == x@);
            return true;
        }
        i += 1;
    }
    assert(!views(parts@).contains(x@)) by {
        if views(parts@).contains(x@) {
            let j = choose|j: int| 0 <= j < views(parts@).len() && views(parts@)[j] == x@;
            assert(parts@[j]@ == x@);
        }
    }
    false
}

/// Keeps the first occurrence of every part, in order.
pub fn dedup_chars(parts: Vec<Vec<char>>) -> (r: Vec<Vec<char>>)
    ensures
        views(r@) == dedup_spec(views(parts@)),
{
    let mut out: Vec<Vec<char>> = Vec::new();
    let mut i: usize = 0;
    while i < parts.len()
        invariant
            i <= parts.len(),
            views(out@) == dedup_spec(views(parts@).subrange(0, i as int)),
        decreases parts.len() - i,
    {
        let ghost prefix = views(parts@).subrange(0, i + 1);
        assert(prefix.drop_last() =~= views(parts@).subrange(0, i as int));
        let entry = parts[i].clone();
        assert(entry@ == prefix.last());
        if !contains_part(&out, &entry) {
            let ghost old_out = out@;
            out.push(entry);
            assert(views(out@) =~= views(old_out).push(prefix.last()));
        }
        i += 1;
    }
    assert(views(parts@).subrange(0, i as int) =~= views(parts@));
    out
}

/// Concatenates the parts of `left` and `right` split on `separator` and
/// joins them again with it; with `dedup`, later repetitions of a part are
/// dropped.
pub fn merge_values(left: &str, right: &str, separator: &str, dedup: bool) -> (r: String)
    ensures
        r@ == merge_spec(left@, right@, separator@, dedup),
{
    let sep = chars_of(separator);
    let mut out = split_chars(&chars_of(left), &sep);
    let right_parts = split_chars(&chars_of(right), &sep);
    let ghost left_view = views(out@);
    let mut i: usize = 0;
    while i < right_parts.len()
        invariant
            i <= right_parts.len(),
            views(out@) =~= left_view + views(right_parts@).subrange(0, i as int),
        decreases right_parts.len() - i,
    {
        let part = right_parts[i].clone();
        assert(part@ == right_parts@[i as int]@);
        let ghost old_out = out@;
        out.push(part);
        assert(views(out@) =~= views(old_out).push(part@));
        assert(views(right_parts@).subrange(0, i + 1) =~= views(right_parts@).subrange(
            0,
            i as int,
        ).push(part@));
        i += 1;
    }
    assert(views(right_parts@).subrange(0, i as int) =~= views(right_parts@));
    let joined = if dedup {
        join_chars(&dedup_chars(out), &sep)
    } else {
        join_chars(&out, &sep)
    };
    string_of(joined.as_slice())
}


/// `p` holds no occurrence of `sep`.
pub open spec fn free_of(p: Seq<char>, sep: Seq<char>) -> bool {
    forall|j: int| !#[trigger] occurs_at(p, j, sep)
}

/// No proper prefix of `sep` is also a suffix of it, so two occurrences
/// of `sep` can never overlap.
pub open spec fn unbordered(sep: Seq<char>) -> bool {
    forall|k: int|
        0 < k < sep.len() ==> #[trigger] sep.subrange(0, k) != sep.subrange(
            sep.len() - k,
            sep.len() as int,
        )
}

/// A separator for which splitting undoes joining: empty, or unbordered.
pub open spec fn faithful_separator(sep: Seq<char>) -> bool {
    sep.len() == 0 || unbordered(sep)
}

/// Parts that are non-empty and hold no occurrence of the separator.
pub open spec fn clean_parts(parts: Seq<Seq<char>>, sep: Seq<char>) -> bool {
    forall|i: int| 0 <= i < parts.len() ==> (#[trigger] parts[i]).len() > 0 && free_of(parts[i], sep)
}

/// Reading past text without the separator, up to a separator or the end,
/// extends the current part.
proof fn lemma_parts_skip(p: Seq<char>, t: Seq<char>, sep: Seq<char>, cur: Seq<char>)
    requires
        sep.len() > 0,
        unbordered(sep),
        free_of(p, sep),
        t.len() == 0 || occurs_at(t, 0, sep),
    ensures
        parts_from(p + t, sep, cur) == parts_from(t, sep, cur + p),
    decreases p.len(),
{
    let m = sep.len() as int;
    if p.len() == 0 {
        assert(p + t =~= t);
        assert(cur + p =~= cur);
    } else {
        let v = p + t;
        assert(!occurs_at(v, 0, sep)) by {
            if occurs_at(v, 0, sep) {
                if p.len() >= m {
                    assert(p.subrange(0, m) =~= v.subrange(0, m));
                    assert(occurs_at(p, 0, sep));
                } else if t.len() == 0 {
                    assert(v.len() == p.len());
                } else {
                    let k = m - p.len();
                    assert(0 < k < m);
                    assert(sep.subrange(0, k) =~= sep.subrange(m - k, m)) by {
                        assert forall|x: int| 0 <= x < k implies sep.subrange(0, k)[x]
                            == sep.subrange(m - k, m)[x] by {
                            assert(t.subrange(0, m)[x] == sep[x]);
                            assert(v[p.len() + x] == t[x]);
                            assert(v.subrange(0, m)[p.len() + x] == sep[p.len() + x]);
                        }
                    }
                }
            }
        }
        assert(v.subrange(1, v.len() as int) =~= p.drop_first() + t);
        assert(free_of(p.drop_first(), sep)) by {
            assert forall|j: int| !#[trigger] occurs_at(p.drop_first(), j, sep) by {
                if occurs_at(p.drop_first(), j, sep) {
                    assert(p.subrange(j + 1, j + 1 + m) =~= p.drop_first().subrange(j, j + m));
                    assert(occurs_at(p, j + 1, sep));
                }
            }
        }
        lemma_parts_skip(p.drop_first(), t, sep, cur.push(p[0]));
        assert(cur.push(p[0]) + p.drop_first() =~= cur + p);
    }
}

/// A separator at the front closes the current part.
proof fn lemma_parts_sep(t: Seq<char>, sep: Seq<char>, cur: Seq<char>)
    requires
        sep.len() > 0,
    ensures
        parts_from(sep + t, sep, cur) == keep_nonempty(cur) + parts_from(t, sep, seq![]),
{
    let v = sep + t;
    assert(v.subrange(0, sep.len() as int) =~= sep);
    assert(v.subrange(sep.len() as int, v.len() as int) =~= t);
}

/// Every part read left to right is non-empty and holds no occurrence of the
/// separator, when the part read so far holds none and no occurrence starts
/// inside it.
proof fn lemma_parts_clean(v: Seq<char>, sep: Seq<char>, cur: Seq<char>)
    requires
        sep.len() > 0,
        free_of(cur, sep),
        forall|j: int| 0 <= j < cur.len() ==> !#[trigger] occurs_at(cur + v, j, sep),
    ensures
        clean_parts(parts_from(v, sep, cur), sep),
    decreases v.len(),
{
    let m = sep.len() as int;
    if v.len() == 0 {
        assert forall|i: int| 0 <= i < keep_nonempty(cur).len() implies (#[trigger] keep_nonempty(
            cur,
        )[i]).len() > 0 && free_of(keep_nonempty(cur)[i], sep) by {
            assert(keep_nonempty(cur)[i] == cur);
        }
    } else if occurs_at(v, 0, sep) {
        let rest = v.subrange(m, v.len() as int);
        assert forall|j: int| !#[trigger] occurs_at(Seq::<char>::empty(), j, sep) by {}
        assert forall|j: int| 0 <= j < 0 implies !#[trigger] occurs_at(Seq::<char>::empty() + rest, j, sep) by {}
        lemma_parts_clean(rest, sep, seq![]);
        let k = keep_nonempty(cur);
        let tail = parts_from(rest, sep, seq![]);
        assert(parts_from(v, sep, cur) == k + tail);
        assert forall|i: int| 0 <= i < (k + tail).len() implies (#[trigger] (k + tail)[i]).len() > 0
            && free_of((k + tail)[i], sep) by {
            if i < k.len() {
                assert((k + tail)[i] == cur);
            } else {
                assert((k + tail)[i] == tail[i - k.len()]);
            }
        }
    } else {
        let c2 = cur.push(v[0]);
        let v2 = v.subrange(1, v.len() as int);
        assert(c2 + v2 =~= cur + v);
        assert(free_of(c2, sep)) by {
            assert forall|j: int| !#[trigger] occurs_at(c2, j, sep) by {
                if occurs_at(c2, j, sep) {
                    if j + m <= cur.len() {
                        assert(cur.subrange(j, j + m) =~= c2.subrange(j, j + m));
                        assert(occurs_at(cur, j, sep));
                    } else {
                        assert((cur + v).subrange(j, j + m) =~= c2.subrange(j, j + m));
                        if j < cur.len() {
                            assert(occurs_at(cur + v, j, sep));
                        } else {
                            assert(v.subrange(0, m) =~= c2.subrange(j, j + m));
                        }
                    }
                }
            }
        }
        assert forall|j: int| 0 <= j < c2.len() implies !#[trigger] occurs_at(c2 + v2, j, sep) by {
            if j == cur.len() && occurs_at(c2 + v2, j, sep) {
                assert((cur + v).subrange(j, j + m) =~= v.subrange(0, m));
            }
        }
        lemma_parts_clean(v2, sep, c2);
        assert(parts_from(v, sep, cur) == parts_from(v2, sep, c2));
    }
}

proof fn lemma_join_then_rest(parts: Seq<Seq<char>>, sep: Seq<char>, t: Seq<char>)
    requires
        sep.len() > 0,
        unbordered(sep),
        clean_parts(parts, sep),
    ensures
        parts_from(join_spec(parts, sep) + sep + t, sep, seq![]) == parts + parts_from(t, sep, seq![]),
    decreases parts.len(),
{
    let m = sep.len() as int;
    assert(occurs_at(sep + t, 0, sep)) by {
        assert((sep + t).subrange(0, m) =~= sep);
    }
    if parts.len() == 0 {
        assert(join_spec(parts, sep) + sep + t =~= sep + t);
        lemma_parts_sep(t, sep, seq![]);
        assert(parts + parts_from(t, sep, seq![]) =~= parts_from(t, sep, seq![]));
    } else if parts.len() == 1 {
        let p = parts[0];
        assert(join_spec(parts, sep) + sep + t =~= p + (sep + t));
        lemma_parts_skip(p, sep + t, sep, seq![]);
        assert(seq![] + p =~= p);
        lemma_parts_sep(t, sep, p);
        assert(parts =~= seq![p]);
    } else {
        let init = parts.drop_last();
        let last = parts.last();
        assert(clean_parts(init, sep)) by {
            assert forall|i: int| 0 <= i < init.len() implies (#[trigger] init[i]).len() > 0
                && free_of(init[i], sep) by {
                assert(init[i] == parts[i]);
            }
        }
        assert(parts[parts.len() - 1] == last);
        let tail = last + sep + t;
        assert(join_spec(parts, sep) + sep + t =~= join_spec(init, sep) + sep + tail);
        lemma_join_then_rest(init, sep, tail);
        assert(tail =~= last + (sep + t));
        lemma_parts_skip(last, sep + t, sep, seq![]);
        assert(seq![] + last =~= last);
        lemma_parts_sep(t, sep, last);
        assert(init + (seq![last] + parts_from(t, sep, seq![])) =~= parts + parts_from(
            t,
            sep,
            seq![],
        ));
    }
}

/// Splitting parts joined with a non-empty unbordered separator gives them back.
pub proof fn lemma_split_join(parts: Seq<Seq<char>>, sep: Seq<char>)
    requires
        sep.len() > 0,
        unbordered(sep),
        clean_parts(parts, sep),
    ensures
        split_spec(join_spec(parts, sep), sep) == parts,
{
    if parts.len() == 0 {
    } else if parts.len() == 1 {
        let p = parts[0];
        assert(p + seq![] =~= p);
        lemma_parts_skip(p, seq![], sep, seq![]);
        assert(seq![] + p =~= p);
        assert(parts =~= seq![p]);
    } else {
        let init = parts.drop_last();
        let last = parts.last();
        assert(clean_parts(init, sep)) by {
            assert forall|i: int| 0 <= i < init.len() implies (#[trigger] init[i]).len() > 0
                && free_of(init[i], sep) by {
                assert(init[i] == parts[i]);
            }
        }
        assert(parts[parts.len() - 1] == last);
        lemma_join_then_rest(init, sep, last);
        assert(last + seq![] =~= last);
        lemma_parts_skip(last, seq![], sep, seq![]);
        assert(seq![] + last =~= last);
        assert(init + seq![last] =~= parts);
    }
}

/// Every part that splitting on a non-empty separator gives is non-empty
/// and free of the separator.
proof fn lemma_split_clean(v: Seq<char>, sep: Seq<char>)
    requires
        sep.len() > 0,
    ensures
        clean_parts(split_spec(v, sep), sep),
{
    assert(free_of(Seq::<char>::empty(), sep));
    assert(Seq::<char>::empty() + v =~= v);
    lemma_parts_clean(v, sep, seq![]);
}

/// Parts of one character each.
pub open spec fn single_chars(parts: Seq<Seq<char>>) -> bool {
    forall|i: int| 0 <= i < parts.len() ==> (#[trigger] parts[i]).len() == 1
}

/// Splitting one-character parts joined without a separator gives them back.
proof fn lemma_split_join_empty(parts: Seq<Seq<char>>)
    requires
        single_chars(parts),
    ensures
        split_spec(join_spec(parts, seq![]), seq![]) == parts,
    decreases parts.len(),
{
    if parts.len() == 1 {
        assert(parts[0] =~= seq![parts[0][0]]);
        assert(split_spec(parts[0], seq![]) =~= parts);
    } else if parts.len() > 1 {
        let init = parts.drop_last();
        assert(single_chars(init)) by {
            assert forall|i: int| 0 <= i < init.len() implies (#[trigger] init[i]).len() == 1 by {
                assert(init[i] == parts[i]);
            }
        }
        lemma_split_join_empty(init);
        let last = parts.last();
        assert(parts[parts.len() - 1] == last);
        let j = join_spec(init, seq![]);
        assert(join_spec(parts, seq![]) =~= j + last);
        assert(last =~= seq![last[0]]);
        assert(split_spec(j + last, seq![]) =~= split_spec(j, seq![]).push(last));
        assert(init.push(last) =~= parts);
    } else {
        assert(split_spec(join_spec(parts, seq![]), seq![]) =~= parts);
    }
}

proof fn lemma_push_contains(s: Seq<Seq<char>>, a: Seq<char>, x: Seq<char>)
    ensures
        s.push(a).contains(x) <==> (s.contains(x) || x == a),
{
    if s.push(a).contains(x) {
        let j = choose|j: int| 0 <= j < s.push(a).len() && s.push(a)[j] == x;
        if j < s.len() {
            assert(s[j] == x);
        }
    }
    if s.contains(x) {
        let j = choose|j: int| 0 <= j < s.len() && s[j] == x;
        assert(s.push(a)[j] == x);
    }
    if x == a {
        assert(s.push(a)[s.len() as int] == x);
    }
}

/// De-duplication leaves no repeated part and keeps exactly the parts it was given.
pub proof fn lemma_dedup(s: Seq<Seq<char>>)
    ensures
        dedup_spec(s).no_duplicates(),
        forall|x: Seq<char>| dedup_spec(s).contains(x) <==> s.contains(x),
    decreases s.len(),
{
    if s.len() > 0 {
        let init = s.drop_last();
        let last = s.last();
        lemma_dedup(init);
        let d = dedup_spec(init);
        assert(s =~= init.push(last));
        assert forall|x: Seq<char>| dedup_spec(s).contains(x) <==> s.contains(x) by {
            lemma_push_contains(init, last, x);
            lemma_push_contains(d, last, x);
        }
        if !d.contains(last) {
            let e = d.push(last);
            assert forall|i: int, j: int| 0 <= i < e.len() && 0 <= j < e.len() && i != j implies e[i]
                != e[j] by {
                if i < d.len() && j < d.len() {
                    assert(d[i] != d[j]);
                } else if i < d.len() {
                    assert(d.contains(d[i]));
                } else {
                    assert(d.contains(d[j]));
                }
            }
        }
    }
}

proof fn lemma_merged_parts_clean(left: Seq<char>, right: Seq<char>, sep: Seq<char>)
    ensures
        sep.len() > 0 ==> clean_parts(split_spec(left, sep) + split_spec(right, sep), sep),
        sep.len() == 0 ==> single_chars(split_spec(left, sep) + split_spec(right, sep)),
{
    let l = split_spec(left, sep);
    let r = split_spec(right, sep);
    if sep.len() > 0 {
        lemma_split_clean(left, sep);
        lemma_split_clean(right, sep);
        assert forall|i: int| 0 <= i < (l + r).len() implies (#[trigger] (l + r)[i]).len() > 0
            && free_of((l + r)[i], sep) by {
            if i < l.len() {
                assert((l + r)[i] == l[i]);
            } else {
                assert((l + r)[i] == r[i - l.len()]);
            }
        }
    } else {
        assert forall|i: int| 0 <= i < (l + r).len() implies (#[trigger] (l + r)[i]).len() == 1 by {
            if i < l.len() {
                assert((l + r)[i] == l[i]);
            } else {
                assert((l + r)[i] == r[i - l.len()]);
            }
        }
    }
}

/// Merging without de-duplication loses no part: splitting the merged value
/// gives the parts of `left` followed by the parts of `right`. This holds
/// for every separator that cannot overlap itself (and for the empty one);
/// a separator such as `aa` can, and there `a` merged with `a` gives `aaaa`,
/// which splits into nothing.
pub proof fn lemma_merge_keeps_every_part(left: Seq<char>, right: Seq<char>, sep: Seq<char>)
    requires
        faithful_separator(sep),
    ensures
        split_spec(merge_spec(left, right, sep, false), sep) == split_spec(left, sep) + split_spec(
            right,
            sep,
        ),
{
    lemma_merged_parts_clean(left, right, sep);
    if sep.len() > 0 {
        lemma_split_join(split_spec(left, sep) + split_spec(right, sep), sep);
    } else {
        assert(sep =~= Seq::<char>::empty());
        lemma_split_join_empty(split_spec(left, sep) + split_spec(right, sep));
    }
}

/// Merging with de-duplication keeps the first occurrence of every part of
/// `left` then `right`, in order, and leaves no part twice: splitting the
/// merged value gives exactly those parts, for every separator that cannot
/// overlap itself (and for the empty one).
pub proof fn lemma_merge_dedup_first_occurrences(left: Seq<char>, right: Seq<char>, sep: Seq<char>)
    requires
        faithful_separator(sep),
    ensures
        split_spec(merge_spec(left, right, sep, true), sep) == dedup_spec(
            split_spec(left, sep) + split_spec(right, sep),
        ),
        split_spec(merge_spec(left, right, sep, true), sep).no_duplicates(),
        forall|x: Seq<char>|
            split_spec(merge_spec(left, right, sep, true), sep).contains(x) <==> (split_spec(
                left,
                sep,
            ) + split_spec(right, sep)).contains(x),
{
    let all = split_spec(left, sep) + split_spec(right, sep);
    lemma_merged_parts_clean(left, right, sep);
    lemma_dedup(all);
    let d = dedup_spec(all);
    if sep.len() > 0 {
        assert(clean_parts(d, sep)) by {
            assert forall|i: int| 0 <= i < d.len() implies (#[trigger] d[i]).len() > 0 && free_of(
                d[i],
                sep,
            ) by {
                assert(d.contains(d[i]));
                assert(all.contains(d[i]));
                let j = choose|j: int| 0 <= j < all.len() && all[j] == d[i];
            }
        }
        lemma_split_join(d, sep);
    } else {
        assert(single_chars(d)) by {
            assert forall|i: int| 0 <= i < d.len() implies (#[trigger] d[i]).len() == 1 by {
                assert(d.contains(d[i]));
                assert(all.contains(d[i]));
                let j = choose|j: int| 0 <= j < all.len() && all[j] == d[i];
            }
        }
        assert(sep =~= Seq::<char>::empty());
        lemma_split_join_empty(d);
    }
}

} // verus!
