//! Reading exported variables out of the standard output of a command.
use vstd::prelude::*;

use crate::ambient::{pairs_view, EnvSnapshot};
use crate::env::blank;
use crate::profile::CommandProfile;
use vstd::string::*;
use vstd::utf8::{decode_utf8, valid_utf8};
use crate::merge::split_chars;
use crate::text::{
    chars_of, extend_chars, find_char, first_from, matches_at, occurs_at, slice_chars, string_of,
    trim_chars, trim_spec,
};

verus! {

/// Characters that may make up a bare variable name after `$`.
pub open spec fn is_name_char(c: char) -> bool {
    ('a' <= c && c <= 'z') || ('A' <= c && c <= 'Z') || ('0' <= c && c <= '9') || c == '_'
}

/// The end of the run of name characters that starts at `k`.
pub open spec fn name_end(s: Seq<char>, k: int) -> int
    decreases s.len() - k,
{
    if 0 <= k < s.len() && is_name_char(s[k]) {
        name_end(s, k + 1)
    } else {
        k
    }
}

/// The expansion of `s` from position `i` on: `${NAME}` and `$NAME` become
/// the value of `NAME` (nothing when it is unset), `${}` becomes nothing, and
/// any other `$` stays as it is, as does an unterminated `${`.
pub open spec fn expand_from(s: Seq<char>, i: int, env: EnvSnapshot) -> Seq<char>
    decreases s.len() - i,
{
    if i < 0 || i >= s.len() {
        seq![]
    } else if s[i] != '$' {
        seq![s[i]] + expand_from(s, i + 1, env)
    } else if i + 1 < s.len() && s[i + 1] == '{' && i + 2 <= first_from(s, i + 2, '}') < s.len() {
        let j = first_from(s, i + 2, '}');
        (if j > i + 2 {
            env.value_or_empty(s.subrange(i + 2, j))
        } else {
            seq![]
        }) + expand_from(s, j + 1, env)
    } else if i + 1 < name_end(s, i + 1) <= s.len() {
        let j = name_end(s, i + 1);
        env.value_or_empty(s.subrange(i + 1, j)) + expand_from(s, j, env)
    } else {
        seq!['$'] + expand_from(s, i + 1, env)
    }
}

/// The expansion of the variable references in `s`.
pub open spec fn expand_spec(s: Seq<char>, env: EnvSnapshot) -> Seq<char> {
    expand_from(s, 0, env)
}

/// Text without a `$` expands to itself, whatever the environment holds.
pub proof fn lemma_expand_without_dollar(s: Seq<char>, env: EnvSnapshot)
    requires
        !s.contains('$'),
    ensures
        expand_spec(s, env) == s,
{
    lemma_expand_from_without_dollar(s, 0, env);
    assert(s.subrange(0, s.len() as int) =~= s);
}

proof fn lemma_expand_from_without_dollar(s: Seq<char>, i: int, env: EnvSnapshot)
    requires
        !s.contains('$'),
        0 <= i <= s.len(),
    ensures
        expand_from(s, i, env) == s.subrange(i, s.len() as int),
    decreases s.len() - i,
{
    if i < s.len() {
        assert(s[i] != '$') by {
            if s[i] == '$' {
                assert(s.contains(s[i]));
            }
        }
        lemma_expand_from_without_dollar(s, i + 1, env);
        assert(seq![s[i]] + s.subrange(i + 1, s.len() as int) =~= s.subrange(i, s.len() as int));
    } else {
        assert(s.subrange(i, s.len() as int) =~= Seq::<char>::empty());
    }
}

fn name_end_at(v: &Vec<char>, k: usize) -> (r: usize)
    requires
        k <= v.len(),
    ensures
        r == name_end(v@, k as int),
        k <= r <= v.len(),
{
    let mut j: usize = k;
    while j < v.len() && (('a' <= v[j] && v[j] <= 'z') || ('A' <= v[j] && v[j] <= 'Z') || ('0'
        <= v[j] && v[j] <= '9') || v[j] == '_')
        invariant
            k <= j <= v.len(),
            name_end(v@, k as int) == name_end(v@, j as int),
        decreases v.len() - j,
    {
        j += 1;
    }
    j
}

fn append_value(out: &mut Vec<char>, env: &EnvSnapshot, v: &Vec<char>, from: usize, to: usize)
    requires
        from <= to <= v.len(),
    ensures
        final(out)@ == old(out)@ + env.value_or_empty(v@.subrange(from as int, to as int)),
{
    let key = string_of(slice_chars(v, from, to).as_slice());
    match env.get(key.as_str()) {
        Some(value) => extend_chars(out, &chars_of(value.as_str())),
        None => {
            assert(old(out)@ + seq![] =~= old(out)@);
        },
    }
}

/// Expands `${NAME}` and `$NAME` references with values from `env`.
pub fn expand_vars(input: &str, env: &EnvSnapshot) -> (r: String)
    ensures
        r@ == expand_spec(input@, *env),
        !input@.contains('$') ==> r@ == input@,
{
    let s = chars_of(input);
    let mut out: Vec<char> = Vec::new();
    let mut i: usize = 0;
    while i < s.len()
        invariant
            s@ == input@,
            i <= s.len(),
            expand_spec(s@, *env) == out@ + expand_from(s@, i as int, *env),
        decreases s.len() - i,
    {
        let ghost before = out@;
        if s[i] != '$' {
            out.push(s[i]);
            assert(before + (seq![s@[i as int]] + expand_from(s@, i + 1, *env)) =~= out@
                + expand_from(s@, i + 1, *env));
            i += 1;
            continue;
        }
        if i + 1 < s.len() && s[i + 1] == '{' {
            let j = find_char(&s, i + 2, '}');
            if j < s.len() {
                if j > i + 2 {
                    append_value(&mut out, env, &s, i + 2, j);
                }
                assert(before + ((if j > i + 2 {
                    env.value_or_empty(s@.subrange(i + 2, j as int))
                } else {
                    seq![]
                }) + expand_from(s@, j + 1, *env)) =~= out@ + expand_from(s@, j + 1, *env));
                i = j + 1;
                continue;
            }
        }
        let j = name_end_at(&s, i + 1);
        if j > i + 1 {
            append_value(&mut out, env, &s, i + 1, j);
            assert(before + (env.value_or_empty(s@.subrange(i + 1, j as int)) + expand_from(
                s@,
                j as int,
                *env,
            )) =~= out@ + expand_from(s@, j as int, *env));
            i = j;
            continue;
        }
        out.push('$');
        assert(before + (seq!['$'] + expand_from(s@, i + 1, *env)) =~= out@ + expand_from(
            s@,
            i + 1,
            *env,
        ));
        i += 1;
    }
    assert(out@ + seq![] =~= out@);
    proof {
        if !input@.contains('$') {
            lemma_expand_without_dollar(input@, *env);
        }
    }
    string_of(out.as_slice())
}

/// `s` without any `"` or `'` character.
pub open spec fn strip_quotes_spec(s: Seq<char>) -> Seq<char>
    decreases s.len(),
{
    if s.len() == 0 {
        seq![]
    } else if s.last() == '"' || s.last() == '\'' {
        strip_quotes_spec(s.drop_last())
    } else {
        strip_quotes_spec(s.drop_last()).push(s.last())
    }
}

/// What a raw assigned value stands for: quotes removed, then references expanded.
pub open spec fn normalize_spec(raw: Seq<char>, env: EnvSnapshot) -> Seq<char> {
    expand_spec(strip_quotes_spec(raw), env)
}

/// Removes every quote character from `raw` and expands the variable
/// references that remain.
pub fn normalize_value(raw: &str, env: &EnvSnapshot) -> (r: String)
    ensures
        r@ == normalize_spec(raw@, *env),
{
    let s = chars_of(raw);
    let mut out: Vec<char> = Vec::new();
    let mut i: usize = 0;
    while i < s.len()
        invariant
            i <= s.len(),
            out@ == strip_quotes_spec(s@.subrange(0, i as int)),
        decreases s.len() - i,
    {
        assert(s@.subrange(0, i + 1).drop_last() =~= s@.subrange(0, i as int));
        if s[i] != '"' && s[i] != '\'' {
            out.push(s[i]);
        }
        i += 1;
    }
    assert(s@.subrange(0, i as int) =~= raw@);
    expand_vars(string_of(out.as_slice()).as_str(), env)
}

/// The assignment that one line of output makes, if any: after trimming and
/// an optional leading `export `, the text before the first `=` (trimmed,
/// and not empty) is the key and the text after it the raw value.
pub open spec fn line_assignment(line: Seq<char>, env: EnvSnapshot) -> Option<
    (Seq<char>, Seq<char>),
> {
    let t = trim_spec(line);
    let a = if occurs_at(t, 0, "export "@) {
        t.subrange("export "@.len() as int, t.len() as int)
    } else {
        t
    };
    let eq = first_from(a, 0, '=');
    if eq >= a.len() {
        None
    } else {
        let key = trim_spec(a.subrange(0, eq));
        if key.len() == 0 {
            None
        } else {
            Some((key, normalize_spec(trim_spec(a.subrange(eq + 1, a.len() as int)), env)))
        }
    }
}

/// The assignments that a list of lines makes, in order.
pub open spec fn exports_of_lines(lines: Seq<Seq<char>>, env: EnvSnapshot) -> Seq<
    (Seq<char>, Seq<char>),
>
    decreases lines.len(),
{
    if lines.len() == 0 {
        seq![]
    } else {
        exports_of_lines(lines.drop_last(), env) + match line_assignment(lines.last(), env) {
            Some(p) => seq![p],
            None => seq![],
        }
    }
}

/// The assignments that a command's output makes, line by line.
pub open spec fn parse_spec(stdout: Seq<char>, env: EnvSnapshot) -> Seq<(Seq<char>, Seq<char>)> {
    exports_of_lines(crate::merge::split_spec(stdout, seq!['\n']), env)
}

fn parse_line(line: &Vec<char>, env: &EnvSnapshot) -> (r: Option<(String, String)>)
    ensures
        match r {
            Some(p) => line_assignment(line@, *env) == Some((p.0@, p.1@)),
            None => line_assignment(line@, *env) is None,
        },
{
    let t = trim_chars(line);
    let prefix = chars_of("export ");
    let a = if matches_at(&t, 0, &prefix) {
        slice_chars(&t, prefix.len(), t.len())
    } else {
        t
    };
    let eq = find_char(&a, 0, '=');
    if eq >= a.len() {
        return None;
    }
    let key = trim_chars(&slice_chars(&a, 0, eq));
    if key.len() == 0 {
        return None;
    }
    let raw = trim_chars(&slice_chars(&a, eq + 1, a.len()));
    let value = normalize_value(string_of(raw.as_slice()).as_str(), env);
    Some((string_of(key.as_slice()), value))
}

/// The variables that a command's standard output exports: one assignment
/// per line, in order, with blank and malformed lines skipped.
pub fn parse_exports(stdout: &str, env: &EnvSnapshot) -> (r: Vec<(String, String)>)
    ensures
        pairs_view(r@) == parse_spec(stdout@, *env),
{
    let mut newline: Vec<char> = Vec::new();
    newline.push('\n');
    assert(newline@ =~= seq!['\n']);
    let lines = split_chars(&chars_of(stdout), &newline);
    let ghost lv = crate::merge::views(lines@);
    let mut out: Vec<(String, String)> = Vec::new();
    let mut i: usize = 0;
    while i < lines.len()
        invariant
            i <= lines.len(),
            lv == crate::merge::views(lines@),
            pairs_view(out@) == exports_of_lines(lv.subrange(0, i as int), *env),
        decreases lines.len() - i,
    {
        let ghost prefix = lv.subrange(0, i + 1);
        assert(prefix.drop_last() =~= lv.subrange(0, i as int));
        assert(prefix.last() == lines@[i as int]@);
        let ghost before = out@;
        match parse_line(&lines[i], env) {
            Some(p) => {
                out.push(p);
                assert(pairs_view(out@) =~= pairs_view(before) + seq![(p.0@, p.1@)]);
            },
            None => {
                assert(pairs_view(out@) =~= pairs_view(before) + seq![]);
            },
        }
        i += 1;
    }
    assert(lv.subrange(0, i as int) =~= lv);
    out
}

/// What running a command gave: whether it succeeded, its exit code when
/// it exited normally, and its standard output.
pub struct CommandOutput {
    pub success: bool,
    pub code: Option<i32>,
    pub stdout: Vec<u8>,
}

/// Why a command injection failed.
#[derive(Debug, Clone)]
pub enum CommandError {
    EmptyProgram,
    Spawn { program: String, message: String },
    ExitStatus { code: Option<i32> },
    NotUtf8,
}

/// The character of a decimal digit.
pub open spec fn digit_char(d: int) -> char {
    if d == 0 {
        '0'
    } else if d == 1 {
        '1'
    } else if d == 2 {
        '2'
    } else if d == 3 {
        '3'
    } else if d == 4 {
        '4'
    } else if d == 5 {
        '5'
    } else if d == 6 {
        '6'
    } else if d == 7 {
        '7'
    } else if d == 8 {
        '8'
    } else {
        '9'
    }
}

/// The decimal digits of a natural number, most significant first.
pub open spec fn digits_spec(n: nat) -> Seq<char>
    decreases n,
{
    if n < 10 {
        seq![digit_char(n as int)]
    } else {
        digits_spec(n / 10).push(digit_char((n % 10) as int))
    }
}

/// An integer in decimal, with a leading `-` when it is negative.
pub open spec fn decimal_spec(n: int) -> Seq<char> {
    if n < 0 {
        seq!['-'] + digits_spec((-n) as nat)
    } else {
        digits_spec(n as nat)
    }
}

/// Appends `n` in decimal.
fn push_decimal(out: &mut String, n: i32)
    ensures
        final(out)@ == old(out)@ + decimal_spec(n as int),
{
    let mut digits: Vec<char> = Vec::new();
    let mut v: i64 = n as i64;
    if v < 0 {
        out.append("-");
        proof {
            reveal_strlit("-");
        }
        v = -v;
    }
    let ghost start = out@;
    let ghost m: nat = v as nat;
    if v == 0 {
        digits.push('0');
    }
    assert(m == 0 ==> digits@ =~= digits_spec(m));
    assert(m > 0 ==> digits@ =~= Seq::<char>::empty());
    while v > 0
        invariant
            v >= 0,
            v > 0 ==> digits_spec(m) == digits_spec(v as nat) + digits@,
            v == 0 ==> digits_spec(m) == digits@,
        decreases v,
    {
        let d = (v % 10) as u32;
        let c: char = if d == 0 {
            '0'
        } else if d == 1 {
            '1'
        } else if d == 2 {
            '2'
        } else if d == 3 {
            '3'
        } else if d == 4 {
            '4'
        } else if d == 5 {
            '5'
        } else if d == 6 {
            '6'
        } else if d == 7 {
            '7'
        } else if d == 8 {
            '8'
        } else {
            '9'
        };
        let ghost before = digits@;
        assert(c == digit_char((v % 10) as int));
        digits.insert(0, c);
        assert(digits@ =~= seq![c] + before);
        if v >= 10 {
            assert(digits_spec(v as nat) == digits_spec((v / 10) as nat).push(c));
            assert(digits_spec((v / 10) as nat).push(c) + before =~= digits_spec((v / 10) as nat) + digits@);
        } else {
            assert(digits_spec(v as nat) == seq![c]);
        }
        v = v / 10;
    }
    assert(m > 0 || n == 0);
    out.append(string_of(digits.as_slice()).as_str());
    proof {
        if n < 0 {
            assert(m == -(n as int));
        }
    }
}

impl CommandError {
    /// A description of the error; an exit status is followed by the exit
    /// code in decimal.
    pub fn message(&self) -> (r: String)
        ensures
            match *self {
                CommandError::EmptyProgram => r@ == "program must not be empty"@,
                CommandError::Spawn { program, message } => r@ == "failed to run command: "@
                    + program@ + ": "@ + message@,
                CommandError::ExitStatus { code: None } => r@
                    == "command exited with non-zero status: "@ + "unknown"@,
                CommandError::ExitStatus { code: Some(c) } => r@
                    == "command exited with non-zero status: "@ + decimal_spec(c as int),
                CommandError::NotUtf8 => r@ == "command stdout is not valid UTF-8"@,
            },
    {
        match self {
            CommandError::EmptyProgram => String::from_str("program must not be empty"),
            CommandError::Spawn { program, message } => {
                let mut m = String::from_str("failed to run command: ");
                m.append(program.as_str());
                m.append(": ");
                m.append(message.as_str());
                m
            },
            CommandError::ExitStatus { code } => {
                let mut m = String::from_str("command exited with non-zero status: ");
                match code {
                    Some(c) => push_decimal(&mut m, *c),
                    None => m.append("unknown"),
                }
                m
            },
            CommandError::NotUtf8 => String::from_str("command stdout is not valid UTF-8"),
        }
    }
}

/// The text that `bytes` encode, when they are valid UTF-8.
/// Relies on `String::from_utf8`, which accepts exactly valid UTF-8.
#[verifier::external_body]
fn decode_text(bytes: Vec<u8>) -> (r: Option<String>)
    ensures
        r is Some <==> valid_utf8(bytes@),
        r matches Some(s) ==> s@ == decode_utf8(bytes@),
{
    String::from_utf8(bytes).ok()
}

/// What a command injection exports, given what running its command gave.
pub open spec fn command_export_spec(run: Result<CommandOutput, String>, env: EnvSnapshot) -> Option<
    Seq<(Seq<char>, Seq<char>)>,
> {
    match run {
        Err(_) => None,
        Ok(out) => if !out.success || !valid_utf8(out.stdout@) {
            None
        } else {
            Some(parse_spec(decode_utf8(out.stdout@), env))
        },
    }
}

/// A command injection of one run.
pub struct CommandInjection {
    pub cfg: CommandProfile,
}

impl CommandInjection {
    pub fn new(cfg: CommandProfile) -> (r: CommandInjection)
        ensures
            r.cfg == cfg,
    {
        CommandInjection { cfg }
    }

    pub fn name(&self) -> (r: &'static str)
        ensures
            r@ == "command"@,
    {
        "command"
    }

    /// Refuses a blank program.
    pub fn validate(&self) -> (r: Result<(), CommandError>)
        ensures
            match r {
                Ok(()) => !blank(self.cfg.program@),
                Err(e) => blank(self.cfg.program@) && e is EmptyProgram,
            },
    {
        if trim_chars(&chars_of(self.cfg.program.as_str())).len() == 0 {
            return Err(CommandError::EmptyProgram);
        }
        Ok(())
    }

    /// The variables exported by the command, from what running it gave: a
    /// failed start, an unsuccessful exit or output that is not UTF-8 is an
    /// error; otherwise every assignment line of the output, in order.
    pub fn export_from(&self, run: Result<CommandOutput, String>, env: &EnvSnapshot) -> (r: Result<
        Vec<(String, String)>,
        CommandError,
    >)
        ensures
            match r {
                Ok(v) => command_export_spec(run, *env) == Some(pairs_view(v@)),
                Err(CommandError::Spawn { program, .. }) => run is Err && program@
                    == self.cfg.program@,
                Err(CommandError::ExitStatus { code }) => run matches Ok(out) && !out.success
                    && code == out.code,
                Err(CommandError::NotUtf8) => run matches Ok(out) && out.success && !valid_utf8(
                    out.stdout@,
                ),
                Err(CommandError::EmptyProgram) => false,
            },
    {
        match run {
            Err(message) => Err(CommandError::Spawn { program: self.cfg.program.clone(), message }),
            Ok(out) => {
                if !out.success {
                    return Err(CommandError::ExitStatus { code: out.code });
                }
                match decode_text(out.stdout) {
                    None => Err(CommandError::NotUtf8),
                    Some(text) => Ok(parse_exports(text.as_str(), env)),
                }
            },
        }
    }
}

} // verus!
