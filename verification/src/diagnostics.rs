//! Error reports: identifiers and log text are cleaned before they are
//! logged or exported, so that reports hold no secrets and no user paths.
use vstd::prelude::*;

use crate::credentials::{join_path, path_join};
use crate::service_settings::{seq_lt, str_lt};
use crate::text::{ascii_lower, chars_of, decimal, decimal_string, is_ascii_alnum, string_of_range};

verus! {

/// Longest error text kept in a report, in characters.
pub const MAX_ERROR_TEXT: usize = 4000;

/// Longest stack text kept in a report, in characters.
pub const MAX_STACK_TEXT: usize = 16000;

/// Most bytes of logs that one exported report takes.
pub const MAX_EXPORTED_LOG_BYTES: usize = 2097152;

/// Longest cleaned identifier, in characters.
pub const MAX_IDENTIFIER_CHARS: usize = 64;

/// What replaces text that may hold a secret.
pub const REDACTED_TEXT: &'static str = "[redacted potentially sensitive text]";

/// Number of environment variables whose values are hidden in log text.
pub const PATH_VARIABLE_COUNT: usize = 8;

/// A character kept in an identifier.
pub open spec fn identifier_char(c: char) -> bool {
    is_ascii_alnum(c) || c == '_' || c == '-' || c == '.'
}

/// An identifier for a log: its ASCII letters, digits, `_`, `-` and `.`,
/// at most `MAX_IDENTIFIER_CHARS` of them, or `unknown` when none is left.
pub open spec fn identifier_spec(s: Seq<char>) -> Seq<char> {
    let kept = s.filter(|c: char| identifier_char(c));
    if kept.len() == 0 {
        "unknown"@
    } else if kept.len() > MAX_IDENTIFIER_CHARS {
        kept.take(MAX_IDENTIFIER_CHARS as int)
    } else {
        kept
    }
}

/// Cleans an identifier, as `identifier_spec` says.
pub fn clean_identifier(value: &str) -> (r: String)
    ensures
        r@ == identifier_spec(value@),
{
    let cs = chars_of(value);
    let ghost keep = |c: char| identifier_char(c);
    let mut kept: Vec<char> = Vec::new();
    let mut i: usize = 0;
    assert(cs@.take(0).filter(keep) =~= Seq::<char>::empty());
    while i < cs.len()
        invariant
            i <= cs@.len(),
            cs@ == value@,
            keep == (|c: char| identifier_char(c)),
            kept@ == cs@.take(i as int).filter(keep),
        decreases cs@.len() - i,
    {
        proof {
            reveal(Seq::filter);
        }
        assert(cs@.take(i + 1).drop_last() =~= cs@.take(i as int));
        assert(cs@.take(i + 1).last() == cs@[i as int]);
        let c = cs[i];
        if ('a' <= c && c <= 'z') || ('A' <= c && c <= 'Z') || ('0' <= c && c <= '9') || c == '_' || c == '-'
            || c == '.' {
            kept.push(c);
        }
        i = i + 1;
    }
    assert(cs@.take(i as int) =~= cs@);
    if kept.len() == 0 {
        return crate::text::owned("unknown");
    }
    let n = if kept.len() > MAX_IDENTIFIER_CHARS {
        MAX_IDENTIFIER_CHARS
    } else {
        kept.len()
    };
    let r = string_of_range(&kept, 0, n);
    assert(kept.len() <= MAX_IDENTIFIER_CHARS ==> kept@.subrange(0, n as int) =~= kept@);
    r
}

/// Whether `pat` occurs in `s` at `i`.
pub open spec fn occurs_at(s: Seq<char>, pat: Seq<char>, i: int) -> bool {
    0 <= i && i + pat.len() <= s.len() && s.subrange(i, i + pat.len()) == pat
}

/// Whether `pat` occurs in `s`.
pub open spec fn occurs(s: Seq<char>, pat: Seq<char>) -> bool {
    exists|i: int| occurs_at(s, pat, i)
}

/// `s` with every occurrence of `pat` replaced by `rep`, matched from the
/// left without overlap, as `str::replace` does.
pub open spec fn replace_all(s: Seq<char>, pat: Seq<char>, rep: Seq<char>) -> Seq<char>
    decreases s.len(),
{
    if pat.len() == 0 || s.len() < pat.len() {
        s
    } else if s.take(pat.len() as int) == pat {
        rep + replace_all(s.skip(pat.len() as int), pat, rep)
    } else {
        seq![s[0]] + replace_all(s.drop_first(), pat, rep)
    }
}

/// Text that names a credential.
pub open spec fn sensitive(lower: Seq<char>) -> bool {
    ||| occurs(lower, "authorization"@)
    ||| occurs(lower, "bearer "@)
    ||| occurs(lower, "api_key"@)
    ||| occurs(lower, "api key"@)
    ||| occurs(lower, "x-api-key"@)
    ||| occurs(lower, "x-goog-api-key"@)
    ||| occurs(lower, "token="@)
}

/// The environment variable, and what stands for its value, of the `i`-th
/// path hidden in log text.
pub open spec fn path_variable_spec(i: int) -> (Seq<char>, Seq<char>) {
    if i == 0 {
        ("XDG_STATE_HOME"@, "%XDG_STATE_HOME%"@)
    } else if i == 1 {
        ("XDG_DATA_HOME"@, "%XDG_DATA_HOME%"@)
    } else if i == 2 {
        ("XDG_CONFIG_HOME"@, "%XDG_CONFIG_HOME%"@)
    } else if i == 3 {
        ("XDG_CACHE_HOME"@, "%XDG_CACHE_HOME%"@)
    } else if i == 4 {
        ("XDG_RUNTIME_DIR"@, "%XDG_RUNTIME_DIR%"@)
    } else if i == 5 {
        ("USERPROFILE"@, "%USERPROFILE%"@)
    } else if i == 6 {
        ("LOCALAPPDATA"@, "%LOCALAPPDATA%"@)
    } else {
        ("HOME"@, "%HOME%"@)
    }
}

/// The `i`-th path variable hidden in log text, with what stands for it.
pub fn path_variable(i: usize) -> (r: (&'static str, &'static str))
    requires
        i < PATH_VARIABLE_COUNT,
    ensures
        (r.0@, r.1@) == path_variable_spec(i as int),
{
    if i == 0 {
        ("XDG_STATE_HOME", "%XDG_STATE_HOME%")
    } else if i == 1 {
        ("XDG_DATA_HOME", "%XDG_DATA_HOME%")
    } else if i == 2 {
        ("XDG_CONFIG_HOME", "%XDG_CONFIG_HOME%")
    } else if i == 3 {
        ("XDG_CACHE_HOME", "%XDG_CACHE_HOME%")
    } else if i == 4 {
        ("XDG_RUNTIME_DIR", "%XDG_RUNTIME_DIR%")
    } else if i == 5 {
        ("USERPROFILE", "%USERPROFILE%")
    } else if i == 6 {
        ("LOCALAPPDATA", "%LOCALAPPDATA%")
    } else {
        ("HOME", "%HOME%")
    }
}

/// The value of the `i`-th path variable, where one is given and not empty.
pub open spec fn env_value(env: Seq<Option<String>>, i: int) -> Option<Seq<char>> {
    if 0 <= i < env.len() && env[i] is Some && env[i]->0@.len() > 0 {
        Some(env[i]->0@)
    } else {
        None
    }
}

/// `s` with the values of the path variables `i..` replaced in turn.
pub open spec fn hide_paths(s: Seq<char>, env: Seq<Option<String>>, i: int) -> Seq<char>
    decreases PATH_VARIABLE_COUNT - i,
{
    if i < 0 || i >= PATH_VARIABLE_COUNT {
        s
    } else {
        let next = match env_value(env, i) {
            Some(v) => replace_all(s, v, path_variable_spec(i).1),
            None => s,
        };
        hide_paths(next, env, i + 1)
    }
}

/// Log text: text that names a credential is withheld; otherwise line
/// breaks and tabs are flattened, the values of the path variables are
/// hidden (`env[i]` is the value of the `i`-th, `None` where unset), and the
/// text is cut to `max_chars` characters, with `…` marking a cut.
pub open spec fn log_text_spec(value: Seq<char>, max_chars: nat, env: Seq<Option<String>>) -> Seq<char> {
    if sensitive(ascii_lower(value)) {
        REDACTED_TEXT@
    } else {
        let flat = replace_all(replace_all(replace_all(value, "\r"@, Seq::empty()), "\n"@, " | "@), "\t"@, " "@);
        let hidden = hide_paths(flat, env, 0);
        if hidden.len() > max_chars {
            hidden.take(max_chars as int).push('…')
        } else {
            hidden
        }
    }
}

pub fn occurs_in(s: &Vec<char>, pat: &str) -> (r: bool)
    ensures
        r == occurs(s@, pat@),
{
    let p = chars_of(pat);
    let n = s.len();
    let m = p.len();
    if m > n {
        assert forall|i: int| !occurs_at(s@, pat@, i) by {}
        return false;
    }
    if m == 0 {
        assert(s@.subrange(0, 0) =~= pat@);
        assert(occurs_at(s@, pat@, 0));
        return true;
    }
    let mut i: usize = 0;
    while i <= n - m
        invariant
            m == p@.len(),
            p@ == pat@,
            n == s@.len(),
            0 < m <= n,
            i <= n - m + 1,
            forall|k: int| 0 <= k < i ==> !occurs_at(s@, pat@, k),
        decreases n + 1 - i,
    {
        if matches_at(s, &p, i) {
            assert(occurs_at(s@, pat@, i as int));
            return true;
        }
        i = i + 1;
    }
    assert forall|k: int| !occurs_at(s@, pat@, k) by {
        if 0 <= k && k + m <= n {
            assert(k < i);
        }
    }
    false
}

/// Whether `p` occurs in `s` at `i`.
pub fn matches_at(s: &Vec<char>, p: &Vec<char>, i: usize) -> (r: bool)
    requires
        i + p@.len() <= s@.len(),
    ensures
        r == (s@.subrange(i as int, i + p@.len()) == p@),
{
    let n = s.len();
    let mut k: usize = 0;
    while k < p.len()
        invariant
            k <= p@.len(),
            n == s@.len(),
            i + p@.len() <= s@.len(),
            forall|j: int| 0 <= j < k ==> s@[i + j] == p@[j],
        decreases p@.len() - k,
    {
        if s[i + k] != p[k] {
            assert(s@.subrange(i as int, i + p@.len())[k as int] != p@[k as int]);
            return false;
        }
        k = k + 1;
    }
    assert(s@.subrange(i as int, i + p@.len()) =~= p@);
    true
}

/// `str::replace`: every occurrence of `pat`, matched from the left without
/// overlap, replaced by `rep`.
pub fn replace_text(s: &str, pat: &str, rep: &str) -> (r: String)
    ensures
        r@ == replace_all(s@, pat@, rep@),
{
    let cs = chars_of(s);
    let p = chars_of(pat);
    let n = cs.len();
    let m = p.len();
    if m == 0 {
        return crate::text::owned(s);
    }
    let mut out = String::new();
    let mut i: usize = 0;
    assert(cs@.skip(0) =~= cs@);
    assert(out@ =~= Seq::<char>::empty());
    while i < n
        invariant
            i <= n == cs@.len(),
            cs@ == s@,
            p@ == pat@,
            m == p@.len(),
            m > 0,
            replace_all(s@, pat@, rep@) == out@ + replace_all(cs@.skip(i as int), pat@, rep@),
        decreases n - i,
    {
        let ghost rest = cs@.skip(i as int);
        if n - i >= m && matches_at(&cs, &p, i) {
            assert(rest.take(m as int) =~= cs@.subrange(i as int, i + m));
            assert(rest.skip(m as int) =~= cs@.skip(i + m));
            let ghost before = out@;
            crate::text::push_str(&mut out, rep);
            assert(before + (rep@ + replace_all(cs@.skip(i + m), pat@, rep@)) =~= out@ + replace_all(
                cs@.skip(i + m),
                pat@,
                rep@,
            ));
            i = i + m;
        } else {
            assert(rest.drop_first() =~= cs@.skip(i + 1));
            assert(n - i >= m ==> rest.take(m as int) =~= cs@.subrange(i as int, i + m));
            proof {
                if rest.len() < m {
                    assert(replace_all(rest.drop_first(), pat@, rep@) == rest.drop_first());
                    assert(rest =~= seq![rest[0]] + rest.drop_first());
                }
            }
            let ghost before = out@;
            crate::text::push_char(&mut out, cs[i]);
            assert(before + (seq![cs@[i as int]] + replace_all(cs@.skip(i + 1), pat@, rep@)) =~= out@
                + replace_all(cs@.skip(i + 1), pat@, rep@));
            i = i + 1;
        }
    }
    assert(cs@.skip(i as int) =~= Seq::<char>::empty());
    assert(out@ + Seq::<char>::empty() =~= out@);
    out
}

/// Cleans log text, as `log_text_spec` says.
pub fn clean_log_text(value: &str, max_chars: usize, env: &Vec<Option<String>>) -> (r: String)
    ensures
        r@ == log_text_spec(value@, max_chars as nat, env@),
{
    let lower = chars_of(crate::text::ascii_lowercase(value).as_str());
    if occurs_in(&lower, "authorization") || occurs_in(&lower, "bearer ") || occurs_in(&lower, "api_key")
        || occurs_in(&lower, "api key") || occurs_in(&lower, "x-api-key") || occurs_in(&lower, "x-goog-api-key")
        || occurs_in(&lower, "token=") {
        return crate::text::owned(REDACTED_TEXT);
    }
    let a = replace_text(value, "\r", "");
    let b = replace_text(a.as_str(), "\n", " | ");
    let mut cleaned = replace_text(b.as_str(), "\t", " ");
    proof {
        reveal_strlit("");
        assert(""@ =~= Seq::<char>::empty());
    }
    let mut i: usize = 0;
    while i < PATH_VARIABLE_COUNT
        invariant
            i <= PATH_VARIABLE_COUNT,
            hide_paths(
                replace_all(replace_all(replace_all(value@, "\r"@, Seq::empty()), "\n"@, " | "@), "\t"@, " "@),
                env@,
                0,
            ) == hide_paths(cleaned@, env@, i as int),
        decreases PATH_VARIABLE_COUNT - i,
    {
        let (_, replacement) = path_variable(i);
        if i < env.len() {
            match &env[i] {
                Some(prefix) => {
                    if crate::text::char_count(prefix.as_str()) > 0 {
                        cleaned = replace_text(cleaned.as_str(), prefix.as_str(), replacement);
                    }
                },
                None => {},
            }
        }
        i = i + 1;
    }
    let cs = chars_of(cleaned.as_str());
    if cs.len() > max_chars {
        let mut out = string_of_range(&cs, 0, max_chars);
        crate::text::push_char(&mut out, '…');
        out
    } else {
        cleaned
    }
}

/// A session id: a random UUID in its simple form.
pub fn new_session_id() -> (r: String)
    ensures
        crate::ids::simple(r@),
{
    crate::ids::random_simple_uuid()
}

/// A report id: the first 12 characters of a random UUID in its simple form.
pub fn new_report_id() -> (r: String)
    ensures
        r@.len() == 12,
        forall|i: int| 0 <= i < 12 ==> crate::ids::lower_hex(#[trigger] r@[i]),
{
    let u = crate::ids::random_simple_uuid();
    let id = chars_of(u.as_str());
    let r = string_of_range(&id, 0, 12);
    assert forall|i: int| 0 <= i < 12 implies crate::ids::lower_hex(#[trigger] r@[i]) by {
        assert(r@[i] == u@[i]);
    }
    r
}

/// The error code of a front-end report of kind `kind`.
pub fn frontend_code(kind: &str) -> (r: String)
    ensures
        r@ == "frontend."@ + identifier_spec(kind@),
{
    crate::text::concat("frontend.", clean_identifier(kind).as_str())
}

/// The stack of a front-end report: the script stack and the component
/// stack, those present joined by ` | component stack: `.
pub open spec fn stack_text(stack: Option<&str>, component_stack: Option<&str>) -> Seq<char> {
    match (stack, component_stack) {
        (Some(a), Some(b)) => a@ + " | component stack: "@ + b@,
        (Some(a), None) => a@,
        (None, Some(b)) => b@,
        (None, None) => Seq::empty(),
    }
}

/// The stack of a front-end report, as `stack_text` says; none when empty.
pub fn frontend_stack(stack: Option<&str>, component_stack: Option<&str>) -> (r: Option<String>)
    ensures
        match r {
            Some(t) => t@ == stack_text(stack, component_stack) && t@.len() > 0,
            None => stack_text(stack, component_stack).len() == 0,
        },
{
    match (stack, component_stack) {
        (Some(a), Some(b)) => {
            let t = crate::text::concat3(a, " | component stack: ", b);
            assert(t@.len() > 0) by {
                reveal_strlit(" | component stack: ");
            }
            Some(t)
        },
        (Some(a), None) => if crate::text::char_count(a) > 0 {
            Some(crate::text::owned(a))
        } else {
            None
        },
        (None, Some(b)) => if crate::text::char_count(b) > 0 {
            Some(crate::text::owned(b))
        } else {
            None
        },
        (None, None) => None,
    }
}

/// Whether `s` begins with `p`.
pub open spec fn starts_with(s: Seq<char>, p: Seq<char>) -> bool {
    p.len() <= s.len() && s.take(p.len() as int) == p
}

/// Whether `s` ends with `p`.
pub open spec fn ends_with(s: Seq<char>, p: Seq<char>) -> bool {
    p.len() <= s.len() && s.skip(s.len() - p.len()) == p
}

/// The file name of an app or core log.
pub open spec fn is_log_name(n: Seq<char>) -> bool {
    (starts_with(n, "errorlog."@) || starts_with(n, "vrcs-core."@)) && ends_with(n, ".log"@)
}

/// Position of the first `.` at or after `i`.
pub open spec fn first_dot(n: Seq<char>, i: int) -> Option<int>
    decreases n.len() - i,
{
    if i < 0 || i >= n.len() {
        None
    } else if n[i] == '.' {
        Some(i)
    } else {
        first_dot(n, i + 1)
    }
}

/// What a log is ordered by: its name after the first `.` (the date).
pub open spec fn log_key(n: Seq<char>) -> Seq<char> {
    match first_dot(n, 0) {
        Some(i) => n.skip(i + 1),
        None => Seq::empty(),
    }
}

/// `x` inserted into `s` after every name whose key is not larger.
pub open spec fn insert_log(s: Seq<Seq<char>>, x: Seq<char>) -> Seq<Seq<char>>
    decreases s.len(),
{
    if s.len() == 0 {
        seq![x]
    } else if seq_lt(log_key(x), log_key(s.last())) {
        insert_log(s.drop_last(), x).push(s.last())
    } else {
        s.push(x)
    }
}

/// `s` stably sorted by key.
pub open spec fn sort_logs(s: Seq<Seq<char>>) -> Seq<Seq<char>>
    decreases s.len(),
{
    if s.len() == 0 {
        s
    } else {
        insert_log(sort_logs(s.drop_last()), s.last())
    }
}

/// The logs an exported report includes: the three with the latest keys,
/// latest first.
pub open spec fn recent_logs(names: Seq<Seq<char>>) -> Seq<Seq<char>> {
    let sorted = sort_logs(names.filter(|n: Seq<char>| is_log_name(n)));
    let kept = if sorted.len() > 3 {
        sorted.skip(sorted.len() - 3)
    } else {
        sorted
    };
    kept.reverse()
}

pub fn has_prefix(cs: &Vec<char>, p: &str) -> (r: bool)
    ensures
        r == starts_with(cs@, p@),
{
    let pc = chars_of(p);
    if pc.len() > cs.len() {
        return false;
    }
    let r = matches_at(cs, &pc, 0);
    assert(cs@.take(pc@.len() as int) =~= cs@.subrange(0, pc@.len() as int));
    r
}

pub fn has_suffix(cs: &Vec<char>, p: &str) -> (r: bool)
    ensures
        r == ends_with(cs@, p@),
{
    let pc = chars_of(p);
    if pc.len() > cs.len() {
        return false;
    }
    let start = cs.len() - pc.len();
    let r = matches_at(cs, &pc, start);
    assert(cs@.skip(start as int) =~= cs@.subrange(start as int, start + pc@.len()));
    r
}

fn key_of(name: &str) -> (r: String)
    ensures
        r@ == log_key(name@),
{
    let cs = chars_of(name);
    let mut i: usize = 0;
    while i < cs.len() && cs[i] != '.'
        invariant
            i <= cs@.len(),
            cs@ == name@,
            first_dot(name@, 0) == first_dot(name@, i as int),
        decreases cs@.len() - i,
    {
        i = i + 1;
    }
    if i < cs.len() {
        let r = string_of_range(&cs, i + 1, cs.len());
        assert(cs@.subrange(i + 1, cs@.len() as int) =~= name@.skip(i + 1));
        r
    } else {
        String::new()
    }
}

fn insert_log_sorted(v: &mut Vec<String>, x: String)
    ensures
        crate::live_translation::texts(final(v)@) == insert_log(crate::live_translation::texts(old(v)@), x@),
{
    let ghost s = crate::live_translation::texts(v@);
    let ghost xv = x@;
    let xk = key_of(x.as_str());
    let mut p = v.len();
    assert(s.take(p as int) =~= s);
    assert(s.skip(p as int) =~= Seq::<Seq<char>>::empty());
    while p > 0 && str_lt(xk.as_str(), key_of(v[p - 1].as_str()).as_str())
        invariant
            p <= v@.len(),
            s == crate::live_translation::texts(v@),
            xv == x@,
            xk@ == log_key(xv),
            insert_log(s, xv) == insert_log(s.take(p as int), xv) + s.skip(p as int),
        decreases p,
    {
        let ghost t = s.take(p as int);
        assert(t.drop_last() =~= s.take(p - 1));
        assert(t.last() == s[p - 1]);
        assert(s.skip(p - 1) =~= seq![s[p - 1]] + s.skip(p as int));
        assert(insert_log(s.take(p - 1), xv).push(s[p - 1]) + s.skip(p as int) =~= insert_log(
            s.take(p - 1),
            xv,
        ) + s.skip(p - 1));
        p = p - 1;
    }
    proof {
        if p == 0 {
            assert(s.take(0) =~= Seq::<Seq<char>>::empty());
        }
    }
    v.insert(p, x);
    assert(crate::live_translation::texts(v@) =~= s.take(p as int).push(xv) + s.skip(p as int));
}

/// Where the desktop app keeps its logs: `vrcs/logs` under `XDG_STATE_HOME`
/// when that is an absolute path, else under `.local/state` in the home
/// directory (`HOME` when absolute, else the current directory, else `.`).
pub open spec fn log_dir_spec(
    xdg_state_home: Option<Seq<char>>,
    home: Option<Seq<char>>,
    current_dir: Option<Seq<char>>,
) -> Seq<char> {
    let home_dir = match home {
        Some(h) if crate::credentials::is_absolute(h) => h,
        _ => match current_dir {
            Some(c) => c,
            None => "."@,
        },
    };
    let base = match xdg_state_home {
        Some(p) if crate::credentials::is_absolute(p) => p,
        _ => path_join(home_dir, ".local/state"@),
    };
    path_join(path_join(base, "vrcs"@), "logs"@)
}

fn absolute(p: &Option<String>) -> (r: bool)
    ensures
        r == (p matches Some(s) && crate::credentials::is_absolute(s@)),
{
    match p {
        Some(s) => {
            let cs = chars_of(s.as_str());
            cs.len() > 0 && cs[0] == '/'
        },
        None => false,
    }
}

/// The log directory from the values of `XDG_STATE_HOME` and `HOME` and the
/// current directory, as `log_dir_spec` says.
pub fn log_dir_from(xdg_state_home: Option<String>, home: Option<String>, current_dir: Option<String>) -> (r: String)
    ensures
        r@ == log_dir_spec(
            crate::credentials::opt_text(xdg_state_home),
            crate::credentials::opt_text(home),
            crate::credentials::opt_text(current_dir),
        ),
{
    let home_dir = if absolute(&home) {
        match home {
            Some(h) => h,
            None => crate::text::owned("."),
        }
    } else {
        match current_dir {
            Some(c) => c,
            None => crate::text::owned("."),
        }
    };
    let base = if absolute(&xdg_state_home) {
        match xdg_state_home {
            Some(p) => p,
            None => crate::text::owned("."),
        }
    } else {
        join_path(home_dir.as_str(), ".local/state")
    };
    let with_app = join_path(base.as_str(), "vrcs");
    join_path(with_app.as_str(), "logs")
}

/// A line without its `\r` ending, if it has one.
pub open spec fn strip_cr(line: Seq<char>) -> Seq<char> {
    if line.len() > 0 && line.last() == '\r' {
        line.drop_last()
    } else {
        line
    }
}

/// The lines finished so far and the line in progress, reading `s` from the
/// start: a `\n` ends a line, which loses one `\r` before it.
pub open spec fn lines_fold(s: Seq<char>) -> (Seq<Seq<char>>, Seq<char>)
    decreases s.len(),
{
    if s.len() == 0 {
        (Seq::empty(), Seq::empty())
    } else {
        let (done, cur) = lines_fold(s.drop_last());
        if s.last() == '\n' {
            (done.push(strip_cr(cur)), Seq::empty())
        } else {
            (done, cur.push(s.last()))
        }
    }
}

/// The lines of a text, as `str::lines` gives them: a last line without a
/// line feed counts, an empty rest after the last line feed does not.
pub open spec fn lines_of(s: Seq<char>) -> Seq<Seq<char>> {
    let (done, cur) = lines_fold(s);
    if cur.len() > 0 {
        done.push(cur)
    } else {
        done
    }
}

/// Each line, cleaned as log text, followed by a line feed.
pub open spec fn cleaned_lines(lines: Seq<Seq<char>>, env: Seq<Option<String>>) -> Seq<char>
    decreases lines.len(),
{
    if lines.len() == 0 {
        Seq::empty()
    } else {
        cleaned_lines(lines.drop_last(), env) + log_text_spec(lines.last(), MAX_STACK_TEXT as nat, env) + seq!['\n']
    }
}

/// The part of an error report that one log file makes: a heading with the
/// file's name, then its lines cleaned.
pub open spec fn report_section_spec(name: Seq<char>, text: Seq<char>, env: Seq<Option<String>>) -> Seq<char> {
    "\n\n===== "@ + name + " =====\n"@ + cleaned_lines(lines_of(text), env)
}

/// Writes the part of an error report for the log file `name` whose (tail
/// of) text is `text`, as `report_section_spec` says.
pub fn report_section(name: &str, text: &str, env: &Vec<Option<String>>) -> (r: String)
    ensures
        r@ == report_section_spec(name@, text@, env@),
{
    let cs = chars_of(text);
    let mut out = crate::text::concat3("\n\n===== ", name, " =====\n");
    let ghost head = out@;
    let mut cur = String::new();
    let mut i: usize = 0;
    proof {
        assert(cs@.take(0) =~= Seq::<char>::empty());
        assert(out@ =~= head + cleaned_lines(lines_fold(cs@.take(0)).0, env@));
    }
    while i < cs.len()
        invariant
            i <= cs@.len(),
            cs@ == text@,
            out@ == head + cleaned_lines(lines_fold(cs@.take(i as int)).0, env@),
            cur@ == lines_fold(cs@.take(i as int)).1,
        decreases cs@.len() - i,
    {
        let c = cs[i];
        proof {
            assert(cs@.take(i + 1).drop_last() =~= cs@.take(i as int));
            assert(cs@.take(i + 1).last() == c);
        }
        if c == '\n' {
            let ccs = chars_of(cur.as_str());
            let line = if ccs.len() > 0 && ccs[ccs.len() - 1] == '\r' {
                string_of_range(&ccs, 0, ccs.len() - 1)
            } else {
                cur
            };
            proof {
                if ccs@.len() > 0 && ccs@.last() == '\r' {
                    assert(ccs@.subrange(0, ccs@.len() - 1) =~= ccs@.drop_last());
                }
            }
            let cleaned = clean_log_text(line.as_str(), MAX_STACK_TEXT, env);
            let ghost before = out@;
            crate::text::push_str(&mut out, cleaned.as_str());
            crate::text::push_char(&mut out, '\n');
            proof {
                let d = lines_fold(cs@.take(i as int)).0;
                let d2 = d.push(line@);
                assert(d2.drop_last() =~= d);
                assert(out@ =~= head + cleaned_lines(d2, env@));
            }
            cur = String::new();
        } else {
            crate::text::push_char(&mut cur, c);
        }
        i = i + 1;
    }
    proof {
        assert(cs@.take(cs@.len() as int) =~= cs@);
    }
    if crate::text::char_count(cur.as_str()) > 0 {
        let cleaned = clean_log_text(cur.as_str(), MAX_STACK_TEXT, env);
        crate::text::push_str(&mut out, cleaned.as_str());
        crate::text::push_char(&mut out, '\n');
        proof {
            let d = lines_fold(cs@).0;
            let d2 = d.push(cur@);
            assert(d2.drop_last() =~= d);
            assert(out@ =~= head + cleaned_lines(d2, env@));
        }
    }
    proof {
        reveal_strlit("\n\n===== ");
        reveal_strlit(" =====\n");
        assert(out@ =~= report_section_spec(name@, text@, env@));
    }
    out
}

/// The heading of an error report.
pub open spec fn report_header_spec(
    generated_at: u64,
    version: Seq<char>,
    session_id: Seq<char>,
    latest_report_id: Option<Seq<char>>,
) -> Seq<char> {
    "VRCS error report\nGenerated: "@ + decimal(generated_at as nat) + "\nVersion: "@ + version + "\nSession: "@
        + session_id + "\nLatest report: "@ + (match latest_report_id {
        Some(id) => id,
        None => "none"@,
    }) + "\n\nThis report was generated locally and is not uploaded automatically.\n"@
}

/// Writes the heading of an error report generated at `generated_at`
/// (seconds since the epoch), as `report_header_spec` says.
pub fn report_header(generated_at: u64, version: &str, session_id: &str, latest_report_id: Option<&str>) -> (r: String)
    ensures
        r@ == report_header_spec(
            generated_at,
            version@,
            session_id@,
            match latest_report_id {
                Some(id) => Some(id@),
                None => None,
            },
        ),
{
    let mut out = crate::text::owned("VRCS error report\nGenerated: ");
    crate::text::push_str(&mut out, decimal_string(generated_at).as_str());
    crate::text::push_str(&mut out, "\nVersion: ");
    crate::text::push_str(&mut out, version);
    crate::text::push_str(&mut out, "\nSession: ");
    crate::text::push_str(&mut out, session_id);
    crate::text::push_str(&mut out, "\nLatest report: ");
    crate::text::push_str(
        &mut out,
        match latest_report_id {
            Some(id) => id,
            None => "none",
        },
    );
    crate::text::push_str(&mut out, "\n\nThis report was generated locally and is not uploaded automatically.\n");
    out
}

/// The logs an exported report includes, as `recent_logs` says.
pub fn select_recent_logs(names: &Vec<String>) -> (r: Vec<String>)
    ensures
        crate::live_translation::texts(r@) == recent_logs(crate::live_translation::texts(names@)),
{
    let ghost all = crate::live_translation::texts(names@);
    let ghost keep = |n: Seq<char>| is_log_name(n);
    let mut sorted: Vec<String> = Vec::new();
    let mut i: usize = 0;
    assert(all.take(0).filter(keep) =~= Seq::<Seq<char>>::empty());
    while i < names.len()
        invariant
            i <= names@.len(),
            all == crate::live_translation::texts(names@),
            keep == (|n: Seq<char>| is_log_name(n)),
            crate::live_translation::texts(sorted@) == sort_logs(all.take(i as int).filter(keep)),
        decreases names@.len() - i,
    {
        proof {
            reveal(Seq::filter);
        }
        let ghost f = all.take(i as int).filter(keep);
        assert(all.take(i + 1).drop_last() =~= all.take(i as int));
        assert(all.take(i + 1).last() == all[i as int]);
        let cs = chars_of(names[i].as_str());
        if (has_prefix(&cs, "errorlog.") || has_prefix(&cs, "vrcs-core.")) && has_suffix(&cs, ".log") {
            assert(all.take(i + 1).filter(keep) == f.push(all[i as int]));
            assert(f.push(all[i as int]).drop_last() =~= f);
            insert_log_sorted(&mut sorted, names[i].clone());
        } else {
            assert(all.take(i + 1).filter(keep) == f);
        }
        i = i + 1;
    }
    assert(all.take(i as int) =~= all);
    let ghost sv = crate::live_translation::texts(sorted@);
    let start = if sorted.len() > 3 {
        sorted.len() - 3
    } else {
        0
    };
    let mut r: Vec<String> = Vec::new();
    let mut k = sorted.len();
    let ghost kept = sv.skip(start as int);
    assert(sorted.len() <= 3 ==> kept =~= sv);
    while k > start
        invariant
            start <= k <= sorted@.len(),
            sv == crate::live_translation::texts(sorted@),
            kept == sv.skip(start as int),
            crate::live_translation::texts(r@) == kept.reverse().take(sorted@.len() - k),
        decreases k,
    {
        let ghost prev = crate::live_translation::texts(r@);
        let c = sorted[k - 1].clone();
        r.push(c);
        assert(crate::live_translation::texts(r@) =~= prev.push(c@));
        assert(kept.reverse().take(sorted@.len() - k + 1) =~= kept.reverse().take(sorted@.len() - k).push(
            kept.reverse()[sorted@.len() - k],
        ));
        k = k - 1;
    }
    assert(kept.reverse().take(sorted@.len() - start) =~= kept.reverse());
    r
}

/// Where reading a log of `len` bytes starts, so that at most `remaining`
/// bytes are taken from its end, and the budget that is left after it.
pub fn log_window(remaining: usize, len: usize) -> (r: (usize, usize))
    ensures
        r.0 == (if len > remaining {
            len - remaining
        } else {
            0
        }),
        r.1 == remaining - (len - r.0),
{
    let start = if len > remaining {
        len - remaining
    } else {
        0
    };
    (start, remaining - (len - start))
}

} // verus!
