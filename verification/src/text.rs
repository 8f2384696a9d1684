//! Character-level helpers over the `Seq<char>` view of strings.
use vstd::prelude::*;

verus! {

/// Unicode `White_Space`: the characters `char::is_whitespace` accepts.
pub open spec fn is_ws(c: char) -> bool {
    ('\u{9}' <= c && c <= '\u{d}') || c == ' ' || c == '\u{85}' || c == '\u{a0}' || c == '\u{1680}'
        || ('\u{2000}' <= c && c <= '\u{200a}') || c == '\u{2028}' || c == '\u{2029}' || c == '\u{202f}'
        || c == '\u{205f}' || c == '\u{3000}'
}

/// General category `Cc`: the characters `char::is_control` accepts.
pub open spec fn is_cc(c: char) -> bool {
    c <= '\u{1f}' || ('\u{7f}' <= c && c <= '\u{9f}')
}

pub open spec fn trim_start(s: Seq<char>) -> Seq<char>
    decreases s.len(),
{
    if s.len() > 0 && is_ws(s[0]) {
        trim_start(s.drop_first())
    } else {
        s
    }
}

pub open spec fn trim_end(s: Seq<char>) -> Seq<char>
    decreases s.len(),
{
    if s.len() > 0 && is_ws(s.last()) {
        trim_end(s.drop_last())
    } else {
        s
    }
}

/// What `str::trim` keeps: the text without leading and trailing white space.
pub open spec fn trim(s: Seq<char>) -> Seq<char> {
    trim_end(trim_start(s))
}

pub open spec fn ascii_lower_char(c: char) -> char {
    if 'A' <= c && c <= 'Z' {
        ((c as int) + 32) as char
    } else {
        c
    }
}

/// What `str::to_ascii_lowercase` returns.
pub open spec fn ascii_lower(s: Seq<char>) -> Seq<char> {
    s.map_values(|c: char| ascii_lower_char(c))
}

pub open spec fn is_ascii_digit(c: char) -> bool {
    '0' <= c && c <= '9'
}

pub open spec fn is_ascii_alpha(c: char) -> bool {
    ('a' <= c && c <= 'z') || ('A' <= c && c <= 'Z')
}

pub open spec fn is_ascii_alnum(c: char) -> bool {
    is_ascii_digit(c) || is_ascii_alpha(c)
}

/// Decimal rendering of a natural number, as `format!("{n}")` writes it.
pub open spec fn decimal(n: nat) -> Seq<char>
    decreases n,
{
    if n < 10 {
        seq![digit_char(n)]
    } else {
        decimal(n / 10).push(digit_char(n % 10))
    }
}

pub open spec fn digit_char(d: nat) -> char {
    (d + 48) as char
}

/// Result of `str::to_lowercase`, the full Unicode lower-case mapping.
pub uninterp spec fn unicode_lower(s: Seq<char>) -> Seq<char>;

/// Calls `str::to_lowercase`; the result is named by `unicode_lower`.
#[verifier::external_body]
pub(crate) fn to_lowercase(s: &str) -> (out: String)
    ensures
        out@ == unicode_lower(s@),
{
    s.to_lowercase()
}

/// Calls `String::push`: appends one character.
#[verifier::external_body]
pub(crate) fn push_char(s: &mut String, c: char)
    ensures
        final(s)@ == old(s)@.push(c),
{
    s.push(c)
}

/// Appends a string.
pub(crate) fn push_str(s: &mut String, t: &str)
    ensures
        final(s)@ == old(s)@ + t@,
{
    s.append(t)
}

/// Collects the characters of `s` in order.
pub fn chars_of(s: &str) -> (out: Vec<char>)
    ensures
        out@ == s@,
{
    let mut out: Vec<char> = Vec::new();
    for c in it: s.chars()
        invariant
            out@ == it.seq().take(it.index() as int),
            it.seq() == s@,
    {
        out.push(c);
    }
    out
}

/// Builds a string from `cs[lo..hi]`.
pub fn string_of_range(cs: &Vec<char>, lo: usize, hi: usize) -> (out: String)
    requires
        lo <= hi <= cs.len(),
    ensures
        out@ == cs@.subrange(lo as int, hi as int),
{
    let mut out = String::new();
    let mut i = lo;
    while i < hi
        invariant
            lo <= i <= hi <= cs.len(),
            out@ == cs@.subrange(lo as int, i as int),
        decreases hi - i,
    {
        push_char(&mut out, cs[i]);
        assert(cs@.subrange(lo as int, i + 1) == cs@.subrange(lo as int, i as int).push(cs@[i as int]));
        i = i + 1;
    }
    out
}

/// Builds a string holding exactly `cs`.
pub fn string_of(cs: &Vec<char>) -> (out: String)
    ensures
        out@ == cs@,
{
    let out = string_of_range(cs, 0, cs.len());
    assert(cs@.subrange(0, cs@.len() as int) == cs@);
    out
}

/// Copies a string slice into an owned string.
pub fn owned(s: &str) -> (out: String)
    ensures
        out@ == s@,
{
    s.to_owned()
}

/// Concatenates two strings.
pub fn concat(a: &str, b: &str) -> (out: String)
    ensures
        out@ == a@ + b@,
{
    let mut out = a.to_owned();
    push_str(&mut out, b);
    out
}

/// Concatenates three strings.
pub fn concat3(a: &str, b: &str, c: &str) -> (out: String)
    ensures
        out@ == a@ + b@ + c@,
{
    let mut out = a.to_owned();
    push_str(&mut out, b);
    push_str(&mut out, c);
    out
}

/// Character-wise equality of two slices of characters.
pub fn seq_eq(a: &Vec<char>, b: &Vec<char>) -> (r: bool)
    ensures
        r == (a@ == b@),
{
    if a.len() != b.len() {
        return false;
    }
    let mut i: usize = 0;
    while i < a.len()
        invariant
            a.len() == b.len(),
            i <= a.len(),
            forall|j: int| 0 <= j < i ==> a@[j] == b@[j],
        decreases a.len() - i,
    {
        if a[i] != b[i] {
            return false;
        }
        i = i + 1;
    }
    assert(a@ =~= b@);
    true
}

/// String equality, as `==` on `str` compares.
pub fn str_eq(a: &str, b: &str) -> (r: bool)
    ensures
        r == (a@ == b@),
{
    let x = chars_of(a);
    let y = chars_of(b);
    seq_eq(&x, &y)
}

/// Number of characters, as `str::chars().count()` computes.
pub fn char_count(s: &str) -> (n: usize)
    ensures
        n == s@.len(),
{
    chars_of(s).len()
}

/// `char::is_whitespace`.
pub fn is_whitespace(c: char) -> (r: bool)
    ensures
        r == is_ws(c),
{
    ('\u{9}' <= c && c <= '\u{d}') || c == ' ' || c == '\u{85}' || c == '\u{a0}' || c == '\u{1680}'
        || ('\u{2000}' <= c && c <= '\u{200a}') || c == '\u{2028}' || c == '\u{2029}' || c == '\u{202f}'
        || c == '\u{205f}' || c == '\u{3000}'
}

/// `char::is_control`.
pub fn is_control(c: char) -> (r: bool)
    ensures
        r == is_cc(c),
{
    c <= '\u{1f}' || ('\u{7f}' <= c && c <= '\u{9f}')
}

pub proof fn lemma_trim_start(s: Seq<char>, k: int)
    requires
        0 <= k <= s.len(),
        forall|i: int| 0 <= i < k ==> is_ws(s[i]),
        k == s.len() || !is_ws(s[k]),
    ensures
        trim_start(s) == s.subrange(k, s.len() as int),
    decreases k,
{
    if k == 0 {
        assert(s.subrange(0, s.len() as int) == s);
    } else {
        lemma_trim_start(s.drop_first(), k - 1);
        assert(s.drop_first().subrange(k - 1, s.len() - 1) == s.subrange(k, s.len() as int));
    }
}

pub proof fn lemma_trim_end(s: Seq<char>, k: int)
    requires
        0 <= k <= s.len(),
        forall|i: int| k <= i < s.len() ==> is_ws(s[i]),
        k == 0 || !is_ws(s[k - 1]),
    ensures
        trim_end(s) == s.subrange(0, k),
    decreases s.len() - k,
{
    if k == s.len() {
        assert(s.subrange(0, s.len() as int) == s);
    } else {
        lemma_trim_end(s.drop_last(), k);
        assert(s.drop_last().subrange(0, k) == s.subrange(0, k));
    }
}

/// Bounds `(lo, hi)` such that `trim(cs) == cs[lo..hi]`.
pub fn trim_bounds(cs: &Vec<char>) -> (r: (usize, usize))
    ensures
        r.0 <= r.1 <= cs.len(),
        trim(cs@) == cs@.subrange(r.0 as int, r.1 as int),
        forall|i: int| 0 <= i < r.0 ==> is_ws(cs@[i]),
        forall|i: int| r.1 <= i < cs.len() ==> is_ws(cs@[i]),
{
    let mut lo: usize = 0;
    while lo < cs.len() && is_whitespace(cs[lo])
        invariant
            lo <= cs.len(),
            forall|i: int| 0 <= i < lo ==> is_ws(cs@[i]),
        decreases cs.len() - lo,
    {
        lo = lo + 1;
    }
    proof {
        lemma_trim_start(cs@, lo as int);
    }
    let mut hi: usize = cs.len();
    while hi > lo && is_whitespace(cs[hi - 1])
        invariant
            lo <= hi <= cs.len(),
            forall|i: int| hi <= i < cs.len() ==> is_ws(cs@[i]),
        decreases hi - lo,
    {
        hi = hi - 1;
    }
    proof {
        let t = cs@.subrange(lo as int, cs.len() as int);
        lemma_trim_end(t, hi - lo);
        assert(t.subrange(0, hi - lo) == cs@.subrange(lo as int, hi as int));
    }
    (lo, hi)
}

/// `str::trim`, returned as an owned string.
pub fn trim_str(s: &str) -> (out: String)
    ensures
        out@ == trim(s@),
{
    let cs = chars_of(s);
    let (lo, hi) = trim_bounds(&cs);
    string_of_range(&cs, lo, hi)
}

/// `str::trim().is_empty()`.
pub fn is_blank(s: &str) -> (r: bool)
    ensures
        r == (trim(s@).len() == 0),
{
    let cs = chars_of(s);
    let (lo, hi) = trim_bounds(&cs);
    lo == hi
}

/// `str::to_ascii_lowercase`.
pub fn ascii_lowercase(s: &str) -> (out: String)
    ensures
        out@ == ascii_lower(s@),
{
    let cs = chars_of(s);
    let mut out = String::new();
    let mut i: usize = 0;
    while i < cs.len()
        invariant
            i <= cs.len(),
            cs@ == s@,
            out@ == ascii_lower(s@).take(i as int),
        decreases cs.len() - i,
    {
        let c = cs[i];
        let l = if 'A' <= c && c <= 'Z' {
            char_from_u32_checked((c as u32) + 32)
        } else {
            c
        };
        push_char(&mut out, l);
        assert(ascii_lower(s@).take(i + 1) == ascii_lower(s@).take(i as int).push(l));
        i = i + 1;
    }
    assert(ascii_lower(s@).take(cs.len() as int) == ascii_lower(s@));
    out
}

/// Maps an ASCII code point back to its character.
fn char_from_u32_checked(v: u32) -> (c: char)
    requires
        0x61 <= v <= 0x7a,
    ensures
        c as u32 == v,
        c == (v as char),
{
    let cs: [char; 26] = [
        'a', 'b', 'c', 'd', 'e', 'f', 'g', 'h', 'i', 'j', 'k', 'l', 'm', 'n', 'o', 'p', 'q', 'r',
        's', 't', 'u', 'v', 'w', 'x', 'y', 'z',
    ];
    let c = cs[(v - 0x61) as usize];
    assert(c as u32 == v) by {
        assert(cs@[(v - 0x61) as int] as u32 == v);
    }
    c
}

/// Whether some character of `s` is a control character.
pub open spec fn has_control(s: Seq<char>) -> bool {
    exists|i: int| 0 <= i < s.len() && is_cc(#[trigger] s[i])
}

/// `s.chars().any(char::is_control)`.
pub fn contains_control(s: &str) -> (r: bool)
    ensures
        r == has_control(s@),
{
    let cs = chars_of(s);
    let mut i: usize = 0;
    while i < cs.len()
        invariant
            i <= cs.len(),
            cs@ == s@,
            forall|j: int| 0 <= j < i ==> !is_cc(#[trigger] cs@[j]),
        decreases cs.len() - i,
    {
        if is_control(cs[i]) {
            assert(is_cc(s@[i as int]));
            return true;
        }
        i = i + 1;
    }
    false
}

/// Number of bytes in the UTF-8 encoding of `s` (`str::len`).
pub fn utf8_len(s: &str) -> (n: u128)
    ensures
        n == vstd::utf8::encode_utf8(s@).len(),
        n <= 4 * (usize::MAX as int),
{
    let cs = chars_of(s);
    let len = cs.len();
    let mut acc: u128 = 0;
    let mut i: usize = len;
    while i > 0
        invariant
            i <= len == cs@.len(),
            cs@ == s@,
            acc == vstd::utf8::encode_utf8(cs@.subrange(i as int, len as int)).len(),
            acc <= 4 * (len - i),
        decreases i,
    {
        let c = cs[i - 1];
        let v = c as u32;
        let w: u128 = if v <= 0x7f {
            1
        } else if v <= 0x7ff {
            2
        } else if v <= 0xffff {
            3
        } else {
            4
        };
        proof {
            let sub = cs@.subrange(i - 1, len as int);
            assert(sub.drop_first() =~= cs@.subrange(i as int, len as int));
            assert(sub[0] == c);
            vstd::utf8::char_is_scalar(c);
            assert(vstd::utf8::encode_scalar(v).len() == w);
        }
        acc = acc + w;
        i = i - 1;
    }
    assert(cs@.subrange(0, len as int) =~= s@);
    acc
}

/// Renders a number in decimal.
pub fn decimal_string(n: u64) -> (out: String)
    ensures
        out@ == decimal(n as nat),
    decreases n,
{
    if n < 10 {
        let mut out = String::new();
        push_char(&mut out, digit(n));
        out
    } else {
        let mut out = decimal_string(n / 10);
        push_char(&mut out, digit(n % 10));
        out
    }
}

fn digit(d: u64) -> (c: char)
    requires
        d < 10,
    ensures
        c == digit_char(d as nat),
{
    let cs: [char; 10] = ['0', '1', '2', '3', '4', '5', '6', '7', '8', '9'];
    let c = cs[d as usize];
    assert(c == digit_char(d as nat)) by {
        assert(cs@[d as int] == (d + 48) as char);
    }
    c
}

} // verus!
