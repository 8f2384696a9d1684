//! Text handling of live translation streams: sentence boundaries in a growing
//! transcript and the bounded display line.
use vstd::prelude::*;

use crate::text::{
    ascii_lower, chars_of, is_ascii_alpha, is_ascii_digit, is_whitespace, is_ws, string_of_range,
    trim_end, trim_start, utf8_len,
};

verus! {

/// Longest display line, in characters.
pub const MAX_DISPLAY_CHARS: usize = 160;

/// A mark that ends a sentence.
pub open spec fn is_terminal(c: char) -> bool {
    c == '.' || c == '。' || c == '．' || c == '｡' || c == '!' || c == '！' || c == '?' || c == '？'
        || c == '؟' || c == '‼' || c == '⁇' || c == '⁈' || c == '⁉' || c == '\n' || c == '\r'
}

/// A closing quote or bracket that may follow a sentence end.
pub open spec fn is_closing(c: char) -> bool {
    c == '"' || c == '\'' || c == '”' || c == '’' || c == '」' || c == '』' || c == ')' || c == '）'
        || c == ']' || c == '】' || c == '》' || c == '»'
}

/// An opening quote or bracket.
pub open spec fn is_opening(c: char) -> bool {
    c == '“' || c == '‘' || c == '「' || c == '『' || c == '(' || c == '（' || c == '[' || c == '【'
        || c == '《' || c == '«'
}

/// Whether `c` ends a sentence.
pub fn terminal(c: char) -> (r: bool)
    ensures
        r == is_terminal(c),
{
    c == '.' || c == '。' || c == '．' || c == '｡' || c == '!' || c == '！' || c == '?' || c == '？'
        || c == '؟' || c == '‼' || c == '⁇' || c == '⁈' || c == '⁉' || c == '\n' || c == '\r'
}

/// Whether `c` is a closing quote or bracket.
pub fn closing(c: char) -> (r: bool)
    ensures
        r == is_closing(c),
{
    c == '"' || c == '\'' || c == '”' || c == '’' || c == '」' || c == '』' || c == ')' || c == '）'
        || c == ']' || c == '】' || c == '》' || c == '»'
}

fn opening(c: char) -> (r: bool)
    ensures
        r == is_opening(c),
{
    c == '“' || c == '‘' || c == '「' || c == '『' || c == '(' || c == '（' || c == '[' || c == '【'
        || c == '《' || c == '«'
}

/// A character that carries content: not white space, punctuation that ends
/// a sentence, or a quote or bracket.
pub open spec fn is_content(c: char) -> bool {
    !is_ws(c) && !is_terminal(c) && !is_closing(c) && !is_opening(c)
}

/// Whether a text holds any content character.
pub open spec fn content_in(t: Seq<char>) -> bool {
    exists|i: int| 0 <= i < t.len() && is_content(#[trigger] t[i])
}

/// Whether a text holds anything besides white space, sentence marks, quotes and brackets.
pub fn has_content(text: &str) -> (r: bool)
    ensures
        r == content_in(text@),
{
    let cs = chars_of(text);
    let mut i: usize = 0;
    while i < cs.len()
        invariant
            i <= cs@.len(),
            cs@ == text@,
            forall|j: int| 0 <= j < i ==> !is_content(#[trigger] cs@[j]),
        decreases cs@.len() - i,
    {
        let c = cs[i];
        if !is_whitespace(c) && !terminal(c) && !closing(c) && !opening(c) {
            assert(is_content(text@[i as int]));
            return true;
        }
        i = i + 1;
    }
    false
}

/// Start of the last run of non-white-space characters of `t` that ends at `i`.
pub open spec fn word_start(t: Seq<char>, i: int) -> int
    decreases i,
{
    if i <= 0 || i > t.len() {
        0
    } else if is_ws(t[i - 1]) {
        i
    } else {
        word_start(t, i - 1)
    }
}

/// The last word of a text: its last run of non-white-space characters.
pub open spec fn last_word(s: Seq<char>) -> Seq<char> {
    let t = trim_end(s);
    t.subrange(word_start(t, t.len() as int), t.len() as int)
}

/// Words after which a period does not end a sentence.
pub open spec fn abbreviation(w: Seq<char>) -> bool {
    w == "mr"@ || w == "mrs"@ || w == "ms"@ || w == "dr"@ || w == "prof"@ || w == "sr"@ || w == "jr"@
        || w == "e.g"@ || w == "i.e"@ || (w.len() == 1 && is_ascii_alpha(w[0]))
}

/// Whether the period at `pos` belongs to a decimal number or an abbreviation.
pub open spec fn period_continues(t: Seq<char>, pos: int) -> bool {
    ||| (pos > 0 && is_ascii_digit(t[pos - 1]) && pos + 1 < t.len() && is_ascii_digit(t[pos + 1]))
    ||| abbreviation(ascii_lower(last_word(t.subrange(0, pos))))
}

/// The end of the run of sentence marks, closing marks and white space that starts at `k`.
pub open spec fn run_end(t: Seq<char>, k: int) -> int
    decreases t.len() - k,
{
    if 0 <= k < t.len() && (is_terminal(t[k]) || is_closing(t[k]) || is_ws(t[k])) {
        run_end(t, k + 1)
    } else {
        k
    }
}

/// The end (in characters) of the first complete sentence at or after `pos`:
/// a sentence mark that is not part of a number or abbreviation, with the
/// marks, closing quotes and white space after it. A sentence that reaches
/// the end of the text counts only when `allow_trailing` holds.
pub open spec fn sentence_end_from(t: Seq<char>, allow_trailing: bool, pos: int) -> Option<int>
    decreases t.len() - pos,
{
    if pos < 0 || pos >= t.len() {
        None
    } else if !is_terminal(t[pos]) || (t[pos] == '.' && period_continues(t, pos)) {
        sentence_end_from(t, allow_trailing, pos + 1)
    } else if run_end(t, pos + 1) < t.len() || allow_trailing {
        Some(run_end(t, pos + 1))
    } else {
        sentence_end_from(t, allow_trailing, pos + 1)
    }
}

proof fn lemma_word_start_bounds(t: Seq<char>, i: int)
    requires
        0 <= i <= t.len(),
    ensures
        0 <= word_start(t, i) <= i,
    decreases i,
{
    if i > 0 && !is_ws(t[i - 1]) {
        lemma_word_start_bounds(t, i - 1);
    }
}

/// The last word of `cs[..pos]`, ASCII lower-cased.
fn last_word_lower(cs: &Vec<char>, pos: usize) -> (r: String)
    requires
        pos <= cs@.len(),
    ensures
        r@ == ascii_lower(last_word(cs@.subrange(0, pos as int))),
{
    let ghost before = cs@.subrange(0, pos as int);
    let mut end = pos;
    while end > 0 && is_whitespace(cs[end - 1])
        invariant
            end <= pos <= cs@.len(),
            before == cs@.subrange(0, pos as int),
            trim_end(before) == trim_end(cs@.subrange(0, end as int)),
        decreases end,
    {
        assert(cs@.subrange(0, end as int).drop_last() =~= cs@.subrange(0, end - 1));
        end = end - 1;
    }
    let ghost t = cs@.subrange(0, end as int);
    assert(trim_end(t) == t);
    let mut start = end;
    while start > 0 && !is_whitespace(cs[start - 1])
        invariant
            start <= end <= cs@.len(),
            t == cs@.subrange(0, end as int),
            word_start(t, end as int) == word_start(t, start as int),
        decreases start,
    {
        start = start - 1;
    }
    proof {
        lemma_word_start_bounds(t, start as int);
    }
    assert(t.subrange(start as int, end as int) =~= cs@.subrange(start as int, end as int));
    let w = string_of_range(cs, start, end);
    crate::text::ascii_lowercase(w.as_str())
}

fn is_abbreviation(w: &str) -> (r: bool)
    ensures
        r == abbreviation(w@),
{
    let cs = chars_of(w);
    crate::text::str_eq(w, "mr") || crate::text::str_eq(w, "mrs") || crate::text::str_eq(w, "ms")
        || crate::text::str_eq(w, "dr") || crate::text::str_eq(w, "prof") || crate::text::str_eq(w, "sr")
        || crate::text::str_eq(w, "jr") || crate::text::str_eq(w, "e.g") || crate::text::str_eq(w, "i.e")
        || (cs.len() == 1 && (('a' <= cs[0] && cs[0] <= 'z') || ('A' <= cs[0] && cs[0] <= 'Z')))
}

fn run_end_of(cs: &Vec<char>, k: usize) -> (r: usize)
    requires
        k <= cs@.len(),
    ensures
        r == run_end(cs@, k as int),
        k <= r <= cs@.len(),
{
    let mut e = k;
    while e < cs.len() && (terminal(cs[e]) || closing(cs[e]) || is_whitespace(cs[e]))
        invariant
            k <= e <= cs@.len(),
            run_end(cs@, k as int) == run_end(cs@, e as int),
        decreases cs@.len() - e,
    {
        e = e + 1;
    }
    e
}

/// The end of the first complete sentence of `cs`, in characters.
pub fn sentence_end_chars(cs: &Vec<char>, allow_trailing: bool) -> (r: Option<usize>)
    ensures
        match r {
            Some(e) => sentence_end_from(cs@, allow_trailing, 0) == Some(e as int) && e <= cs@.len(),
            None => sentence_end_from(cs@, allow_trailing, 0).is_none(),
        },
{
    let mut pos: usize = 0;
    while pos < cs.len()
        invariant
            pos <= cs@.len(),
            sentence_end_from(cs@, allow_trailing, 0) == sentence_end_from(cs@, allow_trailing, pos as int),
        decreases cs@.len() - pos,
    {
        let c = cs[pos];
        if terminal(c) {
            let continues = c == '.' && ((pos > 0 && '0' <= cs[pos - 1] && cs[pos - 1] <= '9' && pos + 1
                < cs.len() && '0' <= cs[pos + 1] && cs[pos + 1] <= '9') || is_abbreviation(
                last_word_lower(cs, pos).as_str(),
            ));
            if !continues {
                let end = run_end_of(cs, pos + 1);
                if end < cs.len() || allow_trailing {
                    return Some(end);
                }
            }
        }
        pos = pos + 1;
    }
    None
}

/// The end of the first complete sentence of `text`, as a byte offset; a
/// sentence that reaches the end of the text counts only when `allow_trailing`
/// holds.
pub fn sentence_end(text: &str, allow_trailing: bool) -> (r: Option<usize>)
    requires
        vstd::utf8::encode_utf8(text@).len() <= usize::MAX,
    ensures
        match r {
            Some(b) => sentence_end_from(text@, allow_trailing, 0) matches Some(e) && b
                == vstd::utf8::encode_utf8(text@.subrange(0, e)).len(),
            None => sentence_end_from(text@, allow_trailing, 0).is_none(),
        },
{
    let cs = chars_of(text);
    match sentence_end_chars(&cs, allow_trailing) {
        None => None,
        Some(e) => {
            let head = string_of_range(&cs, 0, e);
            let n = utf8_len(head.as_str());
            proof {
                lemma_encode_concat(text@.subrange(0, e as int), text@.subrange(e as int, text@.len() as int));
                assert(text@.subrange(0, e as int) + text@.subrange(e as int, text@.len() as int) =~= text@);
            }
            Some(n as usize)
        },
    }
}

/// The encoding of a concatenation is the concatenation of the encodings.
pub proof fn lemma_encode_concat(a: Seq<char>, b: Seq<char>)
    ensures
        vstd::utf8::encode_utf8(a + b) == vstd::utf8::encode_utf8(a) + vstd::utf8::encode_utf8(b),
    decreases a.len(),
{
    if a.len() == 0 {
        assert(a + b =~= b);
        assert(vstd::utf8::encode_utf8(a) =~= Seq::<u8>::empty());
        assert(vstd::utf8::encode_utf8(a) + vstd::utf8::encode_utf8(b) =~= vstd::utf8::encode_utf8(b));
    } else {
        lemma_encode_concat(a.drop_first(), b);
        assert((a + b).drop_first() =~= a.drop_first() + b);
        assert((a + b)[0] == a[0]);
        let x = vstd::utf8::encode_scalar(a[0] as u32);
        assert(vstd::utf8::encode_utf8(a + b) =~= x + (vstd::utf8::encode_utf8(a.drop_first()) + vstd::utf8::encode_utf8(b)));
        assert(vstd::utf8::encode_utf8(a) =~= x + vstd::utf8::encode_utf8(a.drop_first()));
    }
}

/// A character after which a display line may be cut.
pub open spec fn is_break(c: char) -> bool {
    is_ws(c) || c == ',' || c == '，' || c == ';' || c == '；'
}

/// Whether `s[k..]` holds a character that is not white space.
pub open spec fn nonblank_from(s: Seq<char>, k: int) -> bool {
    exists|i: int| k <= i < s.len() && !is_ws(#[trigger] s[i])
}

/// The first position at or after `j` where the line may be cut with text still after it.
pub open spec fn first_break(s: Seq<char>, j: int) -> Option<int>
    decreases s.len() - j,
{
    if j < 0 || j >= s.len() {
        None
    } else if is_break(s[j]) && nonblank_from(s, j + 1) {
        Some(j)
    } else {
        first_break(s, j + 1)
    }
}

/// Where a line longer than the display limit is cut: after the first break
/// at or past the excess, else exactly at the excess.
pub open spec fn display_cut(s: Seq<char>, excess: int) -> int {
    match first_break(s, excess) {
        Some(j) => j + 1,
        None => excess,
    }
}

/// The display line after `delta` arrives: appended, cut to the newest
/// `MAX_DISPLAY_CHARS` characters (preferring a word or clause boundary), and
/// without leading white space. An empty delta changes nothing.
pub open spec fn display_append(current: Seq<char>, delta: Seq<char>) -> Seq<char> {
    if delta.len() == 0 {
        current
    } else {
        let s = current + delta;
        let kept = if s.len() > MAX_DISPLAY_CHARS {
            s.subrange(display_cut(s, s.len() - MAX_DISPLAY_CHARS), s.len() as int)
        } else {
            s
        };
        trim_start(kept)
    }
}

proof fn lemma_first_break_bounds(s: Seq<char>, j: int)
    requires
        0 <= j,
    ensures
        first_break(s, j) matches Some(k) ==> j <= k < s.len(),
    decreases s.len() - j,
{
    if j < s.len() && !(is_break(s[j]) && nonblank_from(s, j + 1)) {
        lemma_first_break_bounds(s, j + 1);
    }
}

fn is_break_char(c: char) -> (r: bool)
    ensures
        r == is_break(c),
{
    is_whitespace(c) || c == ',' || c == '，' || c == ';' || c == '；'
}

/// Start of the first character of `cs[from..]` that is not white space.
fn first_nonblank(cs: &Vec<char>, from: usize) -> (r: usize)
    requires
        from <= cs@.len(),
    ensures
        from <= r <= cs@.len(),
        forall|i: int| from <= i < r ==> is_ws(#[trigger] cs@[i]),
        r < cs@.len() ==> !is_ws(cs@[r as int]),
{
    let mut k = from;
    while k < cs.len() && is_whitespace(cs[k])
        invariant
            from <= k <= cs@.len(),
            forall|i: int| from <= i < k ==> is_ws(#[trigger] cs@[i]),
        decreases cs@.len() - k,
    {
        k = k + 1;
    }
    k
}

/// Appends `delta` to a display line and keeps the line within
/// `MAX_DISPLAY_CHARS` characters, cutting old text at a word or clause
/// boundary where one exists, and dropping leading white space.
pub fn append_display_text(current: &mut String, delta: &str)
    ensures
        final(current)@ == display_append(old(current)@, delta@),
{
    if crate::text::char_count(delta) == 0 {
        return;
    }
    crate::text::push_str(current, delta);
    let cs = chars_of(current.as_str());
    let ghost s = cs@;
    let n = cs.len();
    let mut start: usize = 0;
    if n > MAX_DISPLAY_CHARS {
        let excess = n - MAX_DISPLAY_CHARS;
        let mut j = excess;
        let mut found = false;
        while j < n && !found
            invariant
                excess <= j <= n == s.len(),
                s == cs@,
                !found ==> first_break(s, excess as int) == first_break(s, j as int),
                found ==> j >= 1 && first_break(s, excess as int) == Some(j - 1),
            decreases n - j + (if found { 0int } else { 1int }),
        {
            let k = first_nonblank(&cs, j + 1);
            if is_break_char(cs[j]) && k < n {
                assert(!is_ws(s[k as int]));
                assert(nonblank_from(s, j + 1));
                found = true;
            } else {
                assert(!nonblank_from(s, j + 1) || !is_break(s[j as int])) by {
                    if is_break(s[j as int]) && nonblank_from(s, j + 1) {
                        let w = choose|i: int| j + 1 <= i < s.len() && !is_ws(#[trigger] s[i]);
                    }
                }
            }
            j = j + 1;
        }
        start = if found { j } else { excess };
        assert(start == display_cut(s, s.len() - MAX_DISPLAY_CHARS));
    }
    assert(s == old(current)@ + delta@);
    assert(n <= MAX_DISPLAY_CHARS ==> s.subrange(0, s.len() as int) =~= s);
    let lo = first_nonblank(&cs, start);
    proof {
        let kept = s.subrange(start as int, s.len() as int);
        crate::text::lemma_trim_start(kept, lo - start);
        assert(kept.subrange(lo - start, kept.len() as int) =~= s.subrange(lo as int, s.len() as int));
    }
    *current = string_of_range(&cs, lo, n);
}

/// A display line that receives text stays within `MAX_DISPLAY_CHARS` characters.
pub proof fn lemma_display_is_bounded(current: Seq<char>, delta: Seq<char>)
    requires
        delta.len() > 0,
    ensures
        display_append(current, delta).len() <= MAX_DISPLAY_CHARS,
{
    let s = current + delta;
    if s.len() > MAX_DISPLAY_CHARS {
        lemma_first_break_bounds(s, s.len() - MAX_DISPLAY_CHARS);
        let kept = s.subrange(display_cut(s, s.len() - MAX_DISPLAY_CHARS), s.len() as int);
        lemma_trim_start_suffix(kept);
    } else {
        lemma_trim_start_suffix(s);
    }
}

/// `trim_start` keeps a suffix of its argument.
pub proof fn lemma_trim_start_suffix(s: Seq<char>)
    ensures
        trim_start(s).len() <= s.len(),
        trim_start(s) =~= s.subrange(s.len() - trim_start(s).len(), s.len() as int),
    decreases s.len(),
{
    if s.len() > 0 && is_ws(s[0]) {
        lemma_trim_start_suffix(s.drop_first());
        assert(s.drop_first().subrange(s.len() - 1 - trim_start(s.drop_first()).len(), s.len() - 1)
            =~= s.subrange(s.len() - trim_start(s.drop_first()).len(), s.len() as int));
    }
}

/// The display line only ever drops old text from its front: it is a suffix
/// of the previous line followed by the new text.
pub proof fn lemma_display_keeps_the_newest_text(current: Seq<char>, delta: Seq<char>)
    ensures
        ({
            let s = current + delta;
            let d = display_append(current, delta);
            d.len() <= s.len() && d =~= s.subrange(s.len() - d.len(), s.len() as int)
        }),
{
    let s = current + delta;
    if delta.len() == 0 {
        assert(s =~= current);
    } else if s.len() > MAX_DISPLAY_CHARS {
        lemma_first_break_bounds(s, s.len() - MAX_DISPLAY_CHARS);
        let kept = s.subrange(display_cut(s, s.len() - MAX_DISPLAY_CHARS), s.len() as int);
        lemma_trim_start_suffix(kept);
        let d = trim_start(kept);
        assert(d =~= s.subrange(s.len() - d.len(), s.len() as int));
    } else {
        lemma_trim_start_suffix(s);
    }
}

} // verus!
