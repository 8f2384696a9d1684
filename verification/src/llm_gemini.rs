//! The Gemini `generateContent` protocol: request bodies, model ids, and what
//! a response or a server-sent event stream means.
use vstd::prelude::*;

use crate::diagnostics::{has_prefix, occurs, occurs_in, starts_with};
use crate::json::{
    json_array_len, json_error, json_flag, json_bool_at, json_len_at, json_present, json_has,
    json_rejection, json_str_at, json_text, json_u64_at, json_unsigned, opt_string,
};
use crate::text::{chars_of, decimal, decimal_string, is_ascii_alnum, string_of_range, trim, trim_str};

verus! {

/// Why an LLM request failed.
#[derive(Debug, Clone)]
pub struct LlmError {
    pub code: &'static str,
    pub detail: String,
    pub retryable: bool,
}

/// The value of an `LlmError`.
pub open spec fn error_view(e: LlmError) -> (Seq<char>, Seq<char>, bool) {
    (e.code@, e.detail@, e.retryable)
}

/// `models/`, which model names may carry.
pub open spec fn models_prefix() -> Seq<char> {
    seq!['m', 'o', 'd', 'e', 'l', 's', '/']
}

/// A character allowed in a model id.
pub open spec fn model_char(c: char) -> bool {
    is_ascii_alnum(c) || c == '-' || c == '_' || c == '.'
}

/// The model id that requests name: the trimmed model without one leading
/// `models/`.
pub open spec fn model_name(model: Seq<char>) -> Seq<char> {
    let t = trim(model);
    if starts_with(t, models_prefix()) {
        t.skip(7)
    } else {
        t
    }
}

/// Whether a model id is usable: 1 to 200 characters, each an ASCII letter
/// or digit, `-`, `_` or `.`.
pub open spec fn valid_model_id(m: Seq<char>) -> bool {
    0 < m.len() <= 200 && forall|i: int| 0 <= i < m.len() ==> model_char(#[trigger] m[i])
}

/// The error of an unusable model id.
pub open spec fn invalid_model_error() -> (Seq<char>, Seq<char>, bool) {
    ("llm.invalid_profile"@, "Gemini model ID is invalid"@, false)
}

fn models_prefixed(cs: &Vec<char>) -> (r: bool)
    ensures
        r == starts_with(cs@, models_prefix()),
{
    proof {
        reveal_strlit("models/");
        assert("models/"@ =~= models_prefix());
    }
    has_prefix(cs, "models/")
}

/// The model id of a request, as `model_name` and `valid_model_id` say.
pub fn model_id(model: &str) -> (r: Result<String, LlmError>)
    ensures
        match r {
            Ok(m) => m@ == model_name(model@) && valid_model_id(m@),
            Err(e) => !valid_model_id(model_name(model@)) && error_view(e) == invalid_model_error(),
        },
{
    let t = trim_str(model);
    let cs = chars_of(t.as_str());
    let m = if models_prefixed(&cs) {
        string_of_range(&cs, 7, cs.len())
    } else {
        t
    };
    proof {
        if starts_with(cs@, models_prefix()) {
            assert(cs@.subrange(7, cs@.len() as int) =~= cs@.skip(7));
        }
    }
    let ms = chars_of(m.as_str());
    let mut ok = ms.len() > 0 && ms.len() <= 200;
    let mut i: usize = 0;
    while i < ms.len()
        invariant
            i <= ms@.len(),
            ms@ == m@,
            ok == (0 < ms@.len() <= 200 && forall|j: int| 0 <= j < i ==> model_char(#[trigger] ms@[j])),
        decreases ms@.len() - i,
    {
        let c = ms[i];
        let allowed = ('a' <= c && c <= 'z') || ('A' <= c && c <= 'Z') || ('0' <= c && c <= '9') || c == '-'
            || c == '_' || c == '.';
        proof {
            if !allowed {
                assert(!model_char(ms@[i as int]));
            }
        }
        ok = ok && allowed;
        i = i + 1;
    }
    if ok {
        Ok(m)
    } else {
        Err(
            LlmError {
                code: "llm.invalid_profile",
                detail: crate::text::owned("Gemini model ID is invalid"),
                retryable: false,
            },
        )
    }
}

/// How a model is asked to think.
#[derive(Clone, Copy, Debug, PartialEq, Eq, Structural)]
pub enum Thinking {
    /// The model takes no thinking setting.
    Unset,
    /// A budget of thinking tokens.
    Budget(u32),
    /// A thinking level: high or low.
    Level(bool),
}

/// The model without any number of leading `models/`.
pub open spec fn strip_models(m: Seq<char>) -> Seq<char>
    decreases m.len(),
{
    if m.len() >= 7 && starts_with(m, models_prefix()) {
        strip_models(m.skip(7))
    } else {
        m
    }
}

/// The thinking setting of a model and the output tokens it reserves:
/// Gemini 2.5 Flash and Pro take a budget, Gemini 3 models other than image
/// models a level, other models nothing.
pub open spec fn thinking_spec(model: Seq<char>, enabled: bool) -> (Thinking, u32) {
    let m = strip_models(trim(model));
    if starts_with(m, "gemini-2.5-flash"@) {
        let b: u32 = if enabled {
            1024
        } else {
            0
        };
        (Thinking::Budget(b), b)
    } else if starts_with(m, "gemini-2.5-pro"@) {
        let b: u32 = if enabled {
            2048
        } else {
            128
        };
        (Thinking::Budget(b), b)
    } else if (starts_with(m, "gemini-3."@) || starts_with(m, "gemini-3-"@)) && !occurs(m, "-image"@) {
        (Thinking::Level(enabled), if enabled {
            8192u32
        } else {
            4096u32
        })
    } else {
        (Thinking::Unset, 0u32)
    }
}

/// The model without any number of leading `models/`.
pub fn without_models_prefix(model: &str) -> (r: String)
    ensures
        r@ == strip_models(model@),
{
    let mut cs = chars_of(model);
    while cs.len() >= 7 && models_prefixed(&cs)
        invariant
            strip_models(model@) == strip_models(cs@),
        decreases cs@.len(),
    {
        let rest = string_of_range(&cs, 7, cs.len());
        assert(cs@.subrange(7, cs@.len() as int) =~= cs@.skip(7));
        cs = chars_of(rest.as_str());
    }
    string_of_range(&cs, 0, cs.len())
}

/// The thinking setting of a model, as `thinking_spec` says.
pub fn thinking_for(model: &str, enabled: bool) -> (r: (Thinking, u32))
    ensures
        r == thinking_spec(model@, enabled),
{
    let t = trim_str(model);
    let mut cs = chars_of(t.as_str());
    while cs.len() >= 7 && models_prefixed(&cs)
        invariant
            strip_models(trim(model@)) == strip_models(cs@),
        decreases cs@.len(),
    {
        let rest = string_of_range(&cs, 7, cs.len());
        assert(cs@.subrange(7, cs@.len() as int) =~= cs@.skip(7));
        cs = chars_of(rest.as_str());
    }
    if has_prefix(&cs, "gemini-2.5-flash") {
        let b: u32 = if enabled {
            1024
        } else {
            0
        };
        (Thinking::Budget(b), b)
    } else if has_prefix(&cs, "gemini-2.5-pro") {
        let b: u32 = if enabled {
            2048
        } else {
            128
        };
        (Thinking::Budget(b), b)
    } else if (has_prefix(&cs, "gemini-3.") || has_prefix(&cs, "gemini-3-")) && !occurs_in(&cs, "-image") {
        (Thinking::Level(enabled), if enabled {
            8192
        } else {
            4096
        })
    } else {
        (Thinking::Unset, 0)
    }
}

/// The output token limit: thinking and visible text share it, and the
/// visible part is at least 512 tokens.
pub open spec fn output_limit(requested: u32, reserve: u32) -> u32 {
    let base: int = if requested < 512 {
        512
    } else {
        requested as int
    };
    if base + reserve > u32::MAX {
        u32::MAX
    } else {
        (base + reserve) as u32
    }
}

fn output_tokens(requested: u32, reserve: u32) -> (r: u32)
    ensures
        r == output_limit(requested, reserve),
{
    let base = if requested < 512 {
        512
    } else {
        requested
    };
    base.saturating_add(reserve)
}

/// A lower-case hexadecimal digit.
pub open spec fn hex_digit(d: int) -> char {
    if d < 10 {
        (('0' as int) + d) as char
    } else {
        (('a' as int) + d - 10) as char
    }
}

/// How a character stands in a JSON string, as `serde_json` writes it.
pub open spec fn escape_char(c: char) -> Seq<char> {
    if c == '"' {
        seq!['\\', '"']
    } else if c == '\\' {
        seq!['\\', '\\']
    } else if c == '\n' {
        seq!['\\', 'n']
    } else if c == '\r' {
        seq!['\\', 'r']
    } else if c == '\t' {
        seq!['\\', 't']
    } else if c == '\u{8}' {
        seq!['\\', 'b']
    } else if c == '\u{c}' {
        seq!['\\', 'f']
    } else if (c as u32) < 0x20 {
        seq!['\\', 'u', '0', '0', hex_digit(((c as u32) / 16) as int), hex_digit(((c as u32) % 16) as int)]
    } else {
        seq![c]
    }
}

/// A text written inside a JSON string.
pub open spec fn escape(s: Seq<char>) -> Seq<char>
    decreases s.len(),
{
    if s.len() == 0 {
        Seq::empty()
    } else {
        escape(s.drop_last()) + escape_char(s.last())
    }
}

/// A text as a JSON string literal.
pub open spec fn json_string(s: Seq<char>) -> Seq<char> {
    seq!['"'] + escape(s) + seq!['"']
}

fn hex(d: u32) -> (c: char)
    requires
        d < 16,
    ensures
        c == hex_digit(d as int),
{
    if d < 10 {
        let c = ('0' as u8 + d as u8) as char;
        assert(c == hex_digit(d as int));
        c
    } else {
        let c = ('a' as u8 + (d as u8 - 10)) as char;
        assert(c == hex_digit(d as int));
        c
    }
}

/// Writes `s` as a JSON string literal.
pub fn quote_json(s: &str) -> (r: String)
    ensures
        r@ == json_string(s@),
{
    let cs = chars_of(s);
    let mut out = String::new();
    crate::text::push_char(&mut out, '"');
    let mut i: usize = 0;
    assert(cs@.take(0) =~= Seq::<char>::empty());
    assert(out@ =~= seq!['"']);
    while i < cs.len()
        invariant
            i <= cs@.len(),
            cs@ == s@,
            out@ == seq!['"'] + escape(cs@.take(i as int)),
        decreases cs@.len() - i,
    {
        let c = cs[i];
        let ghost before = out@;
        if c == '"' {
            crate::text::push_char(&mut out, '\\');
            crate::text::push_char(&mut out, '"');
            assert(out@ =~= before + escape_char(c));
        } else if c == '\\' {
            crate::text::push_char(&mut out, '\\');
            crate::text::push_char(&mut out, '\\');
            assert(out@ =~= before + escape_char(c));
        } else if c == '\n' {
            crate::text::push_char(&mut out, '\\');
            crate::text::push_char(&mut out, 'n');
            assert(out@ =~= before + escape_char(c));
        } else if c == '\r' {
            crate::text::push_char(&mut out, '\\');
            crate::text::push_char(&mut out, 'r');
            assert(out@ =~= before + escape_char(c));
        } else if c == '\t' {
            crate::text::push_char(&mut out, '\\');
            crate::text::push_char(&mut out, 't');
            assert(out@ =~= before + escape_char(c));
        } else if c == '\u{8}' {
            crate::text::push_char(&mut out, '\\');
            crate::text::push_char(&mut out, 'b');
            assert(out@ =~= before + escape_char(c));
        } else if c == '\u{c}' {
            crate::text::push_char(&mut out, '\\');
            crate::text::push_char(&mut out, 'f');
            assert(out@ =~= before + escape_char(c));
        } else if (c as u32) < 0x20 {
            let v = c as u32;
            crate::text::push_char(&mut out, '\\');
            crate::text::push_char(&mut out, 'u');
            crate::text::push_char(&mut out, '0');
            crate::text::push_char(&mut out, '0');
            crate::text::push_char(&mut out, hex(v / 16));
            crate::text::push_char(&mut out, hex(v % 16));
            assert(out@ =~= before + escape_char(c));
        } else {
            crate::text::push_char(&mut out, c);
            assert(out@ =~= before + escape_char(c));
        }
        assert(cs@.take(i + 1).drop_last() =~= cs@.take(i as int));
        assert(cs@.take(i + 1).last() == c);
        i = i + 1;
    }
    assert(cs@.take(i as int) =~= cs@);
    crate::text::push_char(&mut out, '"');
    out
}

/// A request for text.
pub struct LlmRequest {
    pub model: String,
    pub instructions: String,
    pub input: String,
    pub max_output_tokens: u32,
    pub thinking_enabled: bool,
}

/// The JSON of a thinking setting.
pub open spec fn thinking_json(t: Thinking) -> Seq<char> {
    match t {
        Thinking::Unset => Seq::empty(),
        Thinking::Budget(b) => ",\"thinkingConfig\":{\"thinkingBudget\":"@ + decimal(b as nat) + "}"@,
        Thinking::Level(high) => ",\"thinkingConfig\":{\"thinkingLevel\":"@ + (if high {
            "\"high\""@
        } else {
            "\"low\""@
        }) + "}"@,
    }
}

/// The JSON body of a `generateContent` request: the instructions as the
/// system instruction, the input as the user's turn, the output limit and
/// the model's thinking setting.
pub open spec fn request_json(
    model: Seq<char>,
    instructions: Seq<char>,
    input: Seq<char>,
    max_output_tokens: u32,
    thinking_enabled: bool,
) -> Seq<char> {
    let (t, reserve) = thinking_spec(model, thinking_enabled);
    "{\"systemInstruction\":{\"parts\":[{\"text\":"@ + json_string(instructions) + "}]},\"contents\":[{\"role\":\"user\",\"parts\":[{\"text\":"@
        + json_string(input) + "}]}],\"generationConfig\":{\"maxOutputTokens\":"@ + decimal(
        output_limit(max_output_tokens, reserve) as nat,
    ) + thinking_json(t) + "}}"@
}

/// The JSON body of a `generateContent` request, as `request_json` says.
pub fn request_body(request: &LlmRequest) -> (r: String)
    ensures
        r@ == request_json(
            request.model@,
            request.instructions@,
            request.input@,
            request.max_output_tokens,
            request.thinking_enabled,
        ),
{
    let (t, reserve) = thinking_for(request.model.as_str(), request.thinking_enabled);
    let mut out = crate::text::owned("{\"systemInstruction\":{\"parts\":[{\"text\":");
    crate::text::push_str(&mut out, quote_json(request.instructions.as_str()).as_str());
    crate::text::push_str(&mut out, "}]},\"contents\":[{\"role\":\"user\",\"parts\":[{\"text\":");
    crate::text::push_str(&mut out, quote_json(request.input.as_str()).as_str());
    crate::text::push_str(&mut out, "}]}],\"generationConfig\":{\"maxOutputTokens\":");
    crate::text::push_str(
        &mut out,
        decimal_string(output_tokens(request.max_output_tokens, reserve) as u64).as_str(),
    );
    match t {
        Thinking::Unset => {},
        Thinking::Budget(b) => {
            crate::text::push_str(&mut out, ",\"thinkingConfig\":{\"thinkingBudget\":");
            crate::text::push_str(&mut out, decimal_string(b as u64).as_str());
            crate::text::push_str(&mut out, "}");
        },
        Thinking::Level(high) => {
            crate::text::push_str(&mut out, ",\"thinkingConfig\":{\"thinkingLevel\":");
            crate::text::push_str(
                &mut out,
                if high {
                    "\"high\""
                } else {
                    "\"low\""
                },
            );
            crate::text::push_str(&mut out, "}");
        },
    }
    crate::text::push_str(&mut out, "}}");
    assert(out@ =~= request_json(
        request.model@,
        request.instructions@,
        request.input@,
        request.max_output_tokens,
        request.thinking_enabled,
    ));
    out
}

/// The error of a failed request: an HTTP status and the JSON body.
pub open spec fn status_error_spec(status: u16, body: Seq<char>) -> (Seq<char>, Seq<char>, bool) {
    let detail = match json_text(body, "/error/message"@) {
        Some(d) => d,
        None => "Gemini request failed"@,
    };
    if status == 400 {
        ("llm.invalid_request"@, detail, false)
    } else if status == 401 || status == 403 {
        ("llm.authentication_failed"@, detail, false)
    } else if status == 404 {
        ("llm.model_not_found"@, detail, false)
    } else if status == 408 {
        ("llm.timeout"@, detail, true)
    } else if status == 429 {
        ("llm.rate_limited"@, detail, true)
    } else if 500 <= status <= 599 {
        ("llm.provider_unavailable"@, detail, true)
    } else {
        ("llm.request_failed"@, detail, false)
    }
}

/// The error of a failed request, as `status_error_spec` says.
pub fn status_error(status: u16, body: &str) -> (r: LlmError)
    ensures
        error_view(r) == status_error_spec(status, body@),
{
    let detail = match json_str_at(body, "/error/message") {
        Some(d) => d,
        None => crate::text::owned("Gemini request failed"),
    };
    let (code, retryable): (&'static str, bool) = if status == 400 {
        ("llm.invalid_request", false)
    } else if status == 401 || status == 403 {
        ("llm.authentication_failed", false)
    } else if status == 404 {
        ("llm.model_not_found", false)
    } else if status == 408 {
        ("llm.timeout", true)
    } else if status == 429 {
        ("llm.rate_limited", true)
    } else if 500 <= status && status <= 599 {
        ("llm.provider_unavailable", true)
    } else {
        ("llm.request_failed", false)
    };
    LlmError { code, detail, retryable }
}

/// A failed generation.
pub open spec fn failure(detail: Seq<char>, retryable: bool) -> (Seq<char>, Seq<char>, bool) {
    ("llm.request_failed"@, detail, retryable)
}

fn response_failure(detail: String, retryable: bool) -> (r: LlmError)
    ensures
        error_view(r) == failure(detail@, retryable),
{
    LlmError { code: "llm.request_failed", detail, retryable }
}

/// The status of an error the body reports: its `code` where that is an
/// HTTP status, else 500.
pub open spec fn error_status(m: Seq<char>) -> u16 {
    match json_unsigned(m, "/error/code"@) {
        Some(c) => if 100 <= c <= 999 {
            c as u16
        } else {
            500
        },
        None => 500,
    }
}

/// A pointer into the `i`-th candidate.
pub open spec fn candidate(i: int, suffix: Seq<char>) -> Seq<char> {
    "/candidates/"@ + decimal(i as nat) + suffix
}

fn candidate_pointer(i: usize, suffix: &str) -> (r: String)
    ensures
        r@ == candidate(i as int, suffix@),
{
    let mut r = crate::text::owned("/candidates/");
    crate::text::push_str(&mut r, decimal_string(i as u64).as_str());
    crate::text::push_str(&mut r, suffix);
    r
}

/// The index a candidate claims; 0 when it claims none.
pub open spec fn candidate_index(m: Seq<char>, i: int) -> u64 {
    match json_unsigned(m, candidate(i, "/index"@)) {
        Some(x) => x,
        None => 0,
    }
}

/// The first candidate at or after `i` that claims index 0.
pub open spec fn first_candidate_from(m: Seq<char>, i: int, n: int) -> Option<int>
    decreases n - i,
{
    if i < 0 || i >= n {
        None
    } else if candidate_index(m, i) == 0 {
        Some(i)
    } else {
        first_candidate_from(m, i + 1, n)
    }
}

/// The candidate a response stands for: the first that claims index 0.
pub open spec fn first_candidate(m: Seq<char>) -> Option<int> {
    match json_array_len(m, "/candidates"@) {
        Some(n) => first_candidate_from(m, 0, n as int),
        None => None,
    }
}

fn find_first_candidate(m: &str) -> (r: Option<usize>)
    ensures
        match r {
            Some(i) => first_candidate(m@) == Some(i as int),
            None => first_candidate(m@).is_none(),
        },
{
    let n = match json_len_at(m, "/candidates") {
        Some(n) => n,
        None => return None,
    };
    let mut i: usize = 0;
    while i < n
        invariant
            i <= n,
            json_array_len(m@, "/candidates"@) == Some(n as nat),
            first_candidate(m@) == first_candidate_from(m@, i as int, n as int),
        decreases n - i,
    {
        let idx = match json_u64_at(m, candidate_pointer(i, "/index").as_str()) {
            Some(x) => x,
            None => 0,
        };
        if idx == 0 {
            return Some(i);
        }
        i = i + 1;
    }
    None
}

/// Whether a response (or stream event) completes the generation, or the
/// error it reports: an error body, a blocked prompt, or a finish reason
/// other than `STOP`; no finish reason yet means not complete.
pub open spec fn completion(m: Seq<char>) -> Result<bool, (Seq<char>, Seq<char>, bool)> {
    if json_present(m, "/error"@) {
        Err(status_error_spec(error_status(m), m))
    } else {
        match json_text(m, "/promptFeedback/blockReason"@) {
            Some(reason) => Err(failure("Gemini blocked the prompt: "@ + reason, false)),
            None => match first_candidate(m) {
                None => Ok(false),
                Some(i) => match json_text(m, candidate(i, "/finishReason"@)) {
                    None => Ok(false),
                    Some(reason) => if reason == "STOP"@ {
                        Ok(true)
                    } else if reason.len() == 0 || reason == "FINISH_REASON_UNSPECIFIED"@ {
                        Ok(false)
                    } else {
                        Err(failure("Gemini generation stopped: "@ + reason, false))
                    },
                },
            },
        }
    }
}

pub open spec fn result_view(r: Result<bool, LlmError>) -> Result<bool, (Seq<char>, Seq<char>, bool)> {
    match r {
        Ok(b) => Ok(b),
        Err(e) => Err(error_view(e)),
    }
}

/// Whether a response completes the generation, as `completion` says.
pub fn response_completed(m: &str) -> (r: Result<bool, LlmError>)
    ensures
        result_view(r) == completion(m@),
{
    if json_has(m, "/error") {
        let status: u16 = match json_u64_at(m, "/error/code") {
            Some(c) => if 100 <= c && c <= 999 {
                c as u16
            } else {
                500
            },
            None => 500,
        };
        return Err(status_error(status, m));
    }
    if let Some(reason) = json_str_at(m, "/promptFeedback/blockReason") {
        return Err(response_failure(crate::text::concat("Gemini blocked the prompt: ", reason.as_str()), false));
    }
    let i = match find_first_candidate(m) {
        Some(i) => i,
        None => return Ok(false),
    };
    match json_str_at(m, candidate_pointer(i, "/finishReason").as_str()) {
        None => Ok(false),
        Some(reason) => if crate::text::str_eq(reason.as_str(), "STOP") {
            Ok(true)
        } else if crate::text::char_count(reason.as_str()) == 0 || crate::text::str_eq(
            reason.as_str(),
            "FINISH_REASON_UNSPECIFIED",
        ) {
            Ok(false)
        } else {
            Err(response_failure(crate::text::concat("Gemini generation stopped: ", reason.as_str()), false))
        },
    }
}

/// A pointer into part `j` of candidate `i`.
pub open spec fn part(i: int, j: int, suffix: Seq<char>) -> Seq<char> {
    candidate(i, "/content/parts/"@ + decimal(j as nat) + suffix)
}

/// The text of the first `k` parts of candidate `i`, thoughts left out.
pub open spec fn parts_text(m: Seq<char>, i: int, k: int) -> Seq<char>
    decreases k,
{
    if k <= 0 {
        Seq::empty()
    } else {
        let prev = parts_text(m, i, k - 1);
        if json_flag(m, part(i, k - 1, "/thought"@)) == Some(true) {
            prev
        } else {
            match json_text(m, part(i, k - 1, "/text"@)) {
                Some(t) => prev + t,
                None => prev,
            }
        }
    }
}

/// The visible text of a response: the text parts of its candidate, none
/// when there is no text.
pub open spec fn raw_text(m: Seq<char>) -> Option<Seq<char>> {
    match first_candidate(m) {
        None => None,
        Some(i) => match json_array_len(m, candidate(i, "/content/parts"@)) {
            None => None,
            Some(n) => if parts_text(m, i, n as int).len() > 0 {
                Some(parts_text(m, i, n as int))
            } else {
                None
            },
        },
    }
}

fn part_pointer(i: usize, j: usize, suffix: &str) -> (r: String)
    ensures
        r@ == part(i as int, j as int, suffix@),
{
    let mut tail = crate::text::owned("/content/parts/");
    crate::text::push_str(&mut tail, decimal_string(j as u64).as_str());
    crate::text::push_str(&mut tail, suffix);
    candidate_pointer(i, tail.as_str())
}

/// The visible text of a response, as `raw_text` says.
pub fn extract_raw_text(m: &str) -> (r: Option<String>)
    ensures
        opt_string(r) == raw_text(m@),
{
    let i = match find_first_candidate(m) {
        Some(i) => i,
        None => return None,
    };
    let n = match json_len_at(m, candidate_pointer(i, "/content/parts").as_str()) {
        Some(n) => n,
        None => return None,
    };
    let mut text = String::new();
    let mut j: usize = 0;
    assert(text@ =~= Seq::<char>::empty());
    while j < n
        invariant
            j <= n,
            text@ == parts_text(m@, i as int, j as int),
        decreases n - j,
    {
        if json_bool_at(m, part_pointer(i, j, "/thought").as_str()) != Some(true) {
            match json_str_at(m, part_pointer(i, j, "/text").as_str()) {
                Some(t) => crate::text::push_str(&mut text, t.as_str()),
                None => {},
            }
        }
        j = j + 1;
    }
    if crate::text::char_count(text.as_str()) > 0 {
        Some(text)
    } else {
        None
    }
}

/// The text of a finished generation: it must have completed and hold text.
pub open spec fn completed_spec(output: Seq<char>, completed: bool) -> Result<Seq<char>, (Seq<char>, Seq<char>, bool)> {
    if !completed {
        Err(failure("Gemini response ended without a completion signal"@, true))
    } else if trim(output).len() == 0 {
        Err(failure("Gemini completed the response without text"@, true))
    } else {
        Ok(trim(output))
    }
}

pub open spec fn text_result(r: Result<String, LlmError>) -> Result<Seq<char>, (Seq<char>, Seq<char>, bool)> {
    match r {
        Ok(t) => Ok(t@),
        Err(e) => Err(error_view(e)),
    }
}

/// The text of a finished generation, as `completed_spec` says.
pub fn completed_response(output: &str, completed: bool) -> (r: Result<String, LlmError>)
    ensures
        text_result(r) == completed_spec(output@, completed),
{
    if !completed {
        return Err(
            response_failure(crate::text::owned("Gemini response ended without a completion signal"), true),
        );
    }
    let t = trim_str(output);
    if crate::text::char_count(t.as_str()) == 0 {
        return Err(response_failure(crate::text::owned("Gemini completed the response without text"), true));
    }
    Ok(t)
}

/// The text of a whole JSON response: an error, or its completed text.
pub open spec fn parse_spec(m: Seq<char>) -> Result<Seq<char>, (Seq<char>, Seq<char>, bool)> {
    match completion(m) {
        Err(e) => Err(e),
        Ok(c) => completed_spec(
            match raw_text(m) {
                Some(t) => t,
                None => Seq::empty(),
            },
            c,
        ),
    }
}

/// The text of a whole JSON response, as `parse_spec` says.
pub fn parse_response(m: &str) -> (r: Result<String, LlmError>)
    ensures
        text_result(r) == parse_spec(m@),
{
    let text = match extract_raw_text(m) {
        Some(t) => t,
        None => String::new(),
    };
    let completed = match response_completed(m) {
        Ok(c) => c,
        Err(e) => return Err(e),
    };
    proof {
        if raw_text(m@) is None {
            assert(text@ =~= Seq::<char>::empty());
        }
    }
    completed_response(text.as_str(), completed)
}

/// Most models a listing keeps before sorting.
pub const MAX_LISTED_MODELS: usize = 500;

/// A pointer into the `i`-th listed model.
pub open spec fn model_entry(i: int, suffix: Seq<char>) -> Seq<char> {
    "/models/"@ + decimal(i as nat) + suffix
}

fn model_pointer(i: usize, suffix: &str) -> (r: String)
    ensures
        r@ == model_entry(i as int, suffix@),
{
    let mut r = crate::text::owned("/models/");
    crate::text::push_str(&mut r, decimal_string(i as u64).as_str());
    crate::text::push_str(&mut r, suffix);
    r
}

/// Whether method `k` of listed model `i` is `generateContent`.
pub open spec fn method_generates(m: Seq<char>, i: int, k: int) -> bool {
    json_text(m, model_entry(i, "/supportedGenerationMethods/"@ + decimal(k as nat))) == Some("generateContent"@)
}

/// Whether listed model `i` supports `generateContent`.
pub open spec fn generates(m: Seq<char>, i: int) -> bool {
    match json_array_len(m, model_entry(i, "/supportedGenerationMethods"@)) {
        Some(n) => exists|k: int| 0 <= k < n && #[trigger] method_generates(m, i, k),
        None => false,
    }
}

/// The id of a listed model: its name without one leading `models/`, trimmed.
pub open spec fn listed_id(name: Seq<char>) -> Seq<char> {
    trim(
        if starts_with(name, models_prefix()) {
            name.skip(7)
        } else {
            name
        },
    )
}

/// The model ids of the first `i` listed models that generate text, at most
/// `MAX_LISTED_MODELS` of them.
pub open spec fn listed_ids(m: Seq<char>, i: int) -> Seq<Seq<char>>
    decreases i,
{
    if i <= 0 {
        Seq::empty()
    } else {
        let prev = listed_ids(m, i - 1);
        if prev.len() >= MAX_LISTED_MODELS {
            prev
        } else if generates(m, i - 1) && json_text(m, model_entry(i - 1, "/name"@)) is Some {
            let id = listed_id(json_text(m, model_entry(i - 1, "/name"@))->0);
            if id.len() > 0 && crate::live_translation::bytes(id) <= 200 {
                prev.push(id)
            } else {
                prev
            }
        } else {
            prev
        }
    }
}

/// `x` inserted into `s` after every id that is not larger, compared in
/// ASCII lower case.
pub open spec fn insert_id(s: Seq<Seq<char>>, x: Seq<char>) -> Seq<Seq<char>>
    decreases s.len(),
{
    if s.len() == 0 {
        seq![x]
    } else if crate::service_settings::seq_lt(
        crate::text::ascii_lower(x),
        crate::text::ascii_lower(s.last()),
    ) {
        insert_id(s.drop_last(), x).push(s.last())
    } else {
        s.push(x)
    }
}

/// `s` stably sorted in ASCII lower case.
pub open spec fn sort_ids(s: Seq<Seq<char>>) -> Seq<Seq<char>>
    decreases s.len(),
{
    if s.len() == 0 {
        s
    } else {
        insert_id(sort_ids(s.drop_last()), s.last())
    }
}

/// `s` without repeats of the element just before.
pub open spec fn dedup(s: Seq<Seq<char>>) -> Seq<Seq<char>>
    decreases s.len(),
{
    if s.len() <= 1 {
        s
    } else if s.last() == s[s.len() - 2] {
        dedup(s.drop_last())
    } else {
        dedup(s.drop_last()).push(s.last())
    }
}

/// The models a listing offers: those that generate text, sorted by id
/// ignoring ASCII case, without repeats.
pub open spec fn models_spec(m: Seq<char>) -> Seq<Seq<char>> {
    let n = match json_array_len(m, "/models"@) {
        Some(n) => n as int,
        None => 0,
    };
    dedup(sort_ids(listed_ids(m, n)))
}

fn supports_generation(m: &str, i: usize) -> (r: bool)
    ensures
        r == generates(m@, i as int),
{
    let n = match json_len_at(m, model_pointer(i, "/supportedGenerationMethods").as_str()) {
        Some(n) => n,
        None => return false,
    };
    let mut k: usize = 0;
    while k < n
        invariant
            k <= n,
            json_array_len(m@, model_entry(i as int, "/supportedGenerationMethods"@)) == Some(n as nat),
            forall|j: int| 0 <= j < k ==> !#[trigger] method_generates(m@, i as int, j),
        decreases n - k,
    {
        let mut suffix = crate::text::owned("/supportedGenerationMethods/");
        crate::text::push_str(&mut suffix, decimal_string(k as u64).as_str());
        match json_str_at(m, model_pointer(i, suffix.as_str()).as_str()) {
            Some(method) => if crate::text::str_eq(method.as_str(), "generateContent") {
                assert(method_generates(m@, i as int, k as int));
                return true;
            },
            None => {},
        }
        k = k + 1;
    }
    false
}

fn insert_id_sorted(v: &mut Vec<String>, x: String)
    ensures
        crate::live_translation::texts(final(v)@) == insert_id(crate::live_translation::texts(old(v)@), x@),
{
    let ghost s = crate::live_translation::texts(v@);
    let ghost xv = x@;
    let xk = crate::text::ascii_lowercase(x.as_str());
    let mut p = v.len();
    assert(s.take(p as int) =~= s);
    assert(s.skip(p as int) =~= Seq::<Seq<char>>::empty());
    while p > 0 && str_lt_lower(xk.as_str(), v[p - 1].as_str())
        invariant
            p <= v@.len(),
            s == crate::live_translation::texts(v@),
            xv == x@,
            xk@ == crate::text::ascii_lower(xv),
            insert_id(s, xv) == insert_id(s.take(p as int), xv) + s.skip(p as int),
        decreases p,
    {
        let ghost t = s.take(p as int);
        assert(t.drop_last() =~= s.take(p - 1));
        assert(t.last() == s[p - 1]);
        assert(s.skip(p - 1) =~= seq![s[p - 1]] + s.skip(p as int));
        assert(insert_id(s.take(p - 1), xv).push(s[p - 1]) + s.skip(p as int) =~= insert_id(s.take(p - 1), xv)
            + s.skip(p - 1));
        p = p - 1;
    }
    proof {
        if p == 0 {
            assert(s.take(0) =~= Seq::<Seq<char>>::empty());
        }
    }
    v.insert(p, x);
    assert(crate::live_translation::texts(v@) =~= s.take(p as int).push(xv) + s.skip(p as int));
}

fn str_lt_lower(a_lower: &str, b: &str) -> (r: bool)
    ensures
        r == crate::service_settings::seq_lt(a_lower@, crate::text::ascii_lower(b@)),
{
    let bl = crate::text::ascii_lowercase(b);
    crate::service_settings::str_lt(a_lower, bl.as_str())
}

/// The models a listing offers, as `models_spec` says.
pub fn extract_models(m: &str) -> (r: Vec<String>)
    ensures
        crate::live_translation::texts(r@) == models_spec(m@),
{
    let n = match json_len_at(m, "/models") {
        Some(n) => n,
        None => 0,
    };
    let mut sorted: Vec<String> = Vec::new();
    let ghost mut kept: Seq<Seq<char>> = Seq::empty();
    let mut count: usize = 0;
    let mut i: usize = 0;
    while i < n
        invariant
            i <= n,
            n as int == (match json_array_len(m@, "/models"@) {
                Some(k) => k as int,
                None => 0,
            }),
            kept == listed_ids(m@, i as int),
            count == kept.len(),
            crate::live_translation::texts(sorted@) == sort_ids(kept),
        decreases n - i,
    {
        if count < MAX_LISTED_MODELS && supports_generation(m, i) {
            match json_str_at(m, model_pointer(i, "/name").as_str()) {
                Some(name) => {
                    let cs = chars_of(name.as_str());
                    let body = if models_prefixed(&cs) {
                        string_of_range(&cs, 7, cs.len())
                    } else {
                        name
                    };
                    proof {
                        if starts_with(cs@, models_prefix()) {
                            assert(cs@.subrange(7, cs@.len() as int) =~= cs@.skip(7));
                        }
                    }
                    let id = trim_str(body.as_str());
                    if crate::text::char_count(id.as_str()) > 0 && crate::text::utf8_len(id.as_str()) <= 200 {
                        proof {
                            kept = kept.push(id@);
                        }
                        insert_id_sorted(&mut sorted, id);
                        assert(kept.drop_last() =~= listed_ids(m@, i as int));
                        count = count + 1;
                    }
                },
                None => {},
            }
        }
        i = i + 1;
    }
    let mut out: Vec<String> = Vec::new();
    let mut k: usize = 0;
    let ghost sv = crate::live_translation::texts(sorted@);
    assert(sv.take(0) =~= Seq::<Seq<char>>::empty());
    while k < sorted.len()
        invariant
            k <= sorted@.len(),
            sv == crate::live_translation::texts(sorted@),
            crate::live_translation::texts(out@) == dedup(sv.take(k as int)),
            k > 0 ==> out@.len() > 0 && crate::live_translation::texts(out@).last() == sv[k - 1],
        decreases sorted@.len() - k,
    {
        assert(sv.take(k + 1).drop_last() =~= sv.take(k as int));
        assert(sv.take(k + 1).last() == sv[k as int]);
        let ghost prev = crate::live_translation::texts(out@);
        if k > 0 && crate::text::str_eq(sorted[k].as_str(), sorted[k - 1].as_str()) {
            assert(sv.take(k + 1)[k - 1] == sv[k - 1]);
        } else {
            let c = sorted[k].clone();
            out.push(c);
            assert(crate::live_translation::texts(out@) =~= prev.push(c@));
            proof {
                if k > 0 {
                    assert(sv.take(k + 1)[k - 1] == sv[k - 1]);
                }
            }
        }
        k = k + 1;
    }
    assert(sv.take(k as int) =~= sv);
    out
}

/// What `std::str::from_utf8` reports of bytes that are not UTF-8.
pub uninterp spec fn utf8_rejection(bytes: Seq<u8>) -> Seq<char>;

/// Calls `std::str::from_utf8`: valid UTF-8 decodes to its characters, and
/// anything else is refused with the error's text, named by `utf8_rejection`.
#[verifier::external_body]
fn utf8_text(bytes: &[u8]) -> (r: Result<String, String>)
    ensures
        match r {
            Ok(s) => vstd::utf8::valid_utf8(bytes@) && s@ == vstd::utf8::decode_utf8(bytes@),
            Err(e) => !vstd::utf8::valid_utf8(bytes@) && e@ == utf8_rejection(bytes@),
        },
{
    std::str::from_utf8(bytes).map(str::to_owned).map_err(|error| error.to_string())
}

/// A line without its trailing carriage returns and line feeds.
pub open spec fn trim_line_end(s: Seq<char>) -> Seq<char>
    decreases s.len(),
{
    if s.len() > 0 && (s.last() == '\r' || s.last() == '\n') {
        trim_line_end(s.drop_last())
    } else {
        s
    }
}

/// The data of a `data:` line, without one leading space.
pub open spec fn data_of(line: Seq<char>) -> Option<Seq<char>> {
    if starts_with(line, "data:"@) {
        let d = line.skip("data:"@.len() as int);
        Some(
            if d.len() > 0 && d[0] == ' ' {
                d.skip(1)
            } else {
                d
            },
        )
    } else {
        None
    }
}

/// An invalid response.
pub open spec fn invalid_response(detail: Seq<char>) -> (Seq<char>, Seq<char>, bool) {
    ("llm.invalid_response"@, detail, false)
}

/// One line of a server-sent event stream: `data:` lines gather the event,
/// and a blank line ends it; an ended event is a JSON response whose
/// completion is returned and whose text is added to the output. Returns the
/// event data, the output, and whether the event completed the generation
/// and whether the output grew.
pub open spec fn sse_line(event: Seq<char>, output: Seq<char>, bytes: Seq<u8>) -> (
    Seq<char>,
    Seq<char>,
    Result<(bool, bool), (Seq<char>, Seq<char>, bool)>,
) {
    if !vstd::utf8::valid_utf8(bytes) {
        (event, output, Err(invalid_response(utf8_rejection(bytes))))
    } else {
        let line = trim_line_end(vstd::utf8::decode_utf8(bytes));
        let ev = match data_of(line) {
            Some(d) => (event + d).push('\n'),
            None => event,
        };
        if line.len() > 0 || ev.len() == 0 {
            (ev, output, Ok((false, false)))
        } else {
            match json_rejection(ev) {
                Some(d) => (ev, output, Err(invalid_response(d))),
                None => match completion(ev) {
                    Err(e) => (Seq::empty(), output, Err(e)),
                    Ok(c) => match raw_text(ev) {
                        Some(t) => (Seq::empty(), output + t, Ok((c, true))),
                        None => (Seq::empty(), output, Ok((c, false))),
                    },
                },
            }
        }
    }
}

pub open spec fn line_result(r: Result<(bool, bool), LlmError>) -> Result<(bool, bool), (Seq<char>, Seq<char>, bool)> {
    match r {
        Ok(x) => Ok(x),
        Err(e) => Err(error_view(e)),
    }
}

/// Handles one line of a server-sent event stream, as `sse_line` says.
pub fn process_sse_line(line: &[u8], event_data: &mut String, output: &mut String) -> (r: Result<
    (bool, bool),
    LlmError,
>)
    ensures
        (final(event_data)@, final(output)@, line_result(r)) == sse_line(old(event_data)@, old(output)@, line@),
{
    let text = match utf8_text(line) {
        Ok(t) => t,
        Err(detail) => return Err(LlmError { code: "llm.invalid_response", detail, retryable: false }),
    };
    let cs = chars_of(text.as_str());
    let mut end = cs.len();
    assert(cs@.take(end as int) =~= cs@);
    while end > 0 && (cs[end - 1] == '\r' || cs[end - 1] == '\n')
        invariant
            end <= cs@.len(),
            trim_line_end(cs@) == trim_line_end(cs@.take(end as int)),
        decreases end,
    {
        assert(cs@.take(end as int).drop_last() =~= cs@.take(end - 1));
        end = end - 1;
    }
    assert(cs@.take(end as int) =~= cs@.subrange(0, end as int));
    assert(trim_line_end(cs@.take(end as int)) == cs@.take(end as int));
    let line_text = string_of_range(&cs, 0, end);
    let lc = chars_of(line_text.as_str());
    if has_prefix(&lc, "data:") {
        let n = crate::text::char_count("data:");
        let start = if n < lc.len() && lc[n] == ' ' {
            n + 1
        } else {
            n
        };
        proof {
            let d = lc@.skip(n as int);
            if n < lc@.len() && lc@[n as int] == ' ' {
                assert(d.skip(1) =~= lc@.subrange(n + 1, lc@.len() as int));
            } else {
                assert(d =~= lc@.subrange(n as int, lc@.len() as int));
            }
        }
        let data = string_of_range(&lc, start, lc.len());
        crate::text::push_str(event_data, data.as_str());
        crate::text::push_char(event_data, '\n');
    }
    if lc.len() > 0 || crate::text::char_count(event_data.as_str()) == 0 {
        return Ok((false, false));
    }
    if let Some(detail) = json_error(event_data.as_str()) {
        return Err(LlmError { code: "llm.invalid_response", detail, retryable: false });
    }
    let ev = event_data.clone();
    *event_data = String::new();
    let completed = match response_completed(ev.as_str()) {
        Ok(c) => c,
        Err(e) => return Err(e),
    };
    match extract_raw_text(ev.as_str()) {
        Some(t) => {
            crate::text::push_str(output, t.as_str());
            Ok((completed, true))
        },
        None => Ok((completed, false)),
    }
}

/// A server-sent event stream being read: bytes not yet ending a line, the
/// event being gathered, the output so far, and whether an event completed
/// the generation.
pub struct SseStream {
    pub buffer: Vec<u8>,
    pub event_data: String,
    pub output: String,
    pub completed: bool,
}

/// The value of an `SseStream`.
pub struct StreamView {
    pub buffer: Seq<u8>,
    pub event_data: Seq<char>,
    pub output: Seq<char>,
    pub completed: bool,
}

pub open spec fn stream_view(s: SseStream) -> StreamView {
    StreamView { buffer: s.buffer@, event_data: s.event_data@, output: s.output@, completed: s.completed }
}

/// Position of the first line feed at or after `i`.
pub open spec fn first_newline(b: Seq<u8>, i: int) -> Option<int>
    decreases b.len() - i,
{
    if i < 0 || i >= b.len() {
        None
    } else if b[i] == 10 {
        Some(i)
    } else {
        first_newline(b, i + 1)
    }
}

proof fn lemma_first_newline_bounds(b: Seq<u8>, i: int)
    requires
        0 <= i,
    ensures
        first_newline(b, i) matches Some(n) ==> i <= n < b.len(),
    decreases b.len() - i,
{
    if i < b.len() && b[i] != 10 {
        lemma_first_newline_bounds(b, i + 1);
    }
}

/// The stream once `line` is handled, the output it shows if it grew, and
/// the error if the line failed.
pub open spec fn stream_line(st: StreamView, line: Seq<u8>) -> (StreamView, Option<Seq<char>>, Option<
    (Seq<char>, Seq<char>, bool),
>) {
    let (ev, out, r) = sse_line(st.event_data, st.output, line);
    match r {
        Err(e) => (StreamView { event_data: ev, output: out, ..st }, None, Some(e)),
        Ok((c, grew)) => (
            StreamView { event_data: ev, output: out, completed: st.completed || c, ..st },
            if grew {
                Some(out)
            } else {
                None
            },
            None,
        ),
    }
}

/// Every complete line of the buffer handled in turn, until one fails: the
/// stream after them, the outputs shown, and the error.
pub open spec fn drain_lines(st: StreamView) -> (StreamView, Seq<Seq<char>>, Option<(Seq<char>, Seq<char>, bool)>)
    decreases st.buffer.len(),
{
    match first_newline(st.buffer, 0) {
        None => (st, Seq::empty(), None),
        Some(nl) => if nl < 0 || nl >= st.buffer.len() {
            (st, Seq::empty(), None)
        } else {
            let line = st.buffer.take(nl + 1);
            let st1 = StreamView { buffer: st.buffer.skip(nl + 1), ..st };
            let (st2, shown, err) = stream_line(st1, line);
            let shown_now = match shown {
                Some(o) => seq![o],
                None => Seq::empty(),
            };
            if err is Some {
                (st2, shown_now, err)
            } else {
                let (st3, more, err2) = drain_lines(st2);
                (st3, shown_now + more, err2)
            }
        },
    }
}

pub open spec fn opt_error(r: Result<(), LlmError>) -> Option<(Seq<char>, Seq<char>, bool)> {
    match r {
        Ok(()) => None,
        Err(e) => Some(error_view(e)),
    }
}

impl SseStream {
    /// A stream that has received nothing.
    pub fn new() -> (r: Self)
        ensures
            stream_view(r) == (StreamView {
                buffer: Seq::empty(),
                event_data: Seq::empty(),
                output: Seq::empty(),
                completed: false,
            }),
    {
        let r = SseStream { buffer: Vec::new(), event_data: String::new(), output: String::new(), completed: false };
        assert(stream_view(r).buffer =~= Seq::<u8>::empty());
        assert(stream_view(r).event_data =~= Seq::<char>::empty());
        assert(stream_view(r).output =~= Seq::<char>::empty());
        r
    }

    fn handle_line(&mut self, line: &[u8]) -> (r: (Option<String>, Result<(), LlmError>))
        ensures
            ({
                let (st, shown, err) = stream_line(stream_view(*old(self)), line@);
                &&& stream_view(*final(self)) == st
                &&& crate::json::opt_string(r.0) == shown
                &&& opt_error(r.1) == err
            }),
    {
        match process_sse_line(line, &mut self.event_data, &mut self.output) {
            Ok((c, grew)) => {
                self.completed = self.completed || c;
                if grew {
                    (Some(self.output.clone()), Ok(()))
                } else {
                    (None, Ok(()))
                }
            },
            Err(e) => (None, Err(e)),
        }
    }

    /// Handles every complete line of the buffer, as `drain_lines` says.
    fn drain(&mut self) -> (r: (Vec<String>, Result<(), LlmError>))
        ensures
            ({
                let (st, shown, err) = drain_lines(stream_view(*old(self)));
                &&& stream_view(*final(self)) == st
                &&& crate::live_translation::texts(r.0@) == shown
                &&& opt_error(r.1) == err
            }),
    {
        let mut shown: Vec<String> = Vec::new();
        let ghost start = stream_view(*self);
        assert(crate::live_translation::texts(shown@) + drain_lines(start).1 =~= drain_lines(start).1);
        loop
            invariant_except_break
                start == stream_view(*old(self)),
                drain_lines(start).0 == drain_lines(stream_view(*self)).0,
                drain_lines(start).2 == drain_lines(stream_view(*self)).2,
                drain_lines(start).1 == crate::live_translation::texts(shown@) + drain_lines(stream_view(*self)).1,
            ensures
                ({
                    let (st, s, err) = drain_lines(start);
                    &&& stream_view(*self) == st
                    &&& crate::live_translation::texts(shown@) == s
                    &&& err.is_none()
                }),
            decreases self.buffer@.len(),
        {
            let mut nl: usize = 0;
            while nl < self.buffer.len() && self.buffer[nl] != 10
                invariant
                    nl <= self.buffer@.len(),
                    first_newline(self.buffer@, 0) == first_newline(self.buffer@, nl as int),
                decreases self.buffer@.len() - nl,
            {
                nl = nl + 1;
            }
            if nl == self.buffer.len() {
                assert(crate::live_translation::texts(shown@) + Seq::<Seq<char>>::empty() =~= crate::live_translation::texts(shown@));
                break;
            }
            proof {
                lemma_first_newline_bounds(self.buffer@, 0);
            }
            let ghost before = stream_view(*self);
            let mut line = self.buffer.split_off(nl + 1);
            std::mem::swap(&mut self.buffer, &mut line);
            assert(line@ =~= before.buffer.take(nl + 1));
            assert(self.buffer@ =~= before.buffer.skip(nl + 1));
            let ghost mid = stream_view(*self);
            assert(mid == StreamView { buffer: before.buffer.skip(nl + 1), ..before });
            let ghost prev = crate::live_translation::texts(shown@);
            let (out, res) = self.handle_line(line.as_slice());
            let ghost now_shown = match crate::json::opt_string(out) {
                Some(o) => seq![o],
                None => Seq::<Seq<char>>::empty(),
            };
            match out {
                Some(o) => {
                    shown.push(o);
                },
                None => {},
            }
            assert(crate::live_translation::texts(shown@) =~= prev + now_shown);
            match res {
                Err(e) => {
                    assert(drain_lines(before).0 == stream_view(*self));
                    assert(drain_lines(before).1 == now_shown);
                    assert(drain_lines(before).2 == Some(error_view(e)));
                    assert(drain_lines(start).1 == prev + now_shown);
                    return (shown, Err(e));
                },
                Ok(()) => {
                    assert(prev + (now_shown + drain_lines(stream_view(*self)).1) =~= crate::live_translation::texts(
                        shown@,
                    ) + drain_lines(stream_view(*self)).1);
                },
            }
        }
        (shown, Ok(()))
    }

    /// Takes in a chunk of bytes and handles every line it completes; returns
    /// the output after each line that added text, and the error if a line
    /// failed.
    pub fn feed(&mut self, chunk: &[u8]) -> (r: (Vec<String>, Result<(), LlmError>))
        ensures
            ({
                let (st, shown, err) = drain_lines(StreamView { buffer: old(self).buffer@ + chunk@, ..stream_view(*old(self)) });
                &&& stream_view(*final(self)) == st
                &&& crate::live_translation::texts(r.0@) == shown
                &&& opt_error(r.1) == err
            }),
    {
        let mut i: usize = 0;
        let ghost start = self.buffer@;
        while i < chunk.len()
            invariant
                i <= chunk@.len(),
                self.buffer@ == start + chunk@.take(i as int),
                self.event_data == old(self).event_data,
                self.output == old(self).output,
                self.completed == old(self).completed,
            decreases chunk@.len() - i,
        {
            self.buffer.push(chunk[i]);
            assert(chunk@.take(i + 1) =~= chunk@.take(i as int).push(chunk@[i as int]));
            i = i + 1;
        }
        assert(chunk@.take(i as int) =~= chunk@);
        self.drain()
    }

    /// Ends the stream: a last line without a line feed is handled, a blank
    /// line ends the last event, and the output becomes the completed text.
    pub fn end(&mut self) -> (r: (Vec<String>, Result<String, LlmError>))
        ensures
            ({
                let (st, shown, res) = end_stream(stream_view(*old(self)));
                &&& stream_view(*final(self)) == st
                &&& crate::live_translation::texts(r.0@) == shown
                &&& text_result(r.1) == res
            }),
    {
        let mut shown: Vec<String> = Vec::new();
        if self.buffer.len() > 0 {
            let mut line: Vec<u8> = Vec::new();
            std::mem::swap(&mut self.buffer, &mut line);
            let (out, res) = self.handle_line(line.as_slice());
            match out {
                Some(o) => shown.push(o),
                None => {},
            }
            match res {
                Err(e) => return (shown, Err(e)),
                Ok(()) => {},
            }
        }
        let newline: Vec<u8> = vec![10u8];
        assert(newline@ =~= seq![10u8]);
        let (out, res) = self.handle_line(newline.as_slice());
        match out {
            Some(o) => shown.push(o),
            None => {},
        }
        match res {
            Err(e) => return (shown, Err(e)),
            Ok(()) => {},
        }
        let text = completed_response(self.output.as_str(), self.completed);
        (shown, text)
    }
}

/// Ending a stream, as `SseStream::end` does: the stream after it, the
/// outputs shown, and the completed text or the error.
pub open spec fn end_stream(st: StreamView) -> (StreamView, Seq<Seq<char>>, Result<Seq<char>, (Seq<char>, Seq<char>, bool)>) {
    let (st1, s1, e1) = if st.buffer.len() > 0 {
        stream_line(StreamView { buffer: Seq::empty(), ..st }, st.buffer)
    } else {
        (st, None, None)
    };
    let shown1 = match s1 {
        Some(o) => seq![o],
        None => Seq::empty(),
    };
    match e1 {
        Some(e) => (st1, shown1, Err(e)),
        None => {
            let (st2, s2, e2) = stream_line(st1, seq![10u8]);
            let shown2 = shown1 + match s2 {
                Some(o) => seq![o],
                None => Seq::empty(),
            };
            match e2 {
                Some(e) => (st2, shown2, Err(e)),
                None => (st2, shown2, completed_spec(st2.output, st2.completed)),
            }
        },
    }
}

/// The error of a failed request whose body may not be JSON: a JSON body is
/// read as `status_error_spec` says; otherwise the detail names the status.
pub open spec fn response_error_spec(status: u16, status_display: Seq<char>, body: Seq<char>) -> (
    Seq<char>,
    Seq<char>,
    bool,
) {
    if json_rejection(body) is None {
        status_error_spec(status, body)
    } else {
        let (code, _, retryable) = status_error_spec(status, Seq::empty());
        (code, "Gemini returned HTTP "@ + status_display + " without a JSON error body"@, retryable)
    }
}

/// The error of a failed request, as `response_error_spec` says;
/// `status_display` is how the status reads, such as `503 Service Unavailable`.
pub fn response_error(status: u16, status_display: &str, body: &str) -> (r: LlmError)
    ensures
        error_view(r) == response_error_spec(status, status_display@, body@),
{
    if json_error(body).is_none() {
        return status_error(status, body);
    }
    let kind = status_error(status, "");
    let mut detail = crate::text::owned("Gemini returned HTTP ");
    crate::text::push_str(&mut detail, status_display);
    crate::text::push_str(&mut detail, " without a JSON error body");
    LlmError { code: kind.code, detail, retryable: kind.retryable }
}

/// The Gemini API endpoint.
pub const BASE_URL: &'static str = "https://generativelanguage.googleapis.com/v1beta";

/// The URL of a generation request: streamed as server-sent events when
/// progress is wanted.
pub open spec fn generate_url_spec(model: Seq<char>, streaming: bool) -> Result<Seq<char>, (Seq<char>, Seq<char>, bool)> {
    if valid_model_id(model_name(model)) {
        Ok(BASE_URL@ + "/models/"@ + model_name(model) + ":"@ + if streaming {
            "streamGenerateContent?alt=sse"@
        } else {
            "generateContent"@
        })
    } else {
        Err(invalid_model_error())
    }
}

/// The URL of a generation request, as `generate_url_spec` says.
pub fn generate_url(model: &str, streaming: bool) -> (r: Result<String, LlmError>)
    ensures
        text_result(r) == generate_url_spec(model@, streaming),
{
    let id = match model_id(model) {
        Ok(id) => id,
        Err(e) => return Err(e),
    };
    let mut url = crate::text::owned(BASE_URL);
    crate::text::push_str(&mut url, "/models/");
    crate::text::push_str(&mut url, id.as_str());
    crate::text::push_str(&mut url, ":");
    crate::text::push_str(
        &mut url,
        if streaming {
            "streamGenerateContent?alt=sse"
        } else {
            "generateContent"
        },
    );
    Ok(url)
}

/// The models of a listing; a listing without any is an invalid response.
pub open spec fn listing_spec(m: Seq<char>) -> Result<Seq<Seq<char>>, (Seq<char>, Seq<char>, bool)> {
    if models_spec(m).len() == 0 {
        Err(invalid_response("Gemini did not return any models that support generateContent"@))
    } else {
        Ok(models_spec(m))
    }
}

/// The models of a listing, as `listing_spec` says.
pub fn list_models_from(m: &str) -> (r: Result<Vec<String>, LlmError>)
    ensures
        match r {
            Ok(v) => listing_spec(m@) == Ok::<Seq<Seq<char>>, (Seq<char>, Seq<char>, bool)>(
                crate::live_translation::texts(v@),
            ),
            Err(e) => listing_spec(m@) == Err::<Seq<Seq<char>>, (Seq<char>, Seq<char>, bool)>(error_view(e)),
        },
{
    let models = extract_models(m);
    if models.len() == 0 {
        return Err(
            LlmError {
                code: "llm.invalid_response",
                detail: crate::text::owned("Gemini did not return any models that support generateContent"),
                retryable: false,
            },
        );
    }
    Ok(models)
}


/// Adding a part to the parts read keeps the text read so far as a prefix:
/// a part that is not a thought and has text appends exactly that text, any
/// other part adds nothing.
pub proof fn lemma_parts_text_appends(m: Seq<char>, i: int, k: int)
    requires
        0 <= k,
    ensures
        parts_text(m, i, k + 1).len() >= parts_text(m, i, k).len(),
        parts_text(m, i, k + 1).subrange(0, parts_text(m, i, k).len() as int) == parts_text(m, i, k),
        json_flag(m, part(i, k, "/thought"@)) != Some(true) ==> match json_text(m, part(i, k, "/text"@)) {
            Some(t) => parts_text(m, i, k + 1) == parts_text(m, i, k) + t,
            None => parts_text(m, i, k + 1) == parts_text(m, i, k),
        },
        json_flag(m, part(i, k, "/thought"@)) == Some(true) ==> parts_text(m, i, k + 1) == parts_text(m, i, k),
{
    let prev = parts_text(m, i, k);
    if json_flag(m, part(i, k, "/thought"@)) != Some(true) {
        if let Some(t) = json_text(m, part(i, k, "/text"@)) {
            assert((prev + t).subrange(0, prev.len() as int) =~= prev);
        } else {
            assert(prev.subrange(0, prev.len() as int) =~= prev);
        }
    } else {
        assert(prev.subrange(0, prev.len() as int) =~= prev);
    }
}

/// The text of a response whose first candidate has two text parts, neither
/// a thought, is the first text followed by the second.
pub proof fn lemma_two_text_parts_concatenate(m: Seq<char>, i: int, a: Seq<char>, b: Seq<char>)
    requires
        first_candidate(m) == Some(i),
        json_array_len(m, candidate(i, "/content/parts"@)) == Some(2nat),
        json_text(m, part(i, 0, "/text"@)) == Some(a),
        json_text(m, part(i, 1, "/text"@)) == Some(b),
        json_flag(m, part(i, 0, "/thought"@)) != Some(true),
        json_flag(m, part(i, 1, "/thought"@)) != Some(true),
        a.len() + b.len() > 0,
    ensures
        raw_text(m) == Some(a + b),
{
    lemma_parts_text_appends(m, i, 0);
    lemma_parts_text_appends(m, i, 1);
    assert(parts_text(m, i, 0) =~= Seq::<char>::empty());
    assert(Seq::<char>::empty() + a =~= a);
}

} // verus!
