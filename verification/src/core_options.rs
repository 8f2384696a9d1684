//! How the core is started: its options, as the environment gives them.
use vstd::prelude::*;

use crate::text::chars_of;

verus! {

/// Where the core reads its configuration and how it listens.
#[derive(Clone, Debug)]
pub struct CoreOptions {
    pub config_path: String,
    pub host: Option<String>,
    pub port: Option<u16>,
    pub session_token: Option<String>,
    pub vad_model_path: Option<String>,
    pub asr_model_dir: Option<String>,
}

pub open spec fn is_digit(c: char) -> bool {
    '0' <= c && c <= '9'
}

/// The number that a run of decimal digits writes.
pub open spec fn digits_value(s: Seq<char>) -> int
    decreases s.len(),
{
    if s.len() == 0 {
        0
    } else {
        digits_value(s.drop_last()) * 10 + (s.last() as int - '0' as int)
    }
}

/// The digits of a port number: without one leading `+`.
pub open spec fn port_body(s: Seq<char>) -> Seq<char> {
    if s.len() > 0 && s[0] == '+' {
        s.skip(1)
    } else {
        s
    }
}

/// Every character is a decimal digit.
pub open spec fn all_digits(s: Seq<char>) -> bool {
    forall|i: int| 0 <= i < s.len() ==> is_digit(#[trigger] s[i])
}

/// A port number as `u16::from_str` reads it: decimal digits, optionally
/// after one `+`, at least one digit, at most 65535.
pub open spec fn port_spec(s: Seq<char>) -> Option<u16> {
    if port_body(s).len() > 0 && all_digits(port_body(s)) && digits_value(port_body(s)) <= 65535 {
        Some(digits_value(port_body(s)) as u16)
    } else {
        None
    }
}

proof fn lemma_digits_grow(s: Seq<char>, k: int)
    requires
        0 <= k <= s.len(),
        forall|i: int| 0 <= i < s.len() ==> is_digit(#[trigger] s[i]),
    ensures
        digits_value(s.take(k)) <= digits_value(s),
        0 <= digits_value(s.take(k)),
    decreases s.len(),
{
    if k == s.len() {
        assert(s.take(k) =~= s);
        if s.len() > 0 {
            lemma_digits_grow(s.drop_last(), s.len() - 1);
            assert(s.drop_last().take(s.len() - 1) =~= s.drop_last());
        }
    } else {
        let d = s.drop_last();
        assert forall|i: int| 0 <= i < d.len() implies is_digit(#[trigger] d[i]) by {
            assert(d[i] == s[i]);
        }
        lemma_digits_grow(d, k);
        assert(d.take(k) =~= s.take(k));
        lemma_digits_grow(d, d.len() as int);
        assert(d.take(d.len() as int) =~= d);
    }
}

/// Reads a port number, as `port_spec` says.
pub fn parse_port(value: &str) -> (r: Option<u16>)
    ensures
        r == port_spec(value@),
{
    let cs = chars_of(value);
    let start: usize = if cs.len() > 0 && cs[0] == '+' {
        1
    } else {
        0
    };
    let ghost body = port_body(value@);
    if start >= cs.len() {
        proof {
            assert(body.len() == 0);
        }
        return None;
    }
    let mut acc: u32 = 0;
    let mut i: usize = start;
    while i < cs.len()
        invariant
            start <= i <= cs@.len(),
            cs@ == value@,
            body == cs@.skip(start as int),
            body == port_body(value@),
            forall|j: int| 0 <= j < i - start ==> is_digit(#[trigger] body[j]),
            acc as int == digits_value(body.take(i - start)),
            acc <= 65535,
        decreases cs@.len() - i,
    {
        let c = cs[i];
        proof {
            assert(body[i - start] == c);
        }
        if !('0' <= c && c <= '9') {
            proof {
                assert(!is_digit(body[i - start]));
            }
            return None;
        }
        let d: u32 = (c as u32) - ('0' as u32);
        proof {
            assert(body.take(i - start + 1).drop_last() =~= body.take(i - start));
            assert(body.take(i - start + 1).last() == c);
            assert(digits_value(body.take(i - start + 1)) == acc * 10 + d);
        }
        if acc * 10 + d > 65535 {
            proof {
                if all_digits(body) {
                    lemma_digits_grow(body, i - start + 1);
                }
            }
            return None;
        }
        acc = acc * 10 + d;
        i = i + 1;
    }
    proof {
        assert(body.take(body.len() as int) =~= body);
    }
    Some(acc as u16)
}

impl CoreOptions {
    /// The options from the values of `VRCS_CONFIG`, `VRCS_HOST`,
    /// `VRCS_PORT`, `VRCS_SESSION_TOKEN`, `VRCS_SILERO_MODEL` and
    /// `VRCS_ASR_MODEL_DIR` (`None` where unset): the configuration defaults
    /// to `config.json`, and a port that does not read as a number is unset.
    pub fn from_values(
        config: Option<String>,
        host: Option<String>,
        port: Option<String>,
        session_token: Option<String>,
        vad_model_path: Option<String>,
        asr_model_dir: Option<String>,
    ) -> (r: CoreOptions)
        ensures
            r.config_path@ == (match config {
                Some(c) => c@,
                None => "config.json"@,
            }),
            r.host == host,
            r.port == (match port {
                Some(p) => port_spec(p@),
                None => None,
            }),
            r.session_token == session_token,
            r.vad_model_path == vad_model_path,
            r.asr_model_dir == asr_model_dir,
    {
        let config_path = match config {
            Some(c) => c,
            None => crate::text::owned("config.json"),
        };
        let port = match port {
            Some(p) => parse_port(p.as_str()),
            None => None,
        };
        CoreOptions { config_path, host, port, session_token, vad_model_path, asr_model_dir }
    }
}

} // verus!
