//! The audio graph as the device listing sees it: nodes, default devices and
//! the graph rate, and the rules that turn them into devices and capture
//! targets. Stable device ids are FNV-1a hashes of node names.
use vstd::prelude::*;

use crate::models::AudioDevice;
use crate::service_settings::{seq_lt, str_lt};
use crate::text::{
    ascii_lower, ascii_lowercase, chars_of, concat3, str_eq, to_lowercase, trim, trim_str, unicode_lower,
};

verus! {

/// Graph rate reported when the graph does not say (the audio server's default clock).
pub const FALLBACK_SAMPLE_RATE: u32 = 48_000;
/// Channel count reported when a node does not say.
pub const FALLBACK_CHANNELS: u32 = 2;
/// Id of the synthetic device that follows the system default.
pub const DEFAULT_DEVICE_ID: i64 = 0;

/// An audio node of the graph.
#[derive(Clone, Debug)]
pub struct NodeEntry {
    pub node_name: String,
    pub label: String,
    pub is_sink: bool,
    pub channels: u32,
}

/// One reading of the audio graph.
#[derive(Clone, Debug)]
pub struct Snapshot {
    pub nodes: Vec<NodeEntry>,
    pub default_sink: Option<String>,
    pub default_source: Option<String>,
    pub graph_rate: Option<u32>,
}

/// An audio failure: a stable code, a message, and whether trying again may help.
#[derive(Clone, Debug)]
pub struct AudioError {
    pub code: String,
    pub message: String,
    pub retryable: bool,
}

/// The capture target chosen for a device selection.
#[derive(Clone, Debug)]
pub struct ResolvedDevice {
    /// `None` leaves the choice of the default device to the audio server.
    pub node_name: Option<String>,
    pub device: AudioDevice,
}

/// The text an optional string holds.
pub open spec fn opt_text(o: Option<String>) -> Option<Seq<char>> {
    match o {
        Some(s) => Some(s@),
        None => None,
    }
}

/// The value of a decimal digit.
pub open spec fn digit_value(c: char) -> int {
    (c as int) - ('0' as int)
}

/// The number a string of decimal digits denotes.
pub open spec fn digits_value(d: Seq<char>) -> int
    decreases d.len(),
{
    if d.len() == 0 {
        0
    } else {
        digits_value(d.drop_last()) * 10 + digit_value(d.last())
    }
}

/// The text after an optional leading `+`.
pub open spec fn unsigned_digits(s: Seq<char>) -> Seq<char> {
    if s.len() > 0 && s[0] == '+' {
        s.drop_first()
    } else {
        s
    }
}

/// Every character is a decimal digit.
pub open spec fn all_digits(d: Seq<char>) -> bool {
    forall|i: int| 0 <= i < d.len() ==> crate::text::is_ascii_digit(#[trigger] d[i])
}

/// What `u32::from_str` makes of a text: an optional `+` and at least one
/// decimal digit, with a value that fits in 32 bits.
pub open spec fn parse_u32_spec(s: Seq<char>) -> Option<u32> {
    let d = unsigned_digits(s);
    if d.len() == 0 || !all_digits(d) {
        None
    } else if digits_value(d) > u32::MAX {
        None
    } else {
        Some(digits_value(d) as u32)
    }
}

proof fn lemma_digits_nonneg(d: Seq<char>)
    requires
        forall|i: int| 0 <= i < d.len() ==> crate::text::is_ascii_digit(#[trigger] d[i]),
    ensures
        digits_value(d) >= 0,
    decreases d.len(),
{
    if d.len() > 0 {
        lemma_digits_nonneg(d.drop_last());
    }
}

proof fn lemma_digits_monotone(d: Seq<char>, k: int)
    requires
        0 <= k <= d.len(),
        forall|i: int| 0 <= i < d.len() ==> crate::text::is_ascii_digit(#[trigger] d[i]),
    ensures
        digits_value(d.subrange(0, k)) <= digits_value(d),
    decreases d.len() - k,
{
    if k < d.len() {
        lemma_digits_monotone(d, k + 1);
        let p = d.subrange(0, k + 1);
        assert(p.drop_last() =~= d.subrange(0, k));
        lemma_digits_nonneg(d.subrange(0, k));
    } else {
        assert(d.subrange(0, k) =~= d);
    }
}

/// `u32::from_str`.
pub fn parse_u32(s: &str) -> (r: Option<u32>)
    ensures
        r == parse_u32_spec(s@),
{
    let cs = chars_of(s);
    let start: usize = if cs.len() > 0 && cs[0] == '+' { 1 } else { 0 };
    let ghost d = unsigned_digits(s@);
    assert(d =~= cs@.subrange(start as int, cs@.len() as int));
    if start == cs.len() {
        assert(d.len() == 0);
        return None;
    }
    let mut i = start;
    while i < cs.len()
        invariant
            start <= i <= cs@.len(),
            cs@ == s@,
            d == unsigned_digits(s@),
            d == cs@.subrange(start as int, cs@.len() as int),
            d.len() > 0,
            forall|j: int| start <= j < i ==> crate::text::is_ascii_digit(#[trigger] cs@[j]),
        decreases cs@.len() - i,
    {
        if !('0' <= cs[i] && cs[i] <= '9') {
            assert(!crate::text::is_ascii_digit(d[i - start]));
            assert(!all_digits(d));
            return None;
        }
        i = i + 1;
    }
    assert(forall|j: int| 0 <= j < d.len() ==> crate::text::is_ascii_digit(#[trigger] d[j])) by {
        assert forall|j: int| 0 <= j < d.len() implies crate::text::is_ascii_digit(#[trigger] d[j]) by {
            assert(d[j] == cs@[start + j]);
        }
    }
    assert(d.subrange(0, 0) =~= Seq::<char>::empty());
    let mut v: u64 = 0;
    let mut i = start;
    while i < cs.len()
        invariant
            start <= i <= cs@.len(),
            cs@ == s@,
            d == unsigned_digits(s@),
            d == cs@.subrange(start as int, cs@.len() as int),
            d.len() > 0,
            forall|j: int| 0 <= j < d.len() ==> crate::text::is_ascii_digit(#[trigger] d[j]),
            v == digits_value(d.subrange(0, i - start)),
            v <= u32::MAX,
        decreases cs@.len() - i,
    {
        assert(crate::text::is_ascii_digit(d[i - start]));
        assert(d[i - start] == cs@[i as int]);
        let next = v * 10 + ((cs[i] as u32) - ('0' as u32)) as u64;
        proof {
            let p = d.subrange(0, i - start + 1);
            assert(p.drop_last() =~= d.subrange(0, i - start));
            assert(p.last() == cs@[i as int]);
        }
        if next > 0xffff_ffff {
            proof {
                lemma_digits_monotone(d, i - start + 1);
            }
            return None;
        }
        v = next;
        i = i + 1;
    }
    assert(d.subrange(0, d.len() as int) =~= d);
    Some(v as u32)
}

/// The first node named `name`, by position.
pub open spec fn node_named(nodes: Seq<NodeEntry>, name: Seq<char>, k: int) -> Option<int>
    decreases nodes.len() - k,
{
    if k < 0 || k >= nodes.len() {
        None
    } else if nodes[k].node_name@ == name {
        Some(k)
    } else {
        node_named(nodes, name, k + 1)
    }
}

/// The graph state after one metadata property.
pub open spec fn after_metadata(s: Snapshot, from_default: bool, key: Seq<char>, value: Seq<char>) -> (
    Option<Seq<char>>,
    Option<Seq<char>>,
    Option<u32>,
) {
    let sink = opt_text(s.default_sink);
    let source = opt_text(s.default_source);
    if from_default && key == "default.audio.sink"@ {
        (crate::json::json_text(value, "/name"@), source, s.graph_rate)
    } else if from_default && key == "default.audio.source"@ {
        (sink, crate::json::json_text(value, "/name"@), s.graph_rate)
    } else if !from_default && key == "clock.rate"@ {
        match parse_u32_spec(trim(value)) {
            Some(r) => (sink, source, Some(r)),
            None => (sink, source, s.graph_rate),
        }
    } else if !from_default && key == "default.clock.rate"@ && s.graph_rate.is_none() {
        (sink, source, parse_u32_spec(trim(value)))
    } else {
        (sink, source, s.graph_rate)
    }
}

impl Snapshot {
    /// A snapshot of an empty graph.
    pub fn new() -> (r: Self)
        ensures
            r.nodes@.len() == 0,
            r.default_sink.is_none(),
            r.default_source.is_none(),
            r.graph_rate.is_none(),
    {
        Snapshot { nodes: Vec::new(), default_sink: None, default_source: None, graph_rate: None }
    }

    /// The graph rate, or the fallback when the graph does not report one.
    pub fn sample_rate(&self) -> (r: u32)
        ensures
            r == match self.graph_rate {
                Some(x) => x,
                None => FALLBACK_SAMPLE_RATE,
            },
    {
        match self.graph_rate {
            Some(x) => x,
            None => FALLBACK_SAMPLE_RATE,
        }
    }

    /// The name of the default sink or source.
    pub fn default_name(&self, is_sink: bool) -> (r: Option<String>)
        ensures
            opt_text(r) == (if is_sink {
                opt_text(self.default_sink)
            } else {
                opt_text(self.default_source)
            }),
    {
        if is_sink {
            match &self.default_sink {
                Some(s) => Some(s.clone()),
                None => None,
            }
        } else {
            match &self.default_source {
                Some(s) => Some(s.clone()),
                None => None,
            }
        }
    }

    /// The position of the first node named `name`.
    pub fn find_node(&self, name: &str) -> (r: Option<usize>)
        ensures
            match r {
                Some(k) => node_named(self.nodes@, name@, 0) == Some(k as int) && k < self.nodes@.len(),
                None => node_named(self.nodes@, name@, 0).is_none(),
            },
    {
        let mut i: usize = 0;
        while i < self.nodes.len()
            invariant
                i <= self.nodes@.len(),
                node_named(self.nodes@, name@, 0) == node_named(self.nodes@, name@, i as int),
            decreases self.nodes@.len() - i,
        {
            if str_eq(self.nodes[i].node_name.as_str(), name) {
                return Some(i);
            }
            i = i + 1;
        }
        None
    }

    /// The channel count of the default sink or source node, at least one;
    /// the fallback when the default is unknown or not in the graph.
    pub fn default_channels(&self, is_sink: bool) -> (r: u32)
        ensures
            r == ({
                let name = if is_sink {
                    opt_text(self.default_sink)
                } else {
                    opt_text(self.default_source)
                };
                match name {
                    Some(n) => match node_named(self.nodes@, n, 0) {
                        Some(k) => if self.nodes@[k].channels == 0 {
                            1
                        } else {
                            self.nodes@[k].channels
                        },
                        None => FALLBACK_CHANNELS,
                    },
                    None => FALLBACK_CHANNELS,
                }
            }),
    {
        match self.default_name(is_sink) {
            Some(n) => match self.find_node(n.as_str()) {
                Some(k) => {
                    let c = self.nodes[k].channels;
                    if c == 0 {
                        1
                    } else {
                        c
                    }
                },
                None => FALLBACK_CHANNELS,
            },
            None => FALLBACK_CHANNELS,
        }
    }

    /// Records the default sink or source named by the metadata.
    pub fn set_default_node(&mut self, is_sink: bool, name: Option<String>)
        ensures
            final(self).nodes == old(self).nodes,
            final(self).graph_rate == old(self).graph_rate,
            is_sink ==> final(self).default_sink == name && final(self).default_source == old(
                self,
            ).default_source,
            !is_sink ==> final(self).default_source == name && final(self).default_sink == old(
                self,
            ).default_sink,
    {
        if is_sink {
            self.default_sink = name;
        } else {
            self.default_source = name;
        }
    }

    /// Applies one metadata property; `from_default` tells whether it comes
    /// from the `default` metadata or from `settings`. `clock.rate` is the
    /// graph rate; `default.clock.rate` is read only while no rate is known.
    pub fn apply_metadata(&mut self, from_default: bool, key: &str, value: &str)
        ensures
            final(self).nodes == old(self).nodes,
            (opt_text(final(self).default_sink), opt_text(final(self).default_source), final(self).graph_rate)
                == after_metadata(*old(self), from_default, key@, value@),
    {
        if from_default && str_eq(key, "default.audio.sink") {
            self.set_default_node(true, crate::json::json_str_at(value, "/name"));
        } else if from_default && str_eq(key, "default.audio.source") {
            self.set_default_node(false, crate::json::json_str_at(value, "/name"));
        } else if !from_default && str_eq(key, "clock.rate") {
            if let Some(rate) = parse_u32(trim_str(value).as_str()) {
                self.graph_rate = Some(rate);
            }
        } else if !from_default && str_eq(key, "default.clock.rate") && self.graph_rate.is_none() {
            self.graph_rate = parse_u32(trim_str(value).as_str());
        }
    }
}

/// FNV-1a 64-bit hash of a byte sequence, from `h`.
pub open spec fn fnv1a_from(h: u64, bytes: Seq<u8>) -> u64
    decreases bytes.len(),
{
    if bytes.len() == 0 {
        h
    } else {
        fnv1a_from((((h ^ (bytes[0] as u64)) as nat * 0x100_0000_01b3nat) % 0x1_0000_0000_0000_0000nat) as u64, bytes.drop_first())
    }
}

/// The stable id of the device backed by the node `node_name`: its FNV-1a
/// hash with the sign bit cleared, moved off the default device's id.
pub open spec fn device_id_spec(node_name: Seq<char>) -> i64 {
    let h = fnv1a_from(0xcbf2_9ce4_8422_2325, vstd::utf8::encode_utf8(node_name));
    let id = (h & 0x7fff_ffff_ffff_ffff) as i64;
    if id == DEFAULT_DEVICE_ID {
        1
    } else {
        id
    }
}

/// The stable id of the device backed by the node `node_name`.
pub fn device_id(node_name: &str) -> (r: i64)
    ensures
        r == device_id_spec(node_name@),
        r != DEFAULT_DEVICE_ID,
        r > 0,
{
    let bytes = node_name.as_bytes();
    let ghost all = bytes@;
    let mut hash: u64 = 0xcbf2_9ce4_8422_2325;
    let mut i: usize = 0;
    assert(all.subrange(0, all.len() as int) =~= all);
    while i < bytes.len()
        invariant
            i <= all.len(),
            all == bytes@,
            all == vstd::utf8::encode_utf8(node_name@),
            fnv1a_from(hash, all.subrange(i as int, all.len() as int)) == fnv1a_from(
                0xcbf2_9ce4_8422_2325,
                all,
            ),
        decreases all.len() - i,
    {
        let x = hash ^ (bytes[i] as u64);
        proof {
            assert(all.subrange(i as int, all.len() as int).drop_first() =~= all.subrange(i + 1, all.len() as int));
        }
        hash = x.wrapping_mul(0x0000_0100_0000_01b3);
        i = i + 1;
    }
    let masked = hash & 0x7fff_ffff_ffff_ffff;
    assert(masked <= 0x7fff_ffff_ffff_ffff) by (bit_vector)
        requires masked == hash & 0x7fff_ffff_ffff_ffff;
    let id = masked as i64;
    if id == DEFAULT_DEVICE_ID {
        1
    } else {
        id
    }
}

/// The error for a selected device that has disappeared.
pub open spec fn unavailable_spec(want_sink: bool) -> Seq<char> {
    "The selected "@ + (if want_sink {
        "system output"@
    } else {
        "microphone"@
    }) + " device is no longer available"@
}

/// The error for a selected device that has disappeared.
pub fn device_unavailable(want_sink: bool, retryable: bool) -> (r: AudioError)
    ensures
        r.code@ == "audio.device_unavailable"@,
        r.message@ == unavailable_spec(want_sink),
        r.retryable == retryable,
{
    let label = if want_sink {
        "system output"
    } else {
        "microphone"
    };
    AudioError {
        code: "audio.device_unavailable".to_owned(),
        message: concat3("The selected ", label, " device is no longer available"),
        retryable,
    }
}

/// The first node of the wanted kind named `name`, by position.
pub open spec fn node_of_kind(nodes: Seq<NodeEntry>, want_sink: bool, name: Seq<char>, k: int) -> Option<int>
    decreases nodes.len() - k,
{
    if k < 0 || k >= nodes.len() {
        None
    } else if nodes[k].is_sink == want_sink && nodes[k].node_name@ == name {
        Some(k)
    } else {
        node_of_kind(nodes, want_sink, name, k + 1)
    }
}

fn find_node_of_kind(nodes: &Vec<NodeEntry>, want_sink: bool, name: &str) -> (r: Option<usize>)
    ensures
        match r {
            Some(k) => node_of_kind(nodes@, want_sink, name@, 0) == Some(k as int) && k < nodes@.len(),
            None => node_of_kind(nodes@, want_sink, name@, 0).is_none(),
        },
{
    let mut i: usize = 0;
    while i < nodes.len()
        invariant
            i <= nodes@.len(),
            node_of_kind(nodes@, want_sink, name@, 0) == node_of_kind(nodes@, want_sink, name@, i as int),
        decreases nodes@.len() - i,
    {
        if nodes[i].is_sink == want_sink && str_eq(nodes[i].node_name.as_str(), name) {
            return Some(i);
        }
        i = i + 1;
    }
    None
}

/// The device a node stands for in a snapshot.
pub open spec fn node_device(s: Snapshot, n: NodeEntry) -> (i64, Seq<char>, bool, bool, u32, u32) {
    let default = if n.is_sink {
        opt_text(s.default_sink)
    } else {
        opt_text(s.default_source)
    };
    (
        device_id_spec(n.node_name@),
        n.label@,
        default == Some(n.node_name@),
        n.is_sink,
        match s.graph_rate {
            Some(x) => x,
            None => FALLBACK_SAMPLE_RATE,
        },
        if n.channels == 0 {
            1
        } else {
            n.channels
        },
    )
}

/// The fields of a device.
pub open spec fn device_view(d: AudioDevice) -> (i64, Seq<char>, bool, bool, u32, u32) {
    (d.id, d.name@, d.is_default, d.is_loopback, d.sample_rate, d.channels)
}

impl Snapshot {
    /// The device a node stands for.
    pub fn device_of(&self, k: usize) -> (r: AudioDevice)
        requires
            k < self.nodes@.len(),
        ensures
            device_view(r) == node_device(*self, self.nodes@[k as int]),
    {
        let n = &self.nodes[k];
        let is_default = match self.default_name(n.is_sink) {
            Some(d) => str_eq(d.as_str(), n.node_name.as_str()),
            None => false,
        };
        AudioDevice {
            id: device_id(n.node_name.as_str()),
            name: n.label.clone(),
            is_default,
            is_loopback: n.is_sink,
            sample_rate: self.sample_rate(),
            channels: if n.channels == 0 {
                1
            } else {
                n.channels
            },
        }
    }

    /// The capture target for a device selection: the named node of the wanted
    /// kind; with no selection, the default node, or the audio server's choice
    /// when the default is unknown. A named node that is missing is an error
    /// worth retrying.
    pub fn resolve_target(&self, endpoint: Option<&str>, want_sink: bool) -> (r: Result<ResolvedDevice, AudioError>)
        ensures
            ({
                let name = match endpoint {
                    Some(e) => Some(e@),
                    None => if want_sink {
                        opt_text(self.default_sink)
                    } else {
                        opt_text(self.default_source)
                    },
                };
                let node = match name {
                    Some(n) => node_of_kind(self.nodes@, want_sink, n, 0),
                    None => None,
                };
                match r {
                    Ok(t) => match node {
                        Some(k) => opt_text(t.node_name) == Some(self.nodes@[k].node_name@)
                            && device_view(t.device) == node_device(*self, self.nodes@[k]),
                        None => endpoint.is_none() && t.node_name.is_none()
                            && t.device.id == DEFAULT_DEVICE_ID
                            && t.device.name@ == "System default"@ && t.device.is_default
                            && t.device.is_loopback == want_sink && t.device.sample_rate == (match self.graph_rate {
                                Some(x) => x,
                                None => FALLBACK_SAMPLE_RATE,
                            }) && t.device.channels == ({
                                match name {
                                    Some(n) => match node_named(self.nodes@, n, 0) {
                                        Some(k) => if self.nodes@[k].channels == 0 {
                                            1
                                        } else {
                                            self.nodes@[k].channels
                                        },
                                        None => FALLBACK_CHANNELS,
                                    },
                                    None => FALLBACK_CHANNELS,
                                }
                            }),
                    },
                    Err(e) => node.is_none() && endpoint.is_some() && e.code@ == "audio.device_unavailable"@
                        && e.message@ == unavailable_spec(want_sink) && e.retryable,
                }
            }),
    {
        let name = match endpoint {
            Some(e) => Some(e.to_owned()),
            None => self.default_name(want_sink),
        };
        let node = match &name {
            Some(n) => find_node_of_kind(&self.nodes, want_sink, n.as_str()),
            None => None,
        };
        if let Some(k) = node {
            return Ok(ResolvedDevice {
                node_name: Some(self.nodes[k].node_name.clone()),
                device: self.device_of(k),
            });
        }
        if endpoint.is_some() {
            return Err(device_unavailable(want_sink, true));
        }
        Ok(ResolvedDevice {
            node_name: None,
            device: AudioDevice {
                id: DEFAULT_DEVICE_ID,
                name: "System default".to_owned(),
                is_default: true,
                is_loopback: want_sink,
                sample_rate: self.sample_rate(),
                channels: self.default_channels(want_sink),
            },
        })
    }

    /// The node name of the device with id `id` among nodes of the wanted kind.
    pub fn resolve_node_name(&self, id: i64, want_sink: bool) -> (r: Result<String, AudioError>)
        ensures
            match r {
                Ok(n) => exists|k: int|
                    0 <= k < self.nodes@.len() && self.nodes@[k].is_sink == want_sink && device_id_spec(
                        #[trigger] self.nodes@[k].node_name@,
                    ) == id && n@ == self.nodes@[k].node_name@ && forall|j: int|
                        0 <= j < k ==> !(self.nodes@[j].is_sink == want_sink && device_id_spec(
                            #[trigger] self.nodes@[j].node_name@,
                        ) == id),
                Err(e) => (forall|k: int|
                    0 <= k < self.nodes@.len() ==> !(self.nodes@[k].is_sink == want_sink && device_id_spec(
                        #[trigger] self.nodes@[k].node_name@,
                    ) == id)) && e.code@ == "audio.device_unavailable"@ && e.message@ == unavailable_spec(
                    want_sink,
                ) && !e.retryable,
            },
    {
        let mut i: usize = 0;
        while i < self.nodes.len()
            invariant
                i <= self.nodes@.len(),
                forall|j: int|
                    0 <= j < i ==> !(self.nodes@[j].is_sink == want_sink && device_id_spec(
                        #[trigger] self.nodes@[j].node_name@,
                    ) == id),
            decreases self.nodes@.len() - i,
        {
            let n = &self.nodes[i];
            if n.is_sink == want_sink && device_id(n.node_name.as_str()) == id {
                return Ok(n.node_name.clone());
            }
            i = i + 1;
        }
        Err(device_unavailable(want_sink, false))
    }
}

/// Whether `value` names the process `needle` (lower case, without `.exe`),
/// with or without the `.exe` suffix.
pub open spec fn same_process_name(value: Seq<char>, needle: Seq<char>) -> bool {
    value == needle || value == needle + ".exe"@
}

/// Whether `value` names the process `needle`.
pub fn is_same_process_name(value: &str, needle: &str) -> (r: bool)
    ensures
        r == same_process_name(value@, needle@),
{
    str_eq(value, needle) || str_eq(value, crate::text::concat(needle, ".exe").as_str())
}

/// Whether `needle` occurs in `hay`.
pub open spec fn contains_seq(hay: Seq<char>, needle: Seq<char>) -> bool {
    exists|i: int| 0 <= i <= hay.len() - needle.len() && #[trigger] hay.subrange(i, i + needle.len()) == needle
}

fn contains_text(hay: &Vec<char>, needle: &Vec<char>) -> (r: bool)
    ensures
        r == contains_seq(hay@, needle@),
{
    if needle.len() > hay.len() {
        return false;
    }
    let mut i: usize = 0;
    while i <= hay.len() - needle.len()
        invariant
            needle@.len() <= hay@.len(),
            i <= hay@.len() - needle@.len() + 1,
            forall|k: int| 0 <= k < i ==> #[trigger] hay@.subrange(k, k + needle@.len()) != needle@,
        decreases hay@.len() - needle@.len() + 1 - i,
    {
        let mut j: usize = 0;
        let mut same = true;
        while j < needle.len() && same
            invariant
                j <= needle@.len(),
                i + needle@.len() <= hay.len(),
                same <==> forall|t: int| 0 <= t < j ==> hay@[i + t] == needle@[t],
            decreases needle@.len() - j,
        {
            if hay[i + j] != needle[j] {
                same = false;
            }
            j = j + 1;
        }
        if same {
            assert(hay@.subrange(i as int, i + needle@.len()) =~= needle@);
            return true;
        }
        assert(hay@.subrange(i as int, i + needle@.len()) != needle@) by {
            let t = choose|t: int| 0 <= t < j && hay@[i + t] != needle@[t];
            assert(hay@.subrange(i as int, i + needle@.len())[t] != needle@[t]);
        }
        i = i + 1;
    }
    false
}

/// The executable name of a command line's first word: the part after its last `/`.
pub open spec fn base_name(p: Seq<char>) -> Seq<char> {
    p.subrange(after_last_slash(p, p.len() as int), p.len() as int)
}

/// Position just after the last `/` before `i`, or 0.
pub open spec fn after_last_slash(p: Seq<char>, i: int) -> int
    decreases i,
{
    if i <= 0 || i > p.len() {
        0
    } else if p[i - 1] == '/' {
        i
    } else {
        after_last_slash(p, i - 1)
    }
}

/// How well a process matches the wanted name `needle`, 1 best to 4 worst:
/// its name is the wanted name, its executable is, its name contains it, its
/// executable contains it.
pub open spec fn process_rank_spec(comm: Seq<char>, executable: Seq<char>, needle: Seq<char>) -> Option<u8> {
    let c = ascii_lower(trim(comm));
    let e = ascii_lower(base_name(executable));
    if same_process_name(c, needle) {
        Some(1)
    } else if same_process_name(e, needle) {
        Some(2)
    } else if contains_seq(c, needle) {
        Some(3)
    } else if contains_seq(e, needle) {
        Some(4)
    } else {
        None
    }
}

/// How well a process matches the wanted name.
pub fn process_rank(comm: &str, executable: &str, needle: &str) -> (r: Option<u8>)
    ensures
        r == process_rank_spec(comm@, executable@, needle@),
{
    let c = ascii_lowercase(trim_str(comm).as_str());
    let ecs = chars_of(executable);
    let mut start = ecs.len();
    while start > 0 && ecs[start - 1] != '/'
        invariant
            start <= ecs@.len(),
            ecs@ == executable@,
            after_last_slash(ecs@, ecs@.len() as int) == after_last_slash(ecs@, start as int),
        decreases start,
    {
        start = start - 1;
    }
    let base = crate::text::string_of_range(&ecs, start, ecs.len());
    let e = ascii_lowercase(base.as_str());
    if is_same_process_name(c.as_str(), needle) {
        return Some(1);
    }
    if is_same_process_name(e.as_str(), needle) {
        return Some(2);
    }
    let nv = chars_of(needle);
    if contains_text(&chars_of(c.as_str()), &nv) {
        return Some(3);
    }
    if contains_text(&chars_of(e.as_str()), &nv) {
        return Some(4);
    }
    None
}

/// The best candidate so far after seeing process `pid` with match `rank`:
/// a strictly better rank replaces it, a tie keeps the one seen first.
pub fn better_candidate(best: Option<(u8, u32)>, rank: u8, pid: u32) -> (r: Option<(u8, u32)>)
    ensures
        r == (match best {
            Some((b, p)) => if rank < b {
                Some((rank, pid))
            } else {
                Some((b, p))
            },
            None => Some((rank, pid)),
        }),
{
    match best {
        Some((b, p)) => if rank < b {
            Some((rank, pid))
        } else {
            Some((b, p))
        },
        None => Some((rank, pid)),
    }
}

/// `s` without every trailing `.exe`, as `str::trim_end_matches(".exe")`.
pub open spec fn strip_exe(s: Seq<char>) -> Seq<char>
    decreases s.len(),
{
    if s.len() >= 4 && s.subrange(s.len() - 4, s.len() as int) == ".exe"@ {
        strip_exe(s.subrange(0, s.len() - 4))
    } else {
        s
    }
}

/// The name a process is looked up by: trimmed, without `.exe`, lower case.
pub open spec fn needle_spec(name: Seq<char>) -> Seq<char> {
    ascii_lower(strip_exe(trim(name)))
}

/// The first field of a NUL-separated command line: the program as started.
pub open spec fn argv0(cmdline: Seq<char>) -> Seq<char>
    decreases cmdline.len(),
{
    if cmdline.len() == 0 {
        cmdline
    } else if exists|i: int| 0 <= i < cmdline.len() && cmdline[i] == '\0' {
        let i = choose|i: int| 0 <= i < cmdline.len() && cmdline[i] == '\0' && forall|j: int| 0 <= j < i ==> cmdline[j] != '\0';
        cmdline.subrange(0, i)
    } else {
        cmdline
    }
}

/// The best match among the processes `(directory name, comm, cmdline)` seen
/// so far: only directories named by a process id count, a strictly better
/// rank replaces the best, and a tie keeps the process seen first.
pub open spec fn best_process(procs: Seq<(Seq<char>, Seq<char>, Seq<char>)>, needle: Seq<char>) -> Option<(u8, u32)>
    decreases procs.len(),
{
    if procs.len() == 0 {
        None
    } else {
        let best = best_process(procs.drop_last(), needle);
        let (name, comm, cmdline) = procs.last();
        match parse_u32_spec(name) {
            None => best,
            Some(pid) => match process_rank_spec(comm, argv0(cmdline), needle) {
                None => best,
                Some(rank) => match best {
                    Some((b, p)) => if rank < b {
                        Some((rank, pid))
                    } else {
                        Some((b, p))
                    },
                    None => Some((rank, pid)),
                },
            },
        }
    }
}

fn strip_exe_exec(cs: &Vec<char>) -> (r: usize)
    ensures
        r <= cs@.len(),
        cs@.subrange(0, r as int) == strip_exe(cs@),
{
    let mut n = cs.len();
    assert(cs@.subrange(0, n as int) =~= cs@);
    while n >= 4 && cs[n - 4] == '.' && cs[n - 3] == 'e' && cs[n - 2] == 'x' && cs[n - 1] == 'e'
        invariant
            n <= cs@.len(),
            strip_exe(cs@.subrange(0, n as int)) == strip_exe(cs@),
        decreases n,
    {
        proof {
            reveal_strlit(".exe");
            let t = cs@.subrange(0, n as int);
            assert(t.subrange(t.len() - 4, t.len() as int) =~= ".exe"@);
            assert(t.subrange(0, t.len() - 4) =~= cs@.subrange(0, n - 4));
        }
        n = n - 4;
    }
    proof {
        reveal_strlit(".exe");
        let t = cs@.subrange(0, n as int);
        if t.len() >= 4 && t.subrange(t.len() - 4, t.len() as int) == ".exe"@ {
            assert(t[t.len() - 4] == t.subrange(t.len() - 4, t.len() as int)[0]);
            assert(t[t.len() - 3] == t.subrange(t.len() - 4, t.len() as int)[1]);
            assert(t[t.len() - 2] == t.subrange(t.len() - 4, t.len() as int)[2]);
            assert(t[t.len() - 1] == t.subrange(t.len() - 4, t.len() as int)[3]);
        }
    }
    n
}

/// The name a process is looked up by, as `needle_spec` says; `None` when it
/// is empty.
pub fn process_needle(name: &str) -> (r: Option<String>)
    ensures
        match r {
            Some(n) => n@ == needle_spec(name@) && n@.len() > 0,
            None => needle_spec(name@).len() == 0,
        },
{
    let t = trim_str(name);
    let cs = chars_of(t.as_str());
    let n = strip_exe_exec(&cs);
    let stripped = crate::text::string_of_range(&cs, 0, n);
    let lower = ascii_lowercase(stripped.as_str());
    if chars_of(lower.as_str()).len() == 0 {
        None
    } else {
        Some(lower)
    }
}

fn argv0_exec(cmdline: &str) -> (r: String)
    ensures
        r@ == argv0(cmdline@),
{
    let cs = chars_of(cmdline);
    let mut i: usize = 0;
    while i < cs.len() && cs[i] != '\0'
        invariant
            i <= cs@.len(),
            cs@ == cmdline@,
            forall|j: int| 0 <= j < i ==> cs@[j] != '\0',
        decreases cs@.len() - i,
    {
        i = i + 1;
    }
    proof {
        if i < cs@.len() {
            let k = choose|k: int| 0 <= k < cs@.len() && cs@[k] == '\0' && forall|j: int| 0 <= j < k ==> cs@[j] != '\0';
            if k < i {
                assert(cs@[k] != '\0');
            }
            if i < k {
                assert(cs@[i as int] != '\0');
            }
        } else {
            assert(cs@.subrange(0, i as int) =~= cs@);
        }
    }
    crate::text::string_of_range(&cs, 0, i)
}

/// The process named `name` among the processes `(directory name, comm,
/// cmdline)` of the process table: the best match by `process_rank`, the
/// first seen among equals; `None` for a blank name or no match.
pub fn find_process_among(name: &str, procs: &Vec<(String, String, String)>) -> (r: Option<u32>)
    ensures
        r == (if needle_spec(name@).len() == 0 {
            None
        } else {
            match best_process(
                procs@.map_values(|p: (String, String, String)| (p.0@, p.1@, p.2@)),
                needle_spec(name@),
            ) {
                Some((_, pid)) => Some(pid),
                None => None,
            }
        }),
{
    let needle = match process_needle(name) {
        Some(n) => n,
        None => return None,
    };
    let ghost all = procs@.map_values(|p: (String, String, String)| (p.0@, p.1@, p.2@));
    let mut best: Option<(u8, u32)> = None;
    let mut i: usize = 0;
    while i < procs.len()
        invariant
            i <= procs@.len(),
            all == procs@.map_values(|p: (String, String, String)| (p.0@, p.1@, p.2@)),
            needle@ == needle_spec(name@),
            best == best_process(all.take(i as int), needle@),
        decreases procs@.len() - i,
    {
        proof {
            assert(all.take(i + 1).drop_last() =~= all.take(i as int));
        }
        let (dir, comm, cmdline) = (&procs[i].0, &procs[i].1, &procs[i].2);
        match parse_u32(dir.as_str()) {
            None => {},
            Some(pid) => {
                let exe = argv0_exec(cmdline.as_str());
                match process_rank(comm.as_str(), exe.as_str(), needle.as_str()) {
                    None => {},
                    Some(rank) => {
                        best = better_candidate(best, rank, pid);
                    },
                }
            },
        }
        i = i + 1;
    }
    proof {
        assert(all.take(procs@.len() as int) =~= all);
    }
    match best {
        Some((_, pid)) => Some(pid),
        None => None,
    }
}

/// Whether device `a` is listed before device `b`: system audio (the
/// monitors of outputs) before microphones, then the default device first,
/// then by name, compared in lower case.
pub open spec fn listed_before(a: (i64, Seq<char>, bool, bool, u32, u32), b: (i64, Seq<char>, bool, bool, u32, u32)) -> bool {
    if a.3 != b.3 {
        a.3
    } else if a.2 != b.2 {
        a.2
    } else {
        seq_lt(unicode_lower(a.1), unicode_lower(b.1))
    }
}

/// `s` with `x` placed after every device not listed after it.
pub open spec fn insert_listed(s: Seq<(i64, Seq<char>, bool, bool, u32, u32)>, x: (i64, Seq<char>, bool, bool, u32, u32)) -> Seq<
    (i64, Seq<char>, bool, bool, u32, u32),
>
    decreases s.len(),
{
    if s.len() == 0 {
        seq![x]
    } else if listed_before(x, s.last()) {
        insert_listed(s.drop_last(), x).push(s.last())
    } else {
        s.push(x)
    }
}

/// The devices in listing order; devices that tie keep their order.
pub open spec fn listing(s: Seq<(i64, Seq<char>, bool, bool, u32, u32)>) -> Seq<(i64, Seq<char>, bool, bool, u32, u32)>
    decreases s.len(),
{
    if s.len() == 0 {
        Seq::empty()
    } else {
        insert_listed(listing(s.drop_last()), s.last())
    }
}

pub open spec fn device_views(v: Seq<AudioDevice>) -> Seq<(i64, Seq<char>, bool, bool, u32, u32)> {
    v.map_values(|d: AudioDevice| device_view(d))
}

fn listed_before_exec(a: &AudioDevice, b: &AudioDevice) -> (r: bool)
    ensures
        r == listed_before(device_view(*a), device_view(*b)),
{
    if a.is_loopback != b.is_loopback {
        a.is_loopback
    } else if a.is_default != b.is_default {
        a.is_default
    } else {
        let x = to_lowercase(a.name.as_str());
        let y = to_lowercase(b.name.as_str());
        str_lt(x.as_str(), y.as_str())
    }
}

fn insert_device(v: &mut Vec<AudioDevice>, x: AudioDevice)
    ensures
        device_views(final(v)@) == insert_listed(device_views(old(v)@), device_view(x)),
{
    let ghost s = device_views(v@);
    let ghost xv = device_view(x);
    let mut p = v.len();
    assert(s.take(p as int) =~= s);
    assert(s.skip(p as int) =~= Seq::<(i64, Seq<char>, bool, bool, u32, u32)>::empty());
    while p > 0 && listed_before_exec(&x, &v[p - 1])
        invariant
            p <= v@.len(),
            s == device_views(v@),
            xv == device_view(x),
            insert_listed(s, xv) == insert_listed(s.take(p as int), xv) + s.skip(p as int),
        decreases p,
    {
        let ghost t = s.take(p as int);
        assert(t.drop_last() =~= s.take(p - 1));
        assert(t.last() == s[p - 1]);
        assert(s.skip(p - 1) =~= seq![s[p - 1]] + s.skip(p as int));
        assert(insert_listed(s.take(p - 1), xv).push(s[p - 1]) + s.skip(p as int) =~= insert_listed(
            s.take(p - 1),
            xv,
        ) + s.skip(p - 1));
        p = p - 1;
    }
    proof {
        if p == 0 {
            assert(s.take(0) =~= Seq::<(i64, Seq<char>, bool, bool, u32, u32)>::empty());
        }
    }
    v.insert(p, x);
    assert(device_views(v@) =~= s.take(p as int).push(xv) + s.skip(p as int));
}

impl Snapshot {
    /// Every capturable device of the graph, in listing order.
    pub fn list_devices(&self) -> (r: Vec<AudioDevice>)
        ensures
            device_views(r@) == listing(Seq::new(self.nodes@.len(), |k: int| node_device(*self, self.nodes@[k]))),
    {
        let ghost all = Seq::new(self.nodes@.len(), |k: int| node_device(*self, self.nodes@[k]));
        let mut out: Vec<AudioDevice> = Vec::new();
        let mut k: usize = 0;
        assert(all.take(0) =~= Seq::<(i64, Seq<char>, bool, bool, u32, u32)>::empty());
        while k < self.nodes.len()
            invariant
                k <= self.nodes@.len(),
                all == Seq::new(self.nodes@.len(), |k: int| node_device(*self, self.nodes@[k])),
                device_views(out@) == listing(all.take(k as int)),
            decreases self.nodes@.len() - k,
        {
            let d = self.device_of(k);
            proof {
                assert(all.take(k + 1).drop_last() =~= all.take(k as int));
                assert(all.take(k + 1).last() == device_view(d));
            }
            insert_device(&mut out, d);
            k = k + 1;
        }
        assert(all.take(k as int) =~= all);
        out
    }
}

pub open spec fn listed_in_order(l: Seq<(i64, Seq<char>, bool, bool, u32, u32)>) -> bool {
    forall|i: int, j: int| 0 <= i < j < l.len() ==> !#[trigger] listed_before(l[j], l[i])
}

proof fn lemma_listed_asymmetric(a: (i64, Seq<char>, bool, bool, u32, u32), b: (i64, Seq<char>, bool, bool, u32, u32))
    requires
        listed_before(a, b),
    ensures
        !listed_before(b, a),
{
    if a.3 == b.3 && a.2 == b.2 && seq_lt(unicode_lower(b.1), unicode_lower(a.1)) {
        crate::service_settings::lemma_seq_lt_trans(unicode_lower(a.1), unicode_lower(b.1), unicode_lower(a.1));
        crate::service_settings::lemma_seq_lt_irrefl(unicode_lower(a.1));
    }
}

proof fn lemma_not_listed_before_transitive(
    a: (i64, Seq<char>, bool, bool, u32, u32),
    b: (i64, Seq<char>, bool, bool, u32, u32),
    c: (i64, Seq<char>, bool, bool, u32, u32),
)
    requires
        !listed_before(a, b),
        !listed_before(b, c),
    ensures
        !listed_before(a, c),
{
    let (la, lb, lc) = (unicode_lower(a.1), unicode_lower(b.1), unicode_lower(c.1));
    if a.3 == b.3 && b.3 == c.3 && a.2 == b.2 && b.2 == c.2 {
        crate::service_settings::lemma_seq_lt_total(la, lb);
        crate::service_settings::lemma_seq_lt_total(lb, lc);
        if seq_lt(la, lc) {
            if seq_lt(lb, la) {
                crate::service_settings::lemma_seq_lt_trans(lb, la, lc);
                if seq_lt(lc, lb) {
                    crate::service_settings::lemma_seq_lt_trans(lb, lc, lb);
                    crate::service_settings::lemma_seq_lt_irrefl(lb);
                }
            } else if seq_lt(lc, lb) {
                crate::service_settings::lemma_seq_lt_trans(la, lc, lb);
            }
            if la == lb && lb == lc {
                crate::service_settings::lemma_seq_lt_irrefl(la);
            }
        }
    }
}

proof fn lemma_insert_listed_from(s: Seq<(i64, Seq<char>, bool, bool, u32, u32)>, x: (i64, Seq<char>, bool, bool, u32, u32))
    ensures
        insert_listed(s, x).len() == s.len() + 1,
        forall|k: int|
            0 <= k < insert_listed(s, x).len() ==> #[trigger] insert_listed(s, x)[k] == x || exists|i: int|
                0 <= i < s.len() && insert_listed(s, x)[k] == s[i],
    decreases s.len(),
{
    if s.len() > 0 && listed_before(x, s.last()) {
        let d = s.drop_last();
        lemma_insert_listed_from(d, x);
        let r = insert_listed(s, x);
        assert forall|k: int| 0 <= k < r.len() implies #[trigger] r[k] == x || exists|i: int| 0 <= i < s.len() && r[k] == s[i] by {
            if k == r.len() - 1 {
                assert(r[k] == s[s.len() - 1]);
            } else {
                assert(r[k] == insert_listed(d, x)[k]);
                if r[k] != x {
                    let i = choose|i: int| 0 <= i < d.len() && insert_listed(d, x)[k] == d[i];
                    assert(r[k] == s[i]);
                }
            }
        }
    } else if s.len() > 0 {
        let r = insert_listed(s, x);
        assert forall|k: int| 0 <= k < r.len() implies #[trigger] r[k] == x || exists|i: int| 0 <= i < s.len() && r[k] == s[i] by {
            if k < s.len() {
                assert(r[k] == s[k]);
            }
        }
    }
}

proof fn lemma_insert_listed_in_order(s: Seq<(i64, Seq<char>, bool, bool, u32, u32)>, x: (i64, Seq<char>, bool, bool, u32, u32))
    requires
        listed_in_order(s),
    ensures
        listed_in_order(insert_listed(s, x)),
    decreases s.len(),
{
    let r = insert_listed(s, x);
    if s.len() == 0 {
    } else if listed_before(x, s.last()) {
        let d = s.drop_last();
        let last = s.last();
        assert(listed_in_order(d)) by {
            assert forall|i: int, j: int| 0 <= i < j < d.len() implies !#[trigger] listed_before(d[j], d[i]) by {
                assert(d[j] == s[j] && d[i] == s[i]);
            }
        }
        lemma_insert_listed_in_order(d, x);
        lemma_insert_listed_from(d, x);
        lemma_listed_asymmetric(x, last);
        let m = insert_listed(d, x);
        assert forall|i: int, j: int| 0 <= i < j < r.len() implies !#[trigger] listed_before(r[j], r[i]) by {
            if j == r.len() - 1 {
                assert(r[j] == last);
                assert(r[i] == m[i]);
                if m[i] != x {
                    let t = choose|t: int| 0 <= t < d.len() && m[i] == d[t];
                    assert(d[t] == s[t]);
                    assert(!listed_before(s[s.len() - 1], s[t]));
                }
            } else {
                assert(r[j] == m[j] && r[i] == m[i]);
            }
        }
    } else {
        let last = s.last();
        assert forall|i: int, j: int| 0 <= i < j < r.len() implies !#[trigger] listed_before(r[j], r[i]) by {
            if j == r.len() - 1 {
                assert(r[j] == x);
                assert(r[i] == s[i]);
                if i < s.len() - 1 {
                    assert(!listed_before(s[s.len() - 1], s[i]));
                    lemma_not_listed_before_transitive(x, last, s[i]);
                }
            } else {
                assert(r[j] == s[j] && r[i] == s[i]);
            }
        }
    }
}

/// The device list holds every device once, in listing order: system audio
/// before microphones, the default first within each, then by name.
pub proof fn lemma_listing_in_order(s: Seq<(i64, Seq<char>, bool, bool, u32, u32)>)
    ensures
        listing(s).len() == s.len(),
        listed_in_order(listing(s)),
        forall|k: int| 0 <= k < listing(s).len() ==> exists|i: int| 0 <= i < s.len() && #[trigger] listing(s)[k] == s[i],
    decreases s.len(),
{
    if s.len() > 0 {
        let d = s.drop_last();
        lemma_listing_in_order(d);
        lemma_insert_listed_in_order(listing(d), s.last());
        lemma_insert_listed_from(listing(d), s.last());
        let r = listing(s);
        assert forall|k: int| 0 <= k < r.len() implies exists|i: int| 0 <= i < s.len() && #[trigger] r[k] == s[i] by {
            if r[k] == s.last() {
                assert(r[k] == s[s.len() - 1]);
            } else {
                let t = choose|t: int| 0 <= t < listing(d).len() && r[k] == listing(d)[t];
                let i = choose|i: int| 0 <= i < d.len() && listing(d)[t] == d[i];
                assert(r[k] == s[i]);
            }
        }
    }
}

/// In the device list no microphone comes before a system audio device.
pub proof fn lemma_system_audio_listed_first(s: Seq<(i64, Seq<char>, bool, bool, u32, u32)>, i: int, j: int)
    requires
        0 <= i < j < listing(s).len(),
        listing(s)[j].3,
    ensures
        listing(s)[i].3,
{
    lemma_listing_in_order(s);
    assert(!listed_before(listing(s)[j], listing(s)[i]));
}


/// A process whose name, trimmed and in lower case, is the wanted name, with
/// or without `.exe`, is an exact match: rank 1, whatever its executable.
/// Otherwise one whose executable's base name, in lower case, is the wanted
/// name, with or without `.exe`, has rank 2.
pub proof fn lemma_exact_name_ranks_first(comm: Seq<char>, executable: Seq<char>, needle: Seq<char>)
    ensures
        ascii_lower(trim(comm)) == needle ==> process_rank_spec(comm, executable, needle) == Some(1u8),
        ascii_lower(trim(comm)) == needle + ".exe"@ ==> process_rank_spec(comm, executable, needle) == Some(1u8),
        ascii_lower(trim(comm)) != needle && ascii_lower(trim(comm)) != needle + ".exe"@ && ascii_lower(
            base_name(executable),
        ) == needle ==> process_rank_spec(comm, executable, needle) == Some(2u8),
{
}

/// A process whose name matches exactly is found over every process that
/// only contains the name: in a table where some process with a numeric
/// directory has the wanted name, the best match has rank 1.
pub proof fn lemma_exact_name_wins(procs: Seq<(Seq<char>, Seq<char>, Seq<char>)>, needle: Seq<char>, k: int)
    requires
        0 <= k < procs.len(),
        parse_u32_spec(procs[k].0) is Some,
        ascii_lower(trim(procs[k].1)) == needle,
    ensures
        best_process(procs, needle) matches Some((rank, _)) && rank == 1,
    decreases procs.len(),
{
    lemma_exact_name_ranks_first(procs[k].1, argv0(procs[k].2), needle);
    let last = procs.len() - 1;
    if k < last {
        lemma_exact_name_wins(procs.drop_last(), needle, k);
        assert(procs.drop_last()[k] == procs[k]);
    } else {
        lemma_best_rank_at_least_one(procs.drop_last(), needle);
    }
}

proof fn lemma_best_rank_at_least_one(procs: Seq<(Seq<char>, Seq<char>, Seq<char>)>, needle: Seq<char>)
    ensures
        best_process(procs, needle) matches Some((rank, _)) ==> rank >= 1,
    decreases procs.len(),
{
    if procs.len() > 0 {
        lemma_best_rank_at_least_one(procs.drop_last(), needle);
    }
}

} // verus!
