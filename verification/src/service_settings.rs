//! Per-service recognition settings, kept in key order as `BTreeMap` keeps them.
use vstd::prelude::*;

use crate::providers::{
    SERVICE_FUN_ASR_REALTIME, SERVICE_GEMINI_LIVE_TRANSLATE, SERVICE_GEMINI_TRANSCRIBE,
    SERVICE_GROQ_TRANSCRIPTION, SERVICE_OPENAI_REALTIME, SERVICE_QWEN_REALTIME,
    SERVICE_OPENAI_REALTIME_TRANSLATE, SERVICE_TOKEN_PLAN_REALTIME,
};
use crate::text::str_eq;

verus! {

/// Model and context for one recognition service.
#[derive(Clone, Debug)]
pub struct RecognitionServiceSettings {
    pub model: String,
    pub context: String,
}

impl RecognitionServiceSettings {
    pub open spec fn view_pair(&self) -> (Seq<char>, Seq<char>) {
        (self.model@, self.context@)
    }

    /// A copy with the same model and context.
    pub fn duplicate(&self) -> (r: Self)
        ensures
            r.view_pair() == self.view_pair(),
    {
        RecognitionServiceSettings { model: self.model.clone(), context: self.context.clone() }
    }
}

/// Lexicographic order of character sequences by code point, which is the byte
/// order of their UTF-8 encodings and so the order `String` keys sort in.
pub open spec fn seq_lt(a: Seq<char>, b: Seq<char>) -> bool
    decreases a.len(),
{
    if a.len() == 0 {
        b.len() > 0
    } else if b.len() == 0 {
        false
    } else if a[0] != b[0] {
        (a[0] as int) < (b[0] as int)
    } else {
        seq_lt(a.drop_first(), b.drop_first())
    }
}

pub proof fn lemma_seq_lt_trans(a: Seq<char>, b: Seq<char>, c: Seq<char>)
    requires
        seq_lt(a, b),
        seq_lt(b, c),
    ensures
        seq_lt(a, c),
    decreases a.len(),
{
    if a.len() > 0 && b.len() > 0 && c.len() > 0 && a[0] == b[0] && b[0] == c[0] {
        lemma_seq_lt_trans(a.drop_first(), b.drop_first(), c.drop_first());
    }
}

pub proof fn lemma_seq_lt_irrefl(a: Seq<char>)
    ensures
        !seq_lt(a, a),
    decreases a.len(),
{
    if a.len() > 0 {
        lemma_seq_lt_irrefl(a.drop_first());
    }
}

pub proof fn lemma_seq_lt_total(a: Seq<char>, b: Seq<char>)
    ensures
        a == b || seq_lt(a, b) || seq_lt(b, a),
    decreases a.len(),
{
    if a.len() > 0 && b.len() > 0 && a[0] == b[0] {
        lemma_seq_lt_total(a.drop_first(), b.drop_first());
        if a.drop_first() == b.drop_first() {
            assert(a.drop_first().len() == b.drop_first().len());
            assert(a.len() == b.len());
            assert forall|i: int| 0 <= i < a.len() implies a[i] == b[i] by {
                if i > 0 {
                    assert(a[i] == a.drop_first()[i - 1]);
                    assert(b[i] == b.drop_first()[i - 1]);
                }
            }
            assert(a =~= b);
        }
    } else if a.len() == 0 && b.len() == 0 {
        assert(a =~= b);
    } else if a.len() > 0 && b.len() > 0 {
        assert(a[0] != b[0]);
    }
}

/// `seq_lt` on two strings.
pub fn str_lt(a: &str, b: &str) -> (r: bool)
    ensures
        r == seq_lt(a@, b@),
{
    let x = crate::text::chars_of(a);
    let y = crate::text::chars_of(b);
    let mut i: usize = 0;
    assert(a@.skip(0) == a@);
    assert(b@.skip(0) == b@);
    while i < x.len() && i < y.len() && x[i] == y[i]
        invariant
            i <= x.len(),
            i <= y.len(),
            x@ == a@,
            y@ == b@,
            forall|j: int| 0 <= j < i ==> x@[j] == y@[j],
            seq_lt(a@, b@) == seq_lt(a@.skip(i as int), b@.skip(i as int)),
        decreases x.len() - i,
    {
        proof {
            let sa = a@.skip(i as int);
            let sb = b@.skip(i as int);
            assert(sa.drop_first() == a@.skip(i + 1));
            assert(sb.drop_first() == b@.skip(i + 1));
        }
        i = i + 1;
    }
    let ghost sa = a@.skip(i as int);
    let ghost sb = b@.skip(i as int);
    assert(sa.len() == x.len() - i);
    assert(sb.len() == y.len() - i);
    if i == x.len() {
        i < y.len()
    } else if i == y.len() {
        false
    } else {
        assert(sa[0] == x@[i as int]);
        assert(sb[0] == y@[i as int]);
        x[i] < y[i]
    }
}

/// Keys strictly increasing: sorted and free of duplicates.
pub open spec fn sorted_keys(s: Seq<(Seq<char>, (Seq<char>, Seq<char>))>) -> bool {
    forall|i: int, j: int| 0 <= i < j < s.len() ==> seq_lt(#[trigger] s[i].0, #[trigger] s[j].0)
}

/// Whether `key` has an entry.
pub open spec fn has_key(s: Seq<(Seq<char>, (Seq<char>, Seq<char>))>, key: Seq<char>) -> bool {
    exists|i: int| 0 <= i < s.len() && #[trigger] s[i].0 == key
}

/// Position of `key`, when it has an entry.
pub open spec fn key_index(s: Seq<(Seq<char>, (Seq<char>, Seq<char>))>, key: Seq<char>) -> int {
    choose|i: int| 0 <= i < s.len() && #[trigger] s[i].0 == key
}

/// The settings stored under `key`, if any.
pub open spec fn lookup(s: Seq<(Seq<char>, (Seq<char>, Seq<char>))>, key: Seq<char>) -> Option<
    (Seq<char>, Seq<char>),
> {
    if has_key(s, key) {
        Some(s[key_index(s, key)].1)
    } else {
        None
    }
}

/// Map from service id to its settings, iterated in key order.
#[derive(Clone, Debug)]
pub struct ServiceSettingsMap {
    entries: Vec<(String, RecognitionServiceSettings)>,
}

impl View for ServiceSettingsMap {
    type V = Seq<(Seq<char>, (Seq<char>, Seq<char>))>;

    closed spec fn view(&self) -> Self::V {
        self.entries@.map_values(
            |e: (String, RecognitionServiceSettings)| (e.0@, e.1.view_pair()),
        )
    }
}

pub proof fn lemma_sorted_unique(s: Seq<(Seq<char>, (Seq<char>, Seq<char>))>, idx: int, key: Seq<char>)
    requires
        sorted_keys(s),
        0 <= idx < s.len(),
        s[idx].0 == key,
    ensures
        lookup(s, key) == Some(s[idx].1),
{
    assert(has_key(s, key));
    let k = key_index(s, key);
    if k != idx {
        if k < idx {
            assert(seq_lt(s[k].0, s[idx].0));
        } else {
            assert(seq_lt(s[idx].0, s[k].0));
        }
        lemma_seq_lt_irrefl(key);
    }
}

impl ServiceSettingsMap {
    /// In a well-formed map, each entry is what its key looks up.
    pub proof fn lemma_entry_lookup(&self, i: int)
        requires
            self.wf(),
            0 <= i < self@.len(),
        ensures
            lookup(self@, self@[i].0) == Some(self@[i].1),
    {
        lemma_sorted_unique(self@, i, self@[i].0);
    }

    pub closed spec fn wf(&self) -> bool {
        sorted_keys(self@)
    }

    /// An empty map.
    pub fn new() -> (r: Self)
        ensures
            r@.len() == 0,
            r.wf(),
    {
        ServiceSettingsMap { entries: Vec::new() }
    }

    /// Number of entries.
    pub fn len(&self) -> (n: usize)
        ensures
            n == self@.len(),
    {
        self.entries.len()
    }

    /// The `i`-th entry in key order.
    pub fn entry(&self, i: usize) -> (r: (&String, &RecognitionServiceSettings))
        requires
            i < self@.len(),
        ensures
            r.0@ == self@[i as int].0,
            r.1.view_pair() == self@[i as int].1,
    {
        let e = &self.entries[i];
        (&e.0, &e.1)
    }

    /// Index of `key`, if present.
    fn position(&self, key: &str) -> (r: Option<usize>)
        ensures
            match r {
                Some(i) => i < self@.len() && self@[i as int].0 == key@,
                None => !has_key(self@, key@),
            },
    {
        let mut i: usize = 0;
        while i < self.entries.len()
            invariant
                i <= self.entries.len(),
                forall|j: int| 0 <= j < i ==> #[trigger] self@[j].0 != key@,
            decreases self.entries.len() - i,
        {
            if str_eq(self.entries[i].0.as_str(), key) {
                return Some(i);
            }
            i = i + 1;
        }
        None
    }

    /// Whether `key` has an entry.
    pub fn contains_key(&self, key: &str) -> (r: bool)
        ensures
            r == has_key(self@, key@),
    {
        self.position(key).is_some()
    }

    /// The settings stored under `key`.
    pub fn get(&self, key: &str) -> (r: Option<&RecognitionServiceSettings>)
        requires
            self.wf(),
        ensures
            match r {
                Some(v) => lookup(self@, key@) == Some(v.view_pair()),
                None => lookup(self@, key@).is_none(),
            },
    {
        match self.position(key) {
            Some(i) => {
                proof {
                    lemma_sorted_unique(self@, i as int, key@);
                }
                Some(&self.entries[i].1)
            },
            None => None,
        }
    }

    /// Stores `value` under `key`, keeping key order; returns the previous value.
    pub fn insert(&mut self, key: String, value: RecognitionServiceSettings) -> (r: Option<
        RecognitionServiceSettings,
    >)
        requires
            old(self).wf(),
        ensures
            final(self).wf(),
            lookup(final(self)@, key@) == Some(value.view_pair()),
            forall|k: Seq<char>| k != key@ ==> lookup(#[trigger] final(self)@, k) == lookup(old(self)@, k),
            match r {
                Some(v) => lookup(old(self)@, key@) == Some(v.view_pair()),
                None => lookup(old(self)@, key@).is_none(),
            },
    {
        let ghost old_view = self@;
        let mut p: usize = 0;
        while p < self.entries.len() && str_lt(self.entries[p].0.as_str(), key.as_str())
            invariant
                p <= self.entries.len(),
                self@ == old_view,
                forall|j: int| 0 <= j < p ==> seq_lt(#[trigger] self@[j].0, key@),
            decreases self.entries.len() - p,
        {
            p = p + 1;
        }
        if p < self.entries.len() && str_eq(self.entries[p].0.as_str(), key.as_str()) {
            let ghost kv = key@;
            let ghost vv = value.view_pair();
            let old_entry = self.entries[p].1.duplicate();
            let kept_key = self.entries[p].0.clone();
            self.entries.set(p, (kept_key, value));
            proof {
                assert(self@ =~= old_view.update(p as int, (kv, vv)));
                assert(sorted_keys(self@)) by {
                    assert forall|i: int, j: int| 0 <= i < j < self@.len() implies seq_lt(
                        #[trigger] self@[i].0,
                        #[trigger] self@[j].0,
                    ) by {
                        assert(self@[i].0 == old_view[i].0);
                        assert(self@[j].0 == old_view[j].0);
                    }
                }
                lemma_sorted_unique(self@, p as int, kv);
                lemma_sorted_unique(old_view, p as int, kv);
                assert forall|k: Seq<char>| k != kv implies lookup(#[trigger] self@, k) == lookup(old_view, k) by {
                    if has_key(self@, k) {
                        let i = choose|i: int| 0 <= i < self@.len() && #[trigger] self@[i].0 == k;
                        lemma_sorted_unique(self@, i, k);
                        lemma_sorted_unique(old_view, i, k);
                    } else {
                        assert forall|i: int| 0 <= i < old_view.len() implies #[trigger] old_view[i].0 != k by {
                            assert(self@[i].0 == old_view[i].0);
                        }
                    }
                }
            }
            Some(old_entry)
        } else {
            let ghost kv = key@;
            let ghost vv = value.view_pair();
            proof {
                if p < old_view.len() {
                    lemma_seq_lt_total(old_view[p as int].0, kv);
                }
                assert forall|j: int| p <= j < old_view.len() implies seq_lt(kv, #[trigger] old_view[j].0) by {
                    lemma_seq_lt_total(old_view[p as int].0, kv);
                    if j > p {
                        assert(seq_lt(old_view[p as int].0, old_view[j].0));
                        lemma_seq_lt_trans(kv, old_view[p as int].0, old_view[j].0);
                    }
                }
                assert(!has_key(old_view, kv)) by {
                    assert forall|i: int| 0 <= i < old_view.len() implies #[trigger] old_view[i].0 != kv by {
                        if i < p {
                            assert(seq_lt(old_view[i].0, kv));
                        } else {
                            assert(seq_lt(kv, old_view[i].0));
                        }
                        lemma_seq_lt_irrefl(kv);
                    }
                }
            }
            self.entries.insert(p, (key, value));
            proof {
                assert(self@ =~= old_view.insert(p as int, (kv, vv)));
                assert(sorted_keys(self@)) by {
                    assert forall|i: int, j: int| 0 <= i < j < self@.len() implies seq_lt(
                        #[trigger] self@[i].0,
                        #[trigger] self@[j].0,
                    ) by {
                        if j < p {
                        } else if j == p {
                        } else if i < p {
                            assert(self@[j].0 == old_view[j - 1].0);
                            assert(seq_lt(old_view[i].0, kv));
                            lemma_seq_lt_trans(old_view[i].0, kv, old_view[j - 1].0);
                        } else if i == p {
                            assert(self@[j].0 == old_view[j - 1].0);
                        } else {
                            assert(self@[j].0 == old_view[j - 1].0);
                            assert(self@[i].0 == old_view[i - 1].0);
                        }
                    }
                }
                lemma_sorted_unique(self@, p as int, kv);
                assert forall|k: Seq<char>| k != kv implies lookup(#[trigger] self@, k) == lookup(old_view, k) by {
                    if has_key(old_view, k) {
                        let i = choose|i: int| 0 <= i < old_view.len() && #[trigger] old_view[i].0 == k;
                        lemma_sorted_unique(old_view, i, k);
                        if i < p {
                            assert(self@[i].0 == k);
                            lemma_sorted_unique(self@, i, k);
                        } else {
                            assert(self@[i + 1].0 == k);
                            lemma_sorted_unique(self@, i + 1, k);
                        }
                    } else {
                        assert forall|i: int| 0 <= i < self@.len() implies #[trigger] self@[i].0 != k by {
                            if i < p {
                                assert(self@[i] == old_view[i]);
                            } else if i > p {
                                assert(self@[i] == old_view[i - 1]);
                            }
                        }
                    }
                }
            }
            None
        }
    }

    /// Replaces the model stored under `key`; returns whether `key` has an entry.
    pub fn set_model(&mut self, key: &str, model: &str) -> (r: bool)
        requires
            old(self).wf(),
        ensures
            final(self).wf(),
            r == has_key(old(self)@, key@),
            r ==> final(self)@ == old(self)@.update(
                key_index(old(self)@, key@),
                (key@, (model@, lookup(old(self)@, key@).unwrap().1)),
            ),
            !r ==> final(self)@ == old(self)@,
    {
        match self.position(key) {
            Some(i) => {
                let ghost old_view = self@;
                proof {
                    lemma_sorted_unique(old_view, i as int, key@);
                    let k = key_index(old_view, key@);
                    if k != i {
                        if k < i { assert(seq_lt(old_view[k].0, old_view[i as int].0)); }
                        else { assert(seq_lt(old_view[i as int].0, old_view[k].0)); }
                        lemma_seq_lt_irrefl(key@);
                    }
                }
                let mut e = self.entries[i].1.duplicate();
                e.model = model.to_owned();
                let kept_key = self.entries[i].0.clone();
                self.entries.set(i, (kept_key, e));
                proof {
                    assert(self@ =~= old_view.update(i as int, (key@, (model@, old_view[i as int].1.1))));
                    assert forall|a: int, b: int| 0 <= a < b < self@.len() implies seq_lt(
                        #[trigger] self@[a].0,
                        #[trigger] self@[b].0,
                    ) by {
                        assert(self@[a].0 == old_view[a].0);
                        assert(self@[b].0 == old_view[b].0);
                    }
                }
                true
            },
            None => false,
        }
    }

    /// Replaces the context stored under `key`; returns whether `key` has an entry.
    pub fn set_context(&mut self, key: &str, context: &str) -> (r: bool)
        requires
            old(self).wf(),
        ensures
            final(self).wf(),
            r == has_key(old(self)@, key@),
            r ==> final(self)@ == old(self)@.update(
                key_index(old(self)@, key@),
                (key@, (lookup(old(self)@, key@).unwrap().0, context@)),
            ),
            !r ==> final(self)@ == old(self)@,
    {
        match self.position(key) {
            Some(i) => {
                let ghost old_view = self@;
                proof {
                    lemma_sorted_unique(old_view, i as int, key@);
                    let k = key_index(old_view, key@);
                    if k != i {
                        if k < i { assert(seq_lt(old_view[k].0, old_view[i as int].0)); }
                        else { assert(seq_lt(old_view[i as int].0, old_view[k].0)); }
                        lemma_seq_lt_irrefl(key@);
                    }
                }
                let mut e = self.entries[i].1.duplicate();
                e.context = context.to_owned();
                let kept_key = self.entries[i].0.clone();
                self.entries.set(i, (kept_key, e));
                proof {
                    assert(self@ =~= old_view.update(i as int, (key@, (old_view[i as int].1.0, context@))));
                    assert forall|a: int, b: int| 0 <= a < b < self@.len() implies seq_lt(
                        #[trigger] self@[a].0,
                        #[trigger] self@[b].0,
                    ) by {
                        assert(self@[a].0 == old_view[a].0);
                        assert(self@[b].0 == old_view[b].0);
                    }
                }
                true
            },
            None => false,
        }
    }
}

/// The settings every recognition service starts with: its default model and no context.
pub open spec fn default_settings_view(s: Seq<(Seq<char>, (Seq<char>, Seq<char>))>) -> bool {
    &&& lookup(s, SERVICE_GEMINI_LIVE_TRANSLATE@) == Some(
        ("gemini-3.5-live-translate-preview"@, Seq::<char>::empty()),
    )
    &&& lookup(s, SERVICE_QWEN_REALTIME@) == Some(("qwen3-asr-flash-realtime"@, Seq::<char>::empty()))
    &&& lookup(s, SERVICE_FUN_ASR_REALTIME@) == Some(("fun-asr-realtime"@, Seq::<char>::empty()))
    &&& lookup(s, SERVICE_TOKEN_PLAN_REALTIME@) == Some(
        ("qwen-audio-3.0-realtime-plus"@, Seq::<char>::empty()),
    )
    &&& lookup(s, SERVICE_OPENAI_REALTIME@) == Some(("gpt-4o-mini-transcribe"@, Seq::<char>::empty()))
    &&& lookup(s, SERVICE_OPENAI_REALTIME_TRANSLATE@) == Some(
        ("gpt-realtime-translate"@, Seq::<char>::empty()),
    )
    &&& lookup(s, SERVICE_GROQ_TRANSCRIPTION@) == Some(("whisper-large-v3-turbo"@, Seq::<char>::empty()))
    &&& lookup(s, SERVICE_GEMINI_TRANSCRIBE@) == Some(
        ("gemini-3.5-transcribe-live"@, Seq::<char>::empty()),
    )
}

fn settings(model: &str) -> (r: RecognitionServiceSettings)
    ensures
        r.view_pair() == (model@, Seq::<char>::empty()),
{
    RecognitionServiceSettings { model: model.to_owned(), context: String::new() }
}

/// The default settings hold no service but the eight recognition services.
pub open spec fn default_settings_keys(s: Seq<(Seq<char>, (Seq<char>, Seq<char>))>) -> bool {
    forall|k: Seq<char>|
        #![trigger lookup(s, k)]
        lookup(s, k).is_some() ==> k == SERVICE_GEMINI_LIVE_TRANSLATE@ || k == SERVICE_QWEN_REALTIME@ || k
            == SERVICE_FUN_ASR_REALTIME@ || k == SERVICE_TOKEN_PLAN_REALTIME@ || k == SERVICE_OPENAI_REALTIME@
            || k == SERVICE_OPENAI_REALTIME_TRANSLATE@ || k == SERVICE_GROQ_TRANSCRIPTION@ || k
            == SERVICE_GEMINI_TRANSCRIBE@
}

/// Default settings of every recognition service.
pub fn default_service_settings() -> (r: ServiceSettingsMap)
    ensures
        r.wf(),
        default_settings_view(r@),
        default_settings_keys(r@),
{
    proof {
        reveal_strlit("gemini_live_translate");
        reveal_strlit("qwen_realtime");
        reveal_strlit("fun_asr_realtime");
        reveal_strlit("token_plan_realtime");
        reveal_strlit("openai_realtime");
        reveal_strlit("openai_realtime_translate");
        reveal_strlit("groq_transcription");
        reveal_strlit("gemini_transcribe");
    }
    let mut m = ServiceSettingsMap::new();
    m.insert(SERVICE_GEMINI_LIVE_TRANSLATE.to_owned(), settings("gemini-3.5-live-translate-preview"));
    m.insert(SERVICE_QWEN_REALTIME.to_owned(), settings("qwen3-asr-flash-realtime"));
    m.insert(SERVICE_FUN_ASR_REALTIME.to_owned(), settings("fun-asr-realtime"));
    m.insert(SERVICE_TOKEN_PLAN_REALTIME.to_owned(), settings("qwen-audio-3.0-realtime-plus"));
    m.insert(SERVICE_OPENAI_REALTIME.to_owned(), settings("gpt-4o-mini-transcribe"));
    m.insert(SERVICE_OPENAI_REALTIME_TRANSLATE.to_owned(), settings("gpt-realtime-translate"));
    m.insert(SERVICE_GROQ_TRANSCRIPTION.to_owned(), settings("whisper-large-v3-turbo"));
    m.insert(SERVICE_GEMINI_TRANSCRIBE.to_owned(), settings("gemini-3.5-transcribe-live"));
    m
}

} // verus!
