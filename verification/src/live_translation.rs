//! Sentence alignment of a live translation session: the service streams the
//! source transcript and its translation as two independent text streams, and
//! this state machine cuts both into sentences, pairs them, and reports
//! finished sentences, their translations and a display snapshot.
use vstd::prelude::*;

use crate::live_text::{
    append_display_text, content_in, display_append, has_content, run_end, sentence_end_chars,
    sentence_end_from,
};
use crate::config::AsrConfig;
use crate::models::LiveTranslation;
use crate::providers::{
    provider_id, recognition_service, service_from, service_provider, SERVICE_GEMINI_LIVE_TRANSLATE,
};
use crate::service_settings::lookup;
use crate::presentation::{same_language, same_translation_language};
use crate::streaming::{CloudEvent, LiveTranslationResult};
use crate::text::{chars_of, concat, is_blank, str_eq, string_of_range, trim, trim_str, utf8_len};

verus! {

/// A sentence mark at the end of a stream waits this long for more text.
pub const END_MARK_DELAY_MS: u64 = 200;

/// A stream that stays silent this long is cut where it stands.
pub const SOURCE_IDLE_DELAY_MS: u64 = 1500;

/// The value of a `LiveTranslation`.
pub struct LineView {
    pub id: Seq<char>,
    pub text: Seq<char>,
    pub language: Option<Seq<char>>,
    pub translation: Seq<char>,
    pub target_language: Seq<char>,
}

/// The value of an optional string.
pub open spec fn opt_text(o: Option<String>) -> Option<Seq<char>> {
    match o {
        Some(s) => Some(s@),
        None => None,
    }
}

impl View for LiveTranslation {
    type V = LineView;

    open spec fn view(&self) -> LineView {
        LineView {
            id: self.utterance_id@,
            text: self.text@,
            language: opt_text(self.language),
            translation: self.translation@,
            target_language: self.target_language@,
        }
    }
}

/// The value of a `LiveTranslationResult`.
pub struct ResultView {
    pub pending: bool,
    pub source_ids: Seq<Seq<char>>,
    pub provider: Seq<char>,
    pub transcript: LineView,
    pub model: Seq<char>,
}

impl View for LiveTranslationResult {
    type V = ResultView;

    open spec fn view(&self) -> ResultView {
        ResultView {
            pending: self.pending,
            source_ids: self.source_utterance_ids@.map_values(|s: String| s@),
            provider: self.provider@,
            transcript: self.transcript@,
            model: self.model@,
        }
    }
}

/// The values of a list of strings.
pub open spec fn texts(v: Seq<String>) -> Seq<Seq<char>> {
    v.map_values(|s: String| s@)
}

/// The values of a list of lines.
pub open spec fn lines(v: Seq<LiveTranslation>) -> Seq<LineView> {
    v.map_values(|l: LiveTranslation| l@)
}

/// The values of a list of results.
pub open spec fn results(v: Seq<LiveTranslationResult>) -> Seq<ResultView> {
    v.map_values(|r: LiveTranslationResult| r@)
}

pub open spec fn with_id(l: LineView, id: Seq<char>) -> LineView {
    LineView { id: id, ..l }
}

pub open spec fn with_text(l: LineView, text: Seq<char>) -> LineView {
    LineView { text: text, ..l }
}

pub open spec fn with_translation(l: LineView, translation: Seq<char>) -> LineView {
    LineView { translation: translation, ..l }
}

/// A copy of a line.
pub fn copy_line(l: &LiveTranslation) -> (r: LiveTranslation)
    ensures
        r@ == l@,
{
    LiveTranslation {
        utterance_id: l.utterance_id.clone(),
        text: l.text.clone(),
        language: match &l.language {
            Some(s) => Some(s.clone()),
            None => None,
        },
        translation: l.translation.clone(),
        target_language: l.target_language.clone(),
    }
}

/// Time since `t`, in milliseconds; zero when `now` is earlier.
pub open spec fn elapsed(t: u64, now: u64) -> int {
    if now >= t {
        now - t
    } else {
        0
    }
}

/// Whether at least `delay` has passed since the stream last grew.
pub open spec fn waited(last: Option<u64>, now: u64, delay: int) -> bool {
    last matches Some(t) && elapsed(t, now) >= delay
}

fn has_waited(last: Option<u64>, now: u64, delay: u64) -> (r: bool)
    ensures
        r == waited(last, now, delay as int),
{
    match last {
        Some(t) => (if now >= t {
            now - t
        } else {
            0
        }) >= delay,
        None => false,
    }
}

/// Where the first sentence of `buf` ends: at a complete sentence, or, when
/// `tail` holds, at the end of a non-empty buffer; zero where none ends.
pub open spec fn cut_point(buf: Seq<char>, trailing: bool, tail: bool) -> int {
    match sentence_end_from(buf, trailing, 0) {
        Some(e) => e,
        None => if tail {
            buf.len() as int
        } else {
            0
        },
    }
}

/// The sentences cut from the front of a buffer, trimmed, those without
/// content left out, and the text that stays in the buffer. `trailing` lets
/// a sentence mark at the very end count; `tail` cuts a remainder without one.
pub open spec fn split_sentences(buf: Seq<char>, trailing: bool, tail: bool) -> (Seq<Seq<char>>, Seq<char>)
    decreases buf.len(),
{
    let end = cut_point(buf, trailing, tail);
    if end <= 0 || end > buf.len() {
        (Seq::empty(), buf)
    } else {
        let text = trim(buf.subrange(0, end));
        let rest = split_sentences(buf.subrange(end, buf.len() as int), trailing, tail);
        (if content_in(text) {
            seq![text] + rest.0
        } else {
            rest.0
        }, rest.1)
    }
}

proof fn lemma_run_end_bounds(t: Seq<char>, k: int)
    requires
        0 <= k <= t.len(),
    ensures
        k <= run_end(t, k) <= t.len(),
    decreases t.len() - k,
{
    if k < t.len() && (crate::live_text::is_terminal(t[k]) || crate::live_text::is_closing(t[k])
        || crate::text::is_ws(t[k])) {
        lemma_run_end_bounds(t, k + 1);
    }
}

proof fn lemma_sentence_end_after(t: Seq<char>, a: bool, pos: int)
    requires
        0 <= pos,
    ensures
        sentence_end_from(t, a, pos) matches Some(e) ==> pos < e <= t.len(),
    decreases t.len() - pos,
{
    if pos < t.len() {
        lemma_run_end_bounds(t, pos + 1);
        lemma_sentence_end_after(t, a, pos + 1);
    }
}

/// Cuts the sentences off the front of `buffer`, as `split_sentences` says.
fn cut_sentences(buffer: &mut String, trailing: bool, tail: bool) -> (out: Vec<String>)
    ensures
        (texts(out@), final(buffer)@) == split_sentences(old(buffer)@, trailing, tail),
{
    let mut out: Vec<String> = Vec::new();
    loop
        invariant
            split_sentences(old(buffer)@, trailing, tail) == (texts(out@) + split_sentences(buffer@, trailing, tail).0,
                split_sentences(buffer@, trailing, tail).1),
        decreases buffer@.len(),
    {
        let cs = chars_of(buffer.as_str());
        proof {
            lemma_sentence_end_after(cs@, trailing, 0);
        }
        let end = match sentence_end_chars(&cs, trailing) {
            Some(e) => e,
            None => if tail {
                cs.len()
            } else {
                0
            },
        };
        if end == 0 {
            assert(split_sentences(buffer@, trailing, tail).0 =~= Seq::<Seq<char>>::empty());
            assert(texts(out@) + Seq::<Seq<char>>::empty() =~= texts(out@));
            return out;
        }
        let ghost before = buffer@;
        let head = string_of_range(&cs, 0, end);
        let rest = string_of_range(&cs, end, cs.len());
        let text = trim_str(head.as_str());
        let ghost old_out = texts(out@);
        if has_content(text.as_str()) {
            out.push(text);
            proof {
                assert(texts(out@) =~= old_out.push(text@));
                assert(old_out.push(text@) + split_sentences(rest@, trailing, tail).0 =~= old_out + (seq![
                    text@,
                ] + split_sentences(rest@, trailing, tail).0));
            }
        } else {
            assert(texts(out@) =~= old_out);
        }
        *buffer = rest;
    }
}

/// The sentences that a stream yields now: a mark at the end of the buffer
/// counts once `END_MARK_DELAY_MS` has passed since the stream grew, the
/// remainder is cut once `SOURCE_IDLE_DELAY_MS` has passed; `flush` does both.
pub open spec fn stream_sentences(buf: Seq<char>, updated_at: Option<u64>, now: u64, flush: bool) -> (
    Seq<Seq<char>>,
    Seq<char>,
) {
    split_sentences(
        buf,
        flush || waited(updated_at, now, END_MARK_DELAY_MS as int),
        flush || waited(updated_at, now, SOURCE_IDLE_DELAY_MS as int),
    )
}

/// Takes the finished sentences off the front of a stream buffer.
pub fn take_sentences(buffer: &mut String, updated_at: Option<u64>, now_ms: u64, flush: bool) -> (out: Vec<
    String,
>)
    ensures
        (texts(out@), final(buffer)@) == stream_sentences(old(buffer)@, updated_at, now_ms, flush),
{
    let trailing = flush || has_waited(updated_at, now_ms, END_MARK_DELAY_MS);
    let idle = flush || has_waited(updated_at, now_ms, SOURCE_IDLE_DELAY_MS);
    cut_sentences(buffer, trailing, idle)
}

/// Takes finished target sentences off a buffer; a mark at its very end does
/// not count, and `flush_tail` cuts the remainder.
pub fn take_targets(buffer: &mut String, flush_tail: bool) -> (out: Vec<String>)
    ensures
        (texts(out@), final(buffer)@) == split_sentences(old(buffer)@, false, flush_tail),
{
    cut_sentences(buffer, false, flush_tail)
}

/// `current` followed by the trimmed `sentence`, with a space between them
/// when `current` is not empty.
pub open spec fn join_one(current: Seq<char>, sentence: Seq<char>) -> Seq<char> {
    if current.len() > 0 {
        current.push(' ') + trim(sentence)
    } else {
        trim(sentence)
    }
}

/// `current` followed by each of `sentences` in turn, as `join_one` adds one.
pub open spec fn join_from(current: Seq<char>, sentences: Seq<Seq<char>>) -> Seq<char>
    decreases sentences.len(),
{
    if sentences.len() == 0 {
        current
    } else {
        join_from(join_one(current, sentences[0]), sentences.drop_first())
    }
}

/// Appends a trimmed sentence, separated by a space.
pub fn append_sentence(current: &mut String, sentence: &str)
    ensures
        final(current)@ == join_one(old(current)@, sentence@),
{
    if crate::text::char_count(current.as_str()) > 0 {
        crate::text::push_char(current, ' ');
    }
    let t = trim_str(sentence);
    crate::text::push_str(current, t.as_str());
}

/// Appends each of `sentences[from..]` to `current`, as `join_one` adds one.
pub fn join_rest(current: &mut String, sentences: &Vec<String>, from: usize)
    requires
        from <= sentences@.len(),
    ensures
        final(current)@ == join_from(old(current)@, texts(sentences@).subrange(from as int, sentences@.len() as int)),
{
    let mut i: usize = from;
    while i < sentences.len()
        invariant
            from <= i <= sentences@.len(),
            join_from(old(current)@, texts(sentences@).subrange(from as int, sentences@.len() as int)) == join_from(
                current@,
                texts(sentences@).subrange(i as int, sentences@.len() as int),
            ),
        decreases sentences@.len() - i,
    {
        let ghost tail = texts(sentences@).subrange(i as int, sentences@.len() as int);
        assert(tail.drop_first() =~= texts(sentences@).subrange(i + 1, sentences@.len() as int));
        append_sentence(current, sentences[i].as_str());
        i = i + 1;
    }
    assert(texts(sentences@).subrange(i as int, sentences@.len() as int) =~= Seq::<Seq<char>>::empty());
}

/// The sentences trimmed and joined with single spaces.
pub fn join_sentences(sentences: &Vec<String>) -> (r: String)
    ensures
        r@ == join_from(Seq::empty(), texts(sentences@)),
{
    let mut joined = String::new();
    assert(texts(sentences@).subrange(0, sentences@.len() as int) =~= texts(sentences@));
    assert(joined@ =~= Seq::<char>::empty());
    join_rest(&mut joined, sentences, 0);
    joined
}

/// Where the timed mode keeps the previews it last showed on source rows.
pub struct Timing {
    /// Source id and the translation previewed on it.
    pub previews: Vec<(String, String)>,
}

/// The state of one live translation session.
pub struct State {
    /// The display snapshot; `None` until text arrives.
    pub snapshot: Option<LiveTranslation>,
    /// Source text not yet cut into sentences.
    pub input: String,
    /// Translated text not yet cut into sentences.
    pub output: String,
    /// Finished source sentences that wait for their translation.
    pub sources: Vec<LiveTranslation>,
    /// Finished translated sentences that wait for their source.
    pub targets: Vec<String>,
    /// The last source sentence that received a translation.
    pub last_pair: Option<LiveTranslation>,
    /// The last preview reported: source id and translation text.
    pub last_partial: Option<(String, String)>,
    /// The source language the service reported.
    pub language: Option<String>,
    /// When source text last arrived, in milliseconds.
    pub last_input: Option<u64>,
    /// When translated text last arrived, in milliseconds.
    pub last_output: Option<u64>,
    /// Present for services that align sentences by time windows.
    pub timing: Option<Timing>,
}

/// The value of a `State`.
pub struct StateView {
    pub snapshot: Option<LineView>,
    pub input: Seq<char>,
    pub output: Seq<char>,
    pub sources: Seq<LineView>,
    pub targets: Seq<Seq<char>>,
    pub last_pair: Option<LineView>,
    pub last_partial: Option<(Seq<char>, Seq<char>)>,
    pub language: Option<Seq<char>>,
    pub last_input: Option<u64>,
    pub last_output: Option<u64>,
    pub previews: Option<Seq<(Seq<char>, Seq<char>)>>,
}

/// The values of a list of text pairs.
pub open spec fn pairs(v: Seq<(String, String)>) -> Seq<(Seq<char>, Seq<char>)> {
    v.map_values(|p: (String, String)| (p.0@, p.1@))
}

pub open spec fn opt_line(o: Option<LiveTranslation>) -> Option<LineView> {
    match o {
        Some(l) => Some(l@),
        None => None,
    }
}

pub open spec fn opt_pair(o: Option<(String, String)>) -> Option<(Seq<char>, Seq<char>)> {
    match o {
        Some(p) => Some((p.0@, p.1@)),
        None => None,
    }
}

impl View for State {
    type V = StateView;

    open spec fn view(&self) -> StateView {
        StateView {
            snapshot: opt_line(self.snapshot),
            input: self.input@,
            output: self.output@,
            sources: lines(self.sources@),
            targets: texts(self.targets@),
            last_pair: opt_line(self.last_pair),
            last_partial: opt_pair(self.last_partial),
            language: opt_text(self.language),
            last_input: self.last_input,
            last_output: self.last_output,
            previews: match self.timing {
                Some(t) => Some(pairs(t.previews@)),
                None => None,
            },
        }
    }
}

/// What a live translation event reports.
pub struct EventView {
    pub snapshot: LineView,
    pub completed: Seq<ResultView>,
    pub translations: Seq<ResultView>,
}

/// The value of a live translation event; `None` for no event or another kind.
pub open spec fn event_of(r: Option<CloudEvent>) -> Option<EventView> {
    match r {
        Some(CloudEvent::LiveTranslation { snapshot, completed, translations }) => Some(
            EventView { snapshot: snapshot@, completed: results(completed@), translations: results(translations@) },
        ),
        _ => None,
    }
}

/// The ids of the source sentences an event reports as finished.
pub open spec fn event_ids(r: Option<CloudEvent>) -> Seq<Seq<char>> {
    match event_of(r) {
        Some(e) => e.completed.map_values(|c: ResultView| c.transcript.id),
        None => Seq::empty(),
    }
}

/// Each id is `prefix` followed by a hyphenated UUID.
pub open spec fn fresh_ids(ids: Seq<Seq<char>>, prefix: Seq<char>) -> bool {
    forall|i: int|
        0 <= i < ids.len() ==> (#[trigger] ids[i]).len() == prefix.len() + 36 && ids[i].subrange(
            0,
            prefix.len() as int,
        ) == prefix
}

/// A result that reports `transcript` as its one source sentence.
pub open spec fn make_result(provider: Seq<char>, model: Seq<char>, transcript: LineView, pending: bool) -> ResultView {
    ResultView { pending, source_ids: seq![transcript.id], provider, transcript, model }
}

pub open spec fn results_of(provider: Seq<char>, model: Seq<char>, ls: Seq<LineView>, pending: bool) -> Seq<
    ResultView,
> {
    ls.map_values(|l: LineView| make_result(provider, model, l, pending))
}

/// A finished source sentence: the snapshot under a new id, with the text
/// and no translation.
pub open spec fn fresh_line(snapshot: LineView, text: Seq<char>, id: Seq<char>) -> LineView {
    LineView { id, text, translation: Seq::empty(), ..snapshot }
}

pub open spec fn fresh_lines(snapshot: LineView, sentences: Seq<Seq<char>>, ids: Seq<Seq<char>>) -> Seq<LineView> {
    Seq::new(sentences.len(), |i: int| fresh_line(snapshot, sentences[i], ids[i]))
}

/// Whether no stream that has started has been silent for less than the idle delay.
pub open spec fn quiet(last: Option<u64>, now: u64) -> bool {
    last matches Some(t) ==> elapsed(t, now) >= SOURCE_IDLE_DELAY_MS
}

/// Builds a result reporting `transcript`.
fn result(provider: &String, model: &String, transcript: LiveTranslation, pending: bool) -> (r:
    LiveTranslationResult)
    ensures
        r@ == make_result(provider@, model@, transcript@, pending),
{
    let ids = vec![transcript.utterance_id.clone()];
    assert(texts(ids@) =~= seq![transcript@.id]);
    LiveTranslationResult {
        pending,
        source_utterance_ids: ids,
        provider: provider.clone(),
        transcript,
        model: model.clone(),
    }
}

/// A new id: `prefix` followed by a random UUID.
fn new_id(prefix: &str) -> (r: String)
    ensures
        r@.len() == prefix@.len() + 36,
        r@.subrange(0, prefix@.len() as int) == prefix@,
{
    let u = crate::ids::random_uuid();
    let r = concat(prefix, u.as_str());
    assert(r@.subrange(0, prefix@.len() as int) =~= prefix@);
    r
}

/// The ids of the transcripts that a list of results reports.
pub open spec fn transcript_ids(rs: Seq<ResultView>) -> Seq<Seq<char>> {
    rs.map_values(|c: ResultView| c.transcript.id)
}

/// `t` followed by each of `ts`, each after a space.
pub open spec fn spaced(t: Seq<char>, ts: Seq<Seq<char>>) -> Seq<char>
    decreases ts.len(),
{
    if ts.len() == 0 {
        t
    } else {
        spaced(t.push(' ') + ts[0], ts.drop_first())
    }
}

/// A display line that receives each of `ts` in turn.
pub open spec fn display_fold(current: Seq<char>, ts: Seq<Seq<char>>) -> Seq<char>
    decreases ts.len(),
{
    if ts.len() == 0 {
        current
    } else {
        display_fold(display_append(current, ts[0]), ts.drop_first())
    }
}

/// Whether the translation of a source is another line in the same language:
/// the Gemini live service echoes such speech instead of translating it.
pub open spec fn echoes(s: StateView, snapshot: LineView, gemini_live: bool) -> bool {
    gemini_live && (s.language matches Some(l) && same_language(l, snapshot.target_language))
}

/// First step: both streams are cut into sentences. Each new source sentence
/// is reported as finished, pending its translation unless it is echoed, and
/// waits for its translation unless it is echoed.
pub open spec fn plain_cut(
    s: StateView,
    snapshot: LineView,
    echo: bool,
    provider: Seq<char>,
    model: Seq<char>,
    flush: bool,
    now: u64,
    ids: Seq<Seq<char>>,
) -> (StateView, Seq<ResultView>) {
    let src = stream_sentences(s.input, s.last_input, now, flush);
    let fresh = fresh_lines(snapshot, src.0, ids);
    let tgt = stream_sentences(s.output, s.last_output, now, flush);
    (
        StateView {
            input: src.1,
            output: tgt.1,
            sources: if echo {
                s.sources
            } else {
                s.sources + fresh
            },
            targets: s.targets + tgt.0,
            ..s
        },
        results_of(provider, model, fresh, !echo),
    )
}

/// The number of sentence pairs that both queues hold.
pub open spec fn pair_count(s: StateView) -> int {
    if s.sources.len() < s.targets.len() {
        s.sources.len() as int
    } else {
        s.targets.len() as int
    }
}

/// Second step: waiting sources and targets are paired in stream order; each
/// pair is reported as translated.
pub open spec fn plain_pair(s: StateView, provider: Seq<char>, model: Seq<char>) -> (StateView, Seq<ResultView>) {
    let k = pair_count(s);
    let ps = Seq::new(k as nat, |i: int| with_translation(s.sources[i], s.targets[i]));
    (
        StateView {
            sources: s.sources.subrange(k, s.sources.len() as int),
            targets: s.targets.subrange(k, s.targets.len() as int),
            last_pair: if k > 0 {
                Some(ps[k - 1])
            } else {
                s.last_pair
            },
            last_partial: if k > 0 {
                None
            } else {
                s.last_partial
            },
            ..s
        },
        results_of(provider, model, ps, false),
    )
}

/// Third step: once everything is settled and no source waits, translated
/// sentences left over join the last translated source (a translation may
/// split one sentence into several); echoed targets are dropped.
pub open spec fn plain_tail(
    s: StateView,
    trans: Seq<ResultView>,
    echo: bool,
    settle: bool,
    provider: Seq<char>,
    model: Seq<char>,
) -> (StateView, Seq<ResultView>) {
    if s.sources.len() == 0 && trim(s.input).len() == 0 && settle {
        match s.last_pair {
            Some(lp) => if s.targets.len() > 0 {
                let lp2 = with_translation(lp, spaced(lp.translation, s.targets));
                let kept = if trans.len() > 0 && trans.last().transcript.id == lp.id {
                    trans.drop_last()
                } else {
                    trans
                };
                (
                    StateView { last_pair: Some(lp2), targets: Seq::empty(), ..s },
                    kept.push(make_result(provider, model, lp2, false)),
                )
            } else {
                (s, trans)
            },
            None => if echo {
                (StateView { targets: Seq::empty(), ..s }, trans)
            } else {
                (s, trans)
            },
        }
    } else {
        (s, trans)
    }
}

/// Fourth step: a flush reports every waiting source without translation;
/// otherwise the first waiting source shows the translation streaming in,
/// reported once per change.
pub open spec fn plain_finish(
    s: StateView,
    trans: Seq<ResultView>,
    flush: bool,
    provider: Seq<char>,
    model: Seq<char>,
) -> (StateView, Seq<ResultView>) {
    if flush {
        (
            StateView { sources: Seq::empty(), last_partial: None, ..s },
            trans + results_of(provider, model, s.sources, false),
        )
    } else if s.sources.len() > 0 && content_in(s.output) {
        let key = (s.sources[0].id, trim(s.output));
        if s.last_partial != Some(key) {
            (
                StateView { last_partial: Some(key), ..s },
                trans.push(make_result(provider, model, with_translation(s.sources[0], key.1), true)),
            )
        } else {
            (s, trans)
        }
    } else {
        (s, trans)
    }
}

/// The display snapshot: the unfinished source text, and, while no source
/// waits, the waiting and unfinished translation; empty after a flush.
pub open spec fn plain_snapshot(s: StateView, snapshot: LineView, flush: bool) -> LineView {
    if flush {
        with_translation(with_text(snapshot, Seq::empty()), Seq::empty())
    } else {
        with_translation(
            with_text(snapshot, display_append(Seq::empty(), s.input)),
            if s.sources.len() == 0 {
                display_append(display_fold(Seq::empty(), s.targets), s.output)
            } else {
                Seq::empty()
            },
        )
    }
}

/// Stores the new snapshot, and reports an event when a sentence finished, a
/// translation changed, or the snapshot changed.
pub open spec fn publish(
    s: StateView,
    snapshot: LineView,
    completed: Seq<ResultView>,
    trans: Seq<ResultView>,
) -> (StateView, Option<EventView>) {
    (
        StateView { snapshot: Some(snapshot), ..s },
        if completed.len() > 0 || trans.len() > 0 || s.snapshot != Some(snapshot) {
            Some(EventView { snapshot, completed, translations: trans })
        } else {
            None
        },
    )
}

/// One step of a session that pairs sentences in stream order; `ids` are the
/// ids given to the new source sentences.
pub open spec fn plain_collect(
    s: StateView,
    provider: Seq<char>,
    model: Seq<char>,
    gemini_live: bool,
    flush: bool,
    now: u64,
    ids: Seq<Seq<char>>,
) -> (StateView, Option<EventView>) {
    match s.snapshot {
        None => (s, None),
        Some(snapshot) => {
            let echo = echoes(s, snapshot, gemini_live);
            let a = plain_cut(s, snapshot, echo, provider, model, flush, now, ids);
            let b = plain_pair(a.0, provider, model);
            let settle = flush || (quiet(s.last_input, now) && quiet(s.last_output, now));
            let c = plain_tail(b.0, b.1, echo, settle, provider, model);
            let d = plain_finish(c.0, c.1, flush, provider, model);
            publish(d.0, plain_snapshot(d.0, snapshot, flush), a.1, d.1)
        },
    }
}

fn opt_copy(o: &Option<String>) -> (r: Option<String>)
    ensures
        opt_text(r) == opt_text(*o),
{
    match o {
        Some(s) => Some(s.clone()),
        None => None,
    }
}

/// Whether two lines are equal.
fn line_eq(a: &LiveTranslation, b: &LiveTranslation) -> (r: bool)
    ensures
        r == (a@ == b@),
{
    let lang = match (&a.language, &b.language) {
        (Some(x), Some(y)) => str_eq(x.as_str(), y.as_str()),
        (None, None) => true,
        _ => false,
    };
    str_eq(a.utterance_id.as_str(), b.utterance_id.as_str()) && str_eq(a.text.as_str(), b.text.as_str())
        && lang && str_eq(a.translation.as_str(), b.translation.as_str()) && str_eq(
        a.target_language.as_str(),
        b.target_language.as_str(),
    )
}

fn extend_lines(dst: &mut Vec<LiveTranslation>, src: &Vec<LiveTranslation>)
    ensures
        lines(final(dst)@) == lines(old(dst)@) + lines(src@),
{
    let ghost start = lines(dst@);
    let mut i: usize = 0;
    while i < src.len()
        invariant
            i <= src@.len(),
            lines(dst@) == start + lines(src@).take(i as int),
        decreases src@.len() - i,
    {
        let ghost prev = dst@;
        let c = copy_line(&src[i]);
        dst.push(c);
        assert(lines(dst@) =~= lines(prev).push(c@));
        assert(lines(src@).take(i + 1) =~= lines(src@).take(i as int).push(src@[i as int]@));
        assert(lines(dst@) =~= start + lines(src@).take(i + 1));
        i = i + 1;
    }
    assert(lines(src@).take(i as int) =~= lines(src@));
}

fn extend_texts(dst: &mut Vec<String>, src: &Vec<String>)
    ensures
        texts(final(dst)@) == texts(old(dst)@) + texts(src@),
{
    let ghost start = texts(dst@);
    let mut i: usize = 0;
    while i < src.len()
        invariant
            i <= src@.len(),
            texts(dst@) == start + texts(src@).take(i as int),
        decreases src@.len() - i,
    {
        let ghost prev = dst@;
        let c = src[i].clone();
        dst.push(c);
        assert(texts(dst@) =~= texts(prev).push(c@));
        assert(texts(src@).take(i + 1) =~= texts(src@).take(i as int).push(src@[i as int]@));
        assert(texts(dst@) =~= start + texts(src@).take(i + 1));
        i = i + 1;
    }
    assert(texts(src@).take(i as int) =~= texts(src@));
}

fn lines_from(v: &Vec<LiveTranslation>, k: usize) -> (r: Vec<LiveTranslation>)
    requires
        k <= v@.len(),
    ensures
        lines(r@) == lines(v@).subrange(k as int, v@.len() as int),
{
    let mut r: Vec<LiveTranslation> = Vec::new();
    let mut i = k;
    while i < v.len()
        invariant
            k <= i <= v@.len(),
            lines(r@) == lines(v@).subrange(k as int, i as int),
        decreases v@.len() - i,
    {
        r.push(copy_line(&v[i]));
        assert(lines(v@).subrange(k as int, i + 1) =~= lines(v@).subrange(k as int, i as int).push(
            v@[i as int]@,
        ));
        assert(lines(r@) =~= lines(v@).subrange(k as int, i + 1));
        i = i + 1;
    }
    r
}

fn texts_from(v: &Vec<String>, k: usize) -> (r: Vec<String>)
    requires
        k <= v@.len(),
    ensures
        texts(r@) == texts(v@).subrange(k as int, v@.len() as int),
{
    let mut r: Vec<String> = Vec::new();
    let mut i = k;
    while i < v.len()
        invariant
            k <= i <= v@.len(),
            texts(r@) == texts(v@).subrange(k as int, i as int),
        decreases v@.len() - i,
    {
        r.push(v[i].clone());
        assert(texts(v@).subrange(k as int, i + 1) =~= texts(v@).subrange(k as int, i as int).push(
            v@[i as int]@,
        ));
        assert(texts(r@) =~= texts(v@).subrange(k as int, i + 1));
        i = i + 1;
    }
    r
}

/// New source sentences under fresh ids, and their results.
fn fresh_sources(
    snapshot: &LiveTranslation,
    sentences: &Vec<String>,
    provider: &String,
    model: &String,
    pending: bool,
) -> (r: (Vec<LiveTranslation>, Vec<LiveTranslationResult>))
    ensures
        lines(r.0@) == fresh_lines(snapshot@, texts(sentences@), transcript_ids(results(r.1@))),
        results(r.1@) == results_of(provider@, model@, lines(r.0@), pending),
        fresh_ids(transcript_ids(results(r.1@)), "live-source-"@),
{
    let mut fresh: Vec<LiveTranslation> = Vec::new();
    let mut done: Vec<LiveTranslationResult> = Vec::new();
    let mut i: usize = 0;
    while i < sentences.len()
        invariant
            i <= sentences@.len(),
            fresh@.len() == i,
            done@.len() == i,
            forall|j: int|
                0 <= j < i ==> (#[trigger] fresh@[j])@ == fresh_line(snapshot@, sentences@[j]@, fresh@[j]@.id),
            forall|j: int| 0 <= j < i ==> (#[trigger] done@[j])@ == make_result(provider@, model@, fresh@[j]@, pending),
            fresh_ids(transcript_ids(results(done@)), "live-source-"@),
        decreases sentences@.len() - i,
    {
        let id = new_id("live-source-");
        let line = LiveTranslation {
            utterance_id: id,
            text: sentences[i].clone(),
            language: opt_copy(&snapshot.language),
            translation: String::new(),
            target_language: snapshot.target_language.clone(),
        };
        assert(line@.translation =~= Seq::<char>::empty());
        let copy = copy_line(&line);
        fresh.push(copy);
        let ghost before = transcript_ids(results(done@));
        done.push(result(provider, model, line, pending));
        assert(transcript_ids(results(done@)) =~= before.push(id@));
        i = i + 1;
    }
    let ghost ids = transcript_ids(results(done@));
    assert(lines(fresh@) =~= fresh_lines(snapshot@, texts(sentences@), ids)) by {
        assert forall|j: int| 0 <= j < fresh@.len() implies lines(fresh@)[j] == fresh_lines(
            snapshot@,
            texts(sentences@),
            ids,
        )[j] by {
            assert(fresh@[j]@.id == done@[j]@.transcript.id);
        }
    }
    assert(results(done@) =~= results_of(provider@, model@, lines(fresh@), pending));
    (fresh, done)
}

impl State {
    /// First step of `plain_collect`.
    fn cut_plain(
        &mut self,
        snapshot: &LiveTranslation,
        echo: bool,
        provider: &String,
        model: &String,
        flush: bool,
        now_ms: u64,
    ) -> (completed: Vec<LiveTranslationResult>)
        ensures
            (final(self)@, results(completed@)) == plain_cut(
                old(self)@,
                snapshot@,
                echo,
                provider@,
                model@,
                flush,
                now_ms,
                transcript_ids(results(completed@)),
            ),
            fresh_ids(transcript_ids(results(completed@)), "live-source-"@),
    {
        let li = self.last_input;
        let lo = self.last_output;
        let sentences = take_sentences(&mut self.input, li, now_ms, flush);
        let (fresh, completed) = fresh_sources(snapshot, &sentences, provider, model, !echo);
        if !echo {
            extend_lines(&mut self.sources, &fresh);
        }
        let targets = take_sentences(&mut self.output, lo, now_ms, flush);
        extend_texts(&mut self.targets, &targets);
        completed
    }

    /// Second step of `plain_collect`.
    fn pair_plain(&mut self, provider: &String, model: &String) -> (trans: Vec<LiveTranslationResult>)
        ensures
            (final(self)@, results(trans@)) == plain_pair(old(self)@, provider@, model@),
    {
        let k = if self.sources.len() < self.targets.len() {
            self.sources.len()
        } else {
            self.targets.len()
        };
        let ghost ps = Seq::new(
            k as nat,
            |i: int| with_translation(lines(self.sources@)[i], texts(self.targets@)[i]),
        );
        let mut trans: Vec<LiveTranslationResult> = Vec::new();
        let mut last: Option<LiveTranslation> = None;
        let mut i: usize = 0;
        while i < k
            invariant
                i <= k <= self.sources@.len(),
                k <= self.targets@.len(),
                ps == Seq::new(k as nat, |i: int| with_translation(lines(self.sources@)[i], texts(self.targets@)[i])),
                results(trans@) == results_of(provider@, model@, ps.take(i as int), false),
                i > 0 ==> opt_line(last) == Some(ps[i - 1]),
            decreases k - i,
        {
            let mut line = copy_line(&self.sources[i]);
            line.translation = self.targets[i].clone();
            assert(line@ == ps[i as int]);
            last = Some(copy_line(&line));
            let ghost before = results(trans@);
            trans.push(result(provider, model, line, false));
            assert(results(trans@) =~= before.push(make_result(provider@, model@, ps[i as int], false)));
            assert(ps.take(i + 1) =~= ps.take(i as int).push(ps[i as int]));
            i = i + 1;
        }
        assert(ps.take(k as int) =~= ps);
        if k > 0 {
            self.last_pair = last;
            self.last_partial = None;
        }
        self.sources = lines_from(&self.sources, k);
        self.targets = texts_from(&self.targets, k);
        trans
    }

    /// Third step of `plain_collect`.
    fn tail_plain(
        &mut self,
        trans: &mut Vec<LiveTranslationResult>,
        echo: bool,
        settle: bool,
        provider: &String,
        model: &String,
    )
        ensures
            (final(self)@, results(final(trans)@)) == plain_tail(
                old(self)@,
                results(old(trans)@),
                echo,
                settle,
                provider@,
                model@,
            ),
    {
        if self.sources.len() == 0 && is_blank(self.input.as_str()) && settle {
            match &self.last_pair {
                Some(lp) => {
                    if self.targets.len() > 0 {
                        let mut lp2 = copy_line(lp);
                        let mut i: usize = 0;
                        assert(texts(self.targets@).subrange(0, self.targets@.len() as int) =~= texts(
                            self.targets@,
                        ));
                        while i < self.targets.len()
                            invariant
                                i <= self.targets@.len(),
                                spaced(lp@.translation, texts(self.targets@)) == spaced(
                                    lp2.translation@,
                                    texts(self.targets@).subrange(i as int, self.targets@.len() as int),
                                ),
                                lp2@ == with_translation(lp@, lp2@.translation),
                            decreases self.targets@.len() - i,
                        {
                            let ghost rest = texts(self.targets@).subrange(i as int, self.targets@.len() as int);
                            assert(rest.drop_first() =~= texts(self.targets@).subrange(
                                i + 1,
                                self.targets@.len() as int,
                            ));
                            crate::text::push_char(&mut lp2.translation, ' ');
                            crate::text::push_str(&mut lp2.translation, self.targets[i].as_str());
                            i = i + 1;
                        }
                        assert(texts(self.targets@).subrange(i as int, self.targets@.len() as int)
                            =~= Seq::<Seq<char>>::empty());
                        let n = trans.len();
                        if n > 0 && str_eq(
                            trans[n - 1].transcript.utterance_id.as_str(),
                            lp.utterance_id.as_str(),
                        ) {
                            let ghost before = results(trans@);
                            trans.pop();
                            assert(results(trans@) =~= before.drop_last());
                        }
                        let ghost before = results(trans@);
                        let kept = copy_line(&lp2);
                        trans.push(result(provider, model, lp2, false));
                        assert(results(trans@) =~= before.push(make_result(provider@, model@, kept@, false)));
                        self.last_pair = Some(kept);
                        self.targets = Vec::new();
                        assert(texts(self.targets@) =~= Seq::<Seq<char>>::empty());
                    }
                },
                None => {
                    if echo {
                        self.targets = Vec::new();
                        assert(texts(self.targets@) =~= Seq::<Seq<char>>::empty());
                    }
                },
            }
        }
    }

    /// Fourth step of `plain_collect`.
    fn finish_plain(
        &mut self,
        trans: &mut Vec<LiveTranslationResult>,
        flush: bool,
        provider: &String,
        model: &String,
    )
        ensures
            (final(self)@, results(final(trans)@)) == plain_finish(
                old(self)@,
                results(old(trans)@),
                flush,
                provider@,
                model@,
            ),
    {
        if flush {
            let ghost start = results(trans@);
            let mut i: usize = 0;
            while i < self.sources.len()
                invariant
                    i <= self.sources@.len(),
                    results(trans@) == start + results_of(provider@, model@, lines(self.sources@).take(i as int), false),
                decreases self.sources@.len() - i,
            {
                let ghost before = results(trans@);
                let line = copy_line(&self.sources[i]);
                trans.push(result(provider, model, line, false));
                assert(results(trans@) =~= before.push(make_result(provider@, model@, self.sources@[i as int]@, false)));
                assert(lines(self.sources@).take(i + 1) =~= lines(self.sources@).take(i as int).push(
                    self.sources@[i as int]@,
                ));
                assert(results(trans@) =~= start + results_of(provider@, model@, lines(self.sources@).take(i + 1), false));
                i = i + 1;
            }
            assert(lines(self.sources@).take(i as int) =~= lines(self.sources@));
            self.sources = Vec::new();
            assert(lines(self.sources@) =~= Seq::<LineView>::empty());
            self.last_partial = None;
        } else if self.sources.len() > 0 && has_content(self.output.as_str()) {
            let key_id = self.sources[0].utterance_id.clone();
            let key_text = trim_str(self.output.as_str());
            let seen = match &self.last_partial {
                Some(p) => str_eq(p.0.as_str(), key_id.as_str()) && str_eq(p.1.as_str(), key_text.as_str()),
                None => false,
            };
            if !seen {
                let mut line = copy_line(&self.sources[0]);
                line.translation = key_text.clone();
                let ghost before = results(trans@);
                let ghost lv = line@;
                trans.push(result(provider, model, line, true));
                assert(results(trans@) =~= before.push(make_result(provider@, model@, lv, true)));
                self.last_partial = Some((key_id, key_text));
            }
        }
    }
}

fn quiet_since(last: Option<u64>, now: u64) -> (r: bool)
    ensures
        r == quiet(last, now),
{
    match last {
        Some(t) => (if now >= t {
            now - t
        } else {
            0
        }) >= SOURCE_IDLE_DELAY_MS,
        None => true,
    }
}

impl State {
    /// The snapshot of `plain_snapshot`.
    fn snapshot_plain(&self, snapshot: &LiveTranslation, flush: bool) -> (r: LiveTranslation)
        ensures
            r@ == plain_snapshot(self@, snapshot@, flush),
    {
        let mut snap = copy_line(snapshot);
        snap.text = String::new();
        snap.translation = String::new();
        if !flush {
            append_display_text(&mut snap.text, self.input.as_str());
            if self.sources.len() == 0 {
                let mut i: usize = 0;
                assert(texts(self.targets@).subrange(0, self.targets@.len() as int) =~= texts(self.targets@));
                while i < self.targets.len()
                    invariant
                        i <= self.targets@.len(),
                        display_fold(Seq::empty(), texts(self.targets@)) == display_fold(
                            snap.translation@,
                            texts(self.targets@).subrange(i as int, self.targets@.len() as int),
                        ),
                        snap@ == with_translation(
                            with_text(snapshot@, display_append(Seq::empty(), self.input@)),
                            snap.translation@,
                        ),
                    decreases self.targets@.len() - i,
                {
                    let ghost rest = texts(self.targets@).subrange(i as int, self.targets@.len() as int);
                    assert(rest.drop_first() =~= texts(self.targets@).subrange(i + 1, self.targets@.len() as int));
                    append_display_text(&mut snap.translation, self.targets[i].as_str());
                    i = i + 1;
                }
                assert(texts(self.targets@).subrange(i as int, self.targets@.len() as int)
                    =~= Seq::<Seq<char>>::empty());
                append_display_text(&mut snap.translation, self.output.as_str());
            }
        }
        snap
    }

    /// Stores the snapshot and builds the event of `publish`.
    fn publish(
        &mut self,
        snapshot: LiveTranslation,
        completed: Vec<LiveTranslationResult>,
        trans: Vec<LiveTranslationResult>,
    ) -> (r: Option<CloudEvent>)
        ensures
            (final(self)@, event_of(r)) == publish(old(self)@, snapshot@, results(completed@), results(trans@)),
            r matches Some(e) ==> e is LiveTranslation,
            r matches Some(CloudEvent::LiveTranslation { completed: c, .. }) ==> c == completed,
    {
        let changed = match &self.snapshot {
            Some(s) => !line_eq(s, &snapshot),
            None => true,
        };
        self.snapshot = Some(copy_line(&snapshot));
        if completed.len() > 0 || trans.len() > 0 || changed {
            Some(CloudEvent::LiveTranslation { snapshot, completed, translations: trans })
        } else {
            None
        }
    }

    /// One step of a session that pairs sentences in stream order.
    fn collect_plain(
        &mut self,
        provider: &String,
        model: &String,
        gemini_live: bool,
        flush: bool,
        now_ms: u64,
    ) -> (r: Option<CloudEvent>)
        ensures
            (final(self)@, event_of(r)) == plain_collect(
                old(self)@,
                provider@,
                model@,
                gemini_live,
                flush,
                now_ms,
                event_ids(r),
            ),
            r matches Some(e) ==> e is LiveTranslation,
            fresh_ids(event_ids(r), "live-source-"@),
    {
        let snapshot = match &self.snapshot {
            Some(s) => copy_line(s),
            None => return None,
        };
        let echo = gemini_live && match &self.language {
            Some(l) => same_translation_language(l.as_str(), snapshot.target_language.as_str()),
            None => false,
        };
        let settle = flush || (quiet_since(self.last_input, now_ms) && quiet_since(self.last_output, now_ms));
        let completed = self.cut_plain(&snapshot, echo, provider, model, flush, now_ms);
        let ghost ids = transcript_ids(results(completed@));
        let mut trans = self.pair_plain(provider, model);
        self.tail_plain(&mut trans, echo, settle, provider, model);
        self.finish_plain(&mut trans, flush, provider, model);
        let snap = self.snapshot_plain(&snapshot, flush);
        let ghost n = completed@.len();
        let r = self.publish(snap, completed, trans);
        assert(event_ids(r) =~= ids) by {
            if r is None {
                assert(n == 0);
            }
        }
        r
    }
}

/// First step of a timed step: as `plain_cut`, except that every new source
/// waits for its translation and a target sentence ending the buffer waits;
/// `idle` cuts the target remainder.
pub open spec fn timed_cut(
    s: StateView,
    snapshot: LineView,
    provider: Seq<char>,
    model: Seq<char>,
    flush: bool,
    idle: bool,
    now: u64,
    ids: Seq<Seq<char>>,
) -> (StateView, Seq<ResultView>) {
    let src = stream_sentences(s.input, s.last_input, now, flush);
    let fresh = fresh_lines(snapshot, src.0, ids);
    let tgt = split_sentences(s.output, false, flush || idle);
    (
        StateView { input: src.1, output: tgt.1, sources: s.sources + fresh, targets: s.targets + tgt.0, ..s },
        results_of(provider, model, fresh, true),
    )
}

/// A settled window: with as many targets as sources they pair one to one;
/// without targets the sources are reported untranslated; otherwise all
/// sources form one row with all targets as its translation.
pub open spec fn timed_settle(s: StateView, provider: Seq<char>, model: Seq<char>) -> (StateView, Seq<ResultView>) {
    let cleared = StateView { previews: Some(Seq::empty()), sources: Seq::empty(), targets: Seq::empty(), ..s };
    if s.sources.len() == s.targets.len() {
        (
            cleared,
            results_of(
                provider,
                model,
                Seq::new(s.sources.len(), |i: int| with_translation(s.sources[i], s.targets[i])),
                false,
            ),
        )
    } else if s.targets.len() == 0 {
        (cleared, results_of(provider, model, s.sources, false))
    } else {
        let grouped = with_translation(
            with_text(s.sources[0], join_from(Seq::empty(), s.sources.map_values(|l: LineView| l.text))),
            join_from(Seq::empty(), s.targets),
        );
        (
            cleared,
            seq![
                ResultView {
                    source_ids: s.sources.map_values(|l: LineView| l.id),
                    ..make_result(provider, model, grouped, false)
                },
            ],
        )
    }
}

/// The waiting targets, with the unfinished translation when it has content.
pub open spec fn target_list(s: StateView) -> Seq<Seq<char>> {
    if content_in(s.output) {
        s.targets.push(trim(s.output))
    } else {
        s.targets
    }
}

/// Previews while a window is open: with exactly one waiting source, the
/// first target is previewed on it, and so are the later ones unless new
/// source text is coming in, in which case they form the live line; with
/// any other number of sources, all targets form the live line.
pub open spec fn preview_pairs(s: StateView) -> (Seq<(Seq<char>, Seq<char>)>, Seq<char>) {
    let tl = target_list(s);
    if s.sources.len() != 1 || tl.len() == 0 {
        (Seq::empty(), join_from(Seq::empty(), tl))
    } else if content_in(s.input) {
        (seq![(s.sources[0].id, tl[0])], join_from(Seq::empty(), tl.drop_first()))
    } else {
        (seq![(s.sources[0].id, join_from(tl[0], tl.drop_first()))], Seq::empty())
    }
}

/// The first source with the given id.
pub open spec fn find_source(sources: Seq<LineView>, id: Seq<char>) -> Option<LineView>
    decreases sources.len(),
{
    if sources.len() == 0 {
        None
    } else if sources[0].id == id {
        Some(sources[0])
    } else {
        find_source(sources.drop_first(), id)
    }
}

pub open spec fn has_id(pv: Seq<(Seq<char>, Seq<char>)>, id: Seq<char>) -> bool {
    exists|j: int| 0 <= j < pv.len() && (#[trigger] pv[j]).0 == id
}

pub open spec fn has_pair(pv: Seq<(Seq<char>, Seq<char>)>, p: (Seq<char>, Seq<char>)) -> bool {
    exists|j: int| 0 <= j < pv.len() && #[trigger] pv[j] == p
}

/// Previews no longer shown are withdrawn from their source rows.
pub open spec fn retractions(
    old_pv: Seq<(Seq<char>, Seq<char>)>,
    new_pv: Seq<(Seq<char>, Seq<char>)>,
    sources: Seq<LineView>,
    provider: Seq<char>,
    model: Seq<char>,
) -> Seq<ResultView>
    decreases old_pv.len(),
{
    if old_pv.len() == 0 {
        Seq::empty()
    } else {
        let rest = retractions(old_pv.drop_first(), new_pv, sources, provider, model);
        if has_id(new_pv, old_pv[0].0) {
            rest
        } else {
            match find_source(sources, old_pv[0].0) {
                Some(src) => seq![make_result(provider, model, with_translation(src, Seq::empty()), true)] + rest,
                None => rest,
            }
        }
    }
}

/// New or changed previews are shown on their source rows.
pub open spec fn preview_updates(
    old_pv: Seq<(Seq<char>, Seq<char>)>,
    new_pv: Seq<(Seq<char>, Seq<char>)>,
    sources: Seq<LineView>,
    provider: Seq<char>,
    model: Seq<char>,
) -> Seq<ResultView>
    decreases new_pv.len(),
{
    if new_pv.len() == 0 {
        Seq::empty()
    } else {
        let rest = preview_updates(old_pv, new_pv.drop_first(), sources, provider, model);
        if has_pair(old_pv, new_pv[0]) {
            rest
        } else {
            match find_source(sources, new_pv[0].0) {
                Some(src) => seq![make_result(provider, model, with_translation(src, new_pv[0].1), true)] + rest,
                None => rest,
            }
        }
    }
}

/// The display snapshot of a timed step: the unfinished source text and the
/// live line; empty after a flush.
pub open spec fn timed_snapshot(s: StateView, snapshot: LineView, flush: bool, live: Seq<char>) -> LineView {
    if flush {
        with_translation(with_text(snapshot, Seq::empty()), Seq::empty())
    } else {
        with_translation(
            with_text(snapshot, display_append(Seq::empty(), s.input)),
            display_append(Seq::empty(), live),
        )
    }
}

/// One step of a session that aligns sentences by time windows: a window
/// settles when the streams are flushed or idle with targets waiting; until
/// then translations are only previewed.
pub open spec fn timed_collect(
    s: StateView,
    provider: Seq<char>,
    model: Seq<char>,
    flush: bool,
    now: u64,
    ids: Seq<Seq<char>>,
) -> (StateView, Option<EventView>) {
    match s.snapshot {
        None => (s, None),
        Some(snapshot) => {
            let pv = match s.previews {
                Some(v) => v,
                None => Seq::empty(),
            };
            let idle = quiet(s.last_input, now) && quiet(s.last_output, now);
            let a = timed_cut(s, snapshot, provider, model, flush, idle, now, ids);
            let t = a.0;
            if (flush || (idle && t.targets.len() > 0)) && t.sources.len() > 0 {
                let b = timed_settle(t, provider, model);
                publish(b.0, timed_snapshot(b.0, snapshot, flush, Seq::empty()), a.1, b.1)
            } else {
                let pp = preview_pairs(t);
                let b = StateView { previews: Some(pp.0), ..t };
                publish(
                    b,
                    timed_snapshot(b, snapshot, flush, pp.1),
                    a.1,
                    retractions(pv, pp.0, t.sources, provider, model) + preview_updates(
                        pv,
                        pp.0,
                        t.sources,
                        provider,
                        model,
                    ),
                )
            }
        },
    }
}

fn copy_pairs(v: &Vec<(String, String)>) -> (r: Vec<(String, String)>)
    ensures
        pairs(r@) == pairs(v@),
{
    let mut r: Vec<(String, String)> = Vec::new();
    let mut i: usize = 0;
    while i < v.len()
        invariant
            i <= v@.len(),
            pairs(r@) == pairs(v@).take(i as int),
        decreases v@.len() - i,
    {
        let ghost prev = r@;
        let p = (v[i].0.clone(), v[i].1.clone());
        r.push(p);
        assert(pairs(r@) =~= pairs(prev).push((p.0@, p.1@)));
        assert(pairs(v@).take(i + 1) =~= pairs(v@).take(i as int).push((v@[i as int].0@, v@[i as int].1@)));
        i = i + 1;
    }
    assert(pairs(v@).take(i as int) =~= pairs(v@));
    r
}

/// Index of the first source with the given id.
fn find_source_index(sources: &Vec<LiveTranslation>, id: &str) -> (r: Option<usize>)
    ensures
        match r {
            Some(i) => i < sources@.len() && find_source(lines(sources@), id@) == Some(sources@[i as int]@),
            None => find_source(lines(sources@), id@).is_none(),
        },
{
    let mut i: usize = 0;
    assert(lines(sources@).subrange(0, sources@.len() as int) =~= lines(sources@));
    while i < sources.len()
        invariant
            i <= sources@.len(),
            find_source(lines(sources@), id@) == find_source(
                lines(sources@).subrange(i as int, sources@.len() as int),
                id@,
            ),
        decreases sources@.len() - i,
    {
        let ghost rest = lines(sources@).subrange(i as int, sources@.len() as int);
        assert(rest.drop_first() =~= lines(sources@).subrange(i + 1, sources@.len() as int));
        if str_eq(sources[i].utterance_id.as_str(), id) {
            return Some(i);
        }
        i = i + 1;
    }
    None
}

fn contains_id(pv: &Vec<(String, String)>, id: &str) -> (r: bool)
    ensures
        r == has_id(pairs(pv@), id@),
{
    let mut i: usize = 0;
    while i < pv.len()
        invariant
            i <= pv@.len(),
            forall|j: int| 0 <= j < i ==> (#[trigger] pairs(pv@)[j]).0 != id@,
        decreases pv@.len() - i,
    {
        if str_eq(pv[i].0.as_str(), id) {
            assert(pairs(pv@)[i as int].0 == id@);
            return true;
        }
        i = i + 1;
    }
    false
}

fn contains_pair(pv: &Vec<(String, String)>, id: &str, text: &str) -> (r: bool)
    ensures
        r == has_pair(pairs(pv@), (id@, text@)),
{
    let mut i: usize = 0;
    while i < pv.len()
        invariant
            i <= pv@.len(),
            forall|j: int| 0 <= j < i ==> #[trigger] pairs(pv@)[j] != (id@, text@),
        decreases pv@.len() - i,
    {
        if str_eq(pv[i].0.as_str(), id) && str_eq(pv[i].1.as_str(), text) {
            assert(pairs(pv@)[i as int] == (id@, text@));
            return true;
        }
        i = i + 1;
    }
    false
}

impl State {
    /// First step of `timed_collect`.
    fn cut_timed(
        &mut self,
        snapshot: &LiveTranslation,
        provider: &String,
        model: &String,
        flush: bool,
        idle: bool,
        now_ms: u64,
    ) -> (completed: Vec<LiveTranslationResult>)
        ensures
            (final(self)@, results(completed@)) == timed_cut(
                old(self)@,
                snapshot@,
                provider@,
                model@,
                flush,
                idle,
                now_ms,
                transcript_ids(results(completed@)),
            ),
            fresh_ids(transcript_ids(results(completed@)), "live-source-"@),
    {
        let li = self.last_input;
        let sentences = take_sentences(&mut self.input, li, now_ms, flush);
        let (fresh, completed) = fresh_sources(snapshot, &sentences, provider, model, true);
        extend_lines(&mut self.sources, &fresh);
        let targets = take_targets(&mut self.output, flush || idle);
        extend_texts(&mut self.targets, &targets);
        completed
    }

    /// A settled window, as `timed_settle` says.
    fn settle_timed(&mut self, provider: &String, model: &String) -> (trans: Vec<LiveTranslationResult>)
        requires
            old(self).sources@.len() > 0,
        ensures
            (final(self)@, results(trans@)) == timed_settle(old(self)@, provider@, model@),
    {
        let ghost s = self@;
        let mut trans: Vec<LiveTranslationResult> = Vec::new();
        if self.sources.len() == self.targets.len() {
            let ghost ps = Seq::new(s.sources.len(), |i: int| with_translation(s.sources[i], s.targets[i]));
            let mut i: usize = 0;
            while i < self.sources.len()
                invariant
                    self@ == s,
                    self.sources@.len() == self.targets@.len(),
                    i <= self.sources@.len(),
                    ps == Seq::new(s.sources.len(), |i: int| with_translation(s.sources[i], s.targets[i])),
                    results(trans@) == results_of(provider@, model@, ps.take(i as int), false),
                decreases self.sources@.len() - i,
            {
                let mut line = copy_line(&self.sources[i]);
                line.translation = self.targets[i].clone();
                assert(line@ == ps[i as int]);
                let ghost before = results(trans@);
                trans.push(result(provider, model, line, false));
                assert(results(trans@) =~= before.push(make_result(provider@, model@, ps[i as int], false)));
                assert(ps.take(i + 1) =~= ps.take(i as int).push(ps[i as int]));
                i = i + 1;
            }
            assert(ps.take(i as int) =~= ps);
        } else if self.targets.len() == 0 {
            let mut i: usize = 0;
            while i < self.sources.len()
                invariant
                    self@ == s,
                    i <= self.sources@.len(),
                    results(trans@) == results_of(provider@, model@, s.sources.take(i as int), false),
                decreases self.sources@.len() - i,
            {
                let ghost before = results(trans@);
                let line = copy_line(&self.sources[i]);
                trans.push(result(provider, model, line, false));
                assert(results(trans@) =~= before.push(make_result(provider@, model@, s.sources[i as int], false)));
                assert(s.sources.take(i + 1) =~= s.sources.take(i as int).push(s.sources[i as int]));
                i = i + 1;
            }
            assert(s.sources.take(i as int) =~= s.sources);
        } else {
            let mut ids: Vec<String> = Vec::new();
            let mut src_texts: Vec<String> = Vec::new();
            let mut i: usize = 0;
            while i < self.sources.len()
                invariant
                    self@ == s,
                    i <= self.sources@.len(),
                    texts(ids@) == s.sources.take(i as int).map_values(|l: LineView| l.id),
                    texts(src_texts@) == s.sources.take(i as int).map_values(|l: LineView| l.text),
                decreases self.sources@.len() - i,
            {
                let ghost (pi, pt) = (ids@, src_texts@);
                let a = self.sources[i].utterance_id.clone();
                let b = self.sources[i].text.clone();
                ids.push(a);
                src_texts.push(b);
                assert(texts(ids@) =~= texts(pi).push(a@));
                assert(texts(src_texts@) =~= texts(pt).push(b@));
                assert(s.sources.take(i + 1) =~= s.sources.take(i as int).push(s.sources[i as int]));
                assert(s.sources.take(i + 1).map_values(|l: LineView| l.id) =~= s.sources.take(i as int).map_values(
                    |l: LineView| l.id,
                ).push(s.sources[i as int].id));
                assert(s.sources.take(i + 1).map_values(|l: LineView| l.text) =~= s.sources.take(
                    i as int,
                ).map_values(|l: LineView| l.text).push(s.sources[i as int].text));
                i = i + 1;
            }
            assert(s.sources.take(i as int) =~= s.sources);
            assert(texts(ids@) =~= s.sources.map_values(|l: LineView| l.id));
            assert(texts(src_texts@) =~= s.sources.map_values(|l: LineView| l.text));
            let mut grouped = copy_line(&self.sources[0]);
            grouped.text = join_sentences(&src_texts);
            grouped.translation = join_sentences(&self.targets);
            let mut r = result(provider, model, grouped, false);
            r.source_utterance_ids = ids;
            trans.push(r);
            assert(results(trans@) =~= seq![r@]);
        }
        self.sources = Vec::new();
        self.targets = Vec::new();
        let empty: Vec<(String, String)> = Vec::new();
        assert(pairs(empty@) =~= Seq::<(Seq<char>, Seq<char>)>::empty());
        self.timing = Some(Timing { previews: empty });
        assert(lines(self.sources@) =~= Seq::<LineView>::empty());
        assert(texts(self.targets@) =~= Seq::<Seq<char>>::empty());
        trans
    }

    /// The previews and the live line of `preview_pairs`.
    fn previews_now(&self) -> (r: (Vec<(String, String)>, String))
        ensures
            (pairs(r.0@), r.1@) == preview_pairs(self@),
    {
        let mut tl: Vec<String> = Vec::new();
        extend_texts(&mut tl, &self.targets);
        if has_content(self.output.as_str()) {
            let ghost prev = tl@;
            let t = trim_str(self.output.as_str());
            tl.push(t);
            assert(texts(tl@) =~= texts(prev).push(t@));
        }
        assert(texts(tl@) =~= target_list(self@));
        let mut previews: Vec<(String, String)> = Vec::new();
        if self.sources.len() != 1 || tl.len() == 0 {
            assert(pairs(previews@) =~= Seq::<(Seq<char>, Seq<char>)>::empty());
            let live = join_sentences(&tl);
            (previews, live)
        } else if has_content(self.input.as_str()) {
            let mut live = String::new();
            assert(live@ =~= Seq::<char>::empty());
            join_rest(&mut live, &tl, 1);
            assert(texts(tl@).subrange(1, tl@.len() as int) =~= texts(tl@).drop_first());
            let p = (self.sources[0].utterance_id.clone(), tl[0].clone());
            previews.push(p);
            assert(pairs(previews@) =~= seq![(p.0@, p.1@)]);
            (previews, live)
        } else {
            let mut text = tl[0].clone();
            join_rest(&mut text, &tl, 1);
            assert(texts(tl@).subrange(1, tl@.len() as int) =~= texts(tl@).drop_first());
            let p = (self.sources[0].utterance_id.clone(), text);
            previews.push(p);
            assert(pairs(previews@) =~= seq![(p.0@, p.1@)]);
            (previews, String::new())
        }
    }
}

/// Appends the results of `retractions`.
fn retract(
    old_pv: &Vec<(String, String)>,
    new_pv: &Vec<(String, String)>,
    sources: &Vec<LiveTranslation>,
    provider: &String,
    model: &String,
    trans: &mut Vec<LiveTranslationResult>,
)
    ensures
        results(final(trans)@) == results(old(trans)@) + retractions(
            pairs(old_pv@),
            pairs(new_pv@),
            lines(sources@),
            provider@,
            model@,
        ),
{
    let ghost opv = pairs(old_pv@);
    let ghost npv = pairs(new_pv@);
    let ghost src = lines(sources@);
    let mut i: usize = 0;
    assert(opv.subrange(0, opv.len() as int) =~= opv);
    assert(results(old(trans)@) + retractions(opv, npv, src, provider@, model@) =~= results(trans@) + retractions(
        opv.subrange(0, opv.len() as int),
        npv,
        src,
        provider@,
        model@,
    ));
    while i < old_pv.len()
        invariant
            i <= old_pv@.len(),
            opv == pairs(old_pv@),
            npv == pairs(new_pv@),
            src == lines(sources@),
            results(old(trans)@) + retractions(opv, npv, src, provider@, model@) == results(trans@)
                + retractions(opv.subrange(i as int, opv.len() as int), npv, src, provider@, model@),
        decreases old_pv@.len() - i,
    {
        let ghost rest = opv.subrange(i as int, opv.len() as int);
        let ghost next = opv.subrange(i + 1, opv.len() as int);
        assert(rest.drop_first() =~= next);
        assert(rest[0] == opv[i as int]);
        let ghost before = results(trans@);
        if !contains_id(new_pv, old_pv[i].0.as_str()) {
            match find_source_index(sources, old_pv[i].0.as_str()) {
                Some(j) => {
                    let mut line = copy_line(&sources[j]);
                    line.translation = String::new();
                    let ghost lv = line@;
                    assert(lv == with_translation(src[j as int], Seq::empty()));
                    trans.push(result(provider, model, line, true));
                    let ghost x = make_result(provider@, model@, lv, true);
                    assert(results(trans@) =~= before.push(x));
                    assert(before.push(x) + retractions(next, npv, src, provider@, model@) =~= before + (seq![x]
                        + retractions(next, npv, src, provider@, model@)));
                },
                None => {},
            }
        }
        i = i + 1;
    }
    assert(opv.subrange(i as int, opv.len() as int) =~= Seq::<(Seq<char>, Seq<char>)>::empty());
    assert(results(trans@) + Seq::<ResultView>::empty() =~= results(trans@));
}

/// Appends the results of `preview_updates`.
fn show_previews(
    old_pv: &Vec<(String, String)>,
    new_pv: &Vec<(String, String)>,
    sources: &Vec<LiveTranslation>,
    provider: &String,
    model: &String,
    trans: &mut Vec<LiveTranslationResult>,
)
    ensures
        results(final(trans)@) == results(old(trans)@) + preview_updates(
            pairs(old_pv@),
            pairs(new_pv@),
            lines(sources@),
            provider@,
            model@,
        ),
{
    let ghost opv = pairs(old_pv@);
    let ghost npv = pairs(new_pv@);
    let ghost src = lines(sources@);
    let mut i: usize = 0;
    assert(npv.subrange(0, npv.len() as int) =~= npv);
    while i < new_pv.len()
        invariant
            i <= new_pv@.len(),
            opv == pairs(old_pv@),
            npv == pairs(new_pv@),
            src == lines(sources@),
            results(old(trans)@) + preview_updates(opv, npv, src, provider@, model@) == results(trans@)
                + preview_updates(opv, npv.subrange(i as int, npv.len() as int), src, provider@, model@),
        decreases new_pv@.len() - i,
    {
        let ghost rest = npv.subrange(i as int, npv.len() as int);
        let ghost next = npv.subrange(i + 1, npv.len() as int);
        assert(rest.drop_first() =~= next);
        assert(rest[0] == npv[i as int]);
        let ghost before = results(trans@);
        if !contains_pair(old_pv, new_pv[i].0.as_str(), new_pv[i].1.as_str()) {
            match find_source_index(sources, new_pv[i].0.as_str()) {
                Some(j) => {
                    let mut line = copy_line(&sources[j]);
                    line.translation = new_pv[i].1.clone();
                    let ghost lv = line@;
                    assert(lv == with_translation(src[j as int], npv[i as int].1));
                    trans.push(result(provider, model, line, true));
                    let ghost x = make_result(provider@, model@, lv, true);
                    assert(results(trans@) =~= before.push(x));
                    assert(before.push(x) + preview_updates(opv, next, src, provider@, model@) =~= before + (seq![
                        x,
                    ] + preview_updates(opv, next, src, provider@, model@)));
                },
                None => {},
            }
        }
        i = i + 1;
    }
    assert(npv.subrange(i as int, npv.len() as int) =~= Seq::<(Seq<char>, Seq<char>)>::empty());
    assert(results(trans@) + Seq::<ResultView>::empty() =~= results(trans@));
}

impl State {
    /// The snapshot of `timed_snapshot`.
    fn snapshot_timed(&self, snapshot: &LiveTranslation, flush: bool, live: &String) -> (r: LiveTranslation)
        ensures
            r@ == timed_snapshot(self@, snapshot@, flush, live@),
    {
        let mut snap = copy_line(snapshot);
        snap.text = String::new();
        snap.translation = String::new();
        if !flush {
            append_display_text(&mut snap.text, self.input.as_str());
            append_display_text(&mut snap.translation, live.as_str());
        }
        snap
    }

    /// One step of a session that aligns sentences by time windows.
    fn collect_timed(&mut self, provider: &String, model: &String, flush: bool, now_ms: u64) -> (r: Option<
        CloudEvent,
    >)
        ensures
            (final(self)@, event_of(r)) == timed_collect(old(self)@, provider@, model@, flush, now_ms, event_ids(r)),
            r matches Some(e) ==> e is LiveTranslation,
            fresh_ids(event_ids(r), "live-source-"@),
    {
        let snapshot = match &self.snapshot {
            Some(s) => copy_line(s),
            None => return None,
        };
        let old_pv = match &self.timing {
            Some(t) => copy_pairs(&t.previews),
            None => {
                let e: Vec<(String, String)> = Vec::new();
                assert(pairs(e@) =~= Seq::<(Seq<char>, Seq<char>)>::empty());
                e
            },
        };
        let idle = quiet_since(self.last_input, now_ms) && quiet_since(self.last_output, now_ms);
        let completed = self.cut_timed(&snapshot, provider, model, flush, idle, now_ms);
        let ghost ids = transcript_ids(results(completed@));
        let ghost n = completed@.len();
        let r = if (flush || (idle && self.targets.len() > 0)) && self.sources.len() > 0 {
            let trans = self.settle_timed(provider, model);
            let live = String::new();
            assert(live@ =~= Seq::<char>::empty());
            let snap = self.snapshot_timed(&snapshot, flush, &live);
            self.publish(snap, completed, trans)
        } else {
            let (previews, live) = self.previews_now();
            let mut trans: Vec<LiveTranslationResult> = Vec::new();
            assert(results(trans@) =~= Seq::<ResultView>::empty());
            retract(&old_pv, &previews, &self.sources, provider, model, &mut trans);
            show_previews(&old_pv, &previews, &self.sources, provider, model, &mut trans);
            assert(Seq::<ResultView>::empty() + retractions(
                pairs(old_pv@),
                pairs(previews@),
                lines(self.sources@),
                provider@,
                model@,
            ) =~= retractions(pairs(old_pv@), pairs(previews@), lines(self.sources@), provider@, model@));
            self.timing = Some(Timing { previews });
            let snap = self.snapshot_timed(&snapshot, flush, &live);
            self.publish(snap, completed, trans)
        };
        assert(event_ids(r) =~= ids) by {
            if r is None {
                assert(n == 0);
            }
        }
        r
    }
}

/// Most bytes either stream may hold, waiting text included.
pub const MAX_TRANSCRIPT_BYTES: usize = 65536;

/// The provider that results of a session under `config` name.
pub open spec fn result_provider(config: AsrConfig) -> Seq<char> {
    provider_id(service_provider(service_from(config.backend@).unwrap()))
}

/// The model that results of a session under `config` name.
pub open spec fn result_model(config: AsrConfig) -> Seq<char> {
    lookup(config.service_settings@, config.backend@).unwrap().0
}

/// Whether `config` names a recognition service that has settings.
pub open spec fn serves(config: AsrConfig) -> bool {
    &&& service_from(config.backend@).is_some()
    &&& config.service_settings.wf()
    &&& lookup(config.service_settings@, config.backend@).is_some()
}

/// One step of a session: timed when the state has a time window, else in
/// stream order; `ids` are the ids given to new source sentences.
pub open spec fn step(s: StateView, config: AsrConfig, flush: bool, now: u64, ids: Seq<Seq<char>>) -> (
    StateView,
    Option<EventView>,
) {
    if s.previews.is_some() {
        timed_collect(s, result_provider(config), result_model(config), flush, now, ids)
    } else {
        plain_collect(
            s,
            result_provider(config),
            result_model(config),
            config.backend@ == SERVICE_GEMINI_LIVE_TRANSLATE@,
            flush,
            now,
            ids,
        )
    }
}

/// The state of a session that has received nothing.
pub open spec fn empty_state() -> StateView {
    StateView {
        snapshot: None,
        input: Seq::empty(),
        output: Seq::empty(),
        sources: Seq::empty(),
        targets: Seq::empty(),
        last_pair: None,
        last_partial: None,
        language: None,
        last_input: None,
        last_output: None,
        previews: None,
    }
}

/// UTF-8 length of a text.
pub open spec fn bytes(t: Seq<char>) -> int {
    vstd::utf8::encode_utf8(t).len() as int
}

pub open spec fn text_bytes(ls: Seq<LineView>) -> int
    decreases ls.len(),
{
    if ls.len() == 0 {
        0
    } else {
        text_bytes(ls.drop_last()) + bytes(ls.last().text)
    }
}

pub open spec fn target_bytes(ts: Seq<Seq<char>>) -> int
    decreases ts.len(),
{
    if ts.len() == 0 {
        0
    } else {
        target_bytes(ts.drop_last()) + bytes(ts.last())
    }
}

/// Whether appending would let a stream hold more than `MAX_TRANSCRIPT_BYTES`.
pub open spec fn over_limit(s: StateView, text: Seq<char>, translation: Seq<char>) -> bool {
    ||| bytes(s.input) + text_bytes(s.sources) + bytes(text) > MAX_TRANSCRIPT_BYTES
    ||| bytes(s.output) + target_bytes(s.targets) + (match s.last_pair {
        Some(l) => bytes(l.translation),
        None => 0,
    }) + bytes(translation) > MAX_TRANSCRIPT_BYTES
}

/// The state once new text is appended: the snapshot is created for
/// `target`, and takes the id `id` while it shows nothing; the reported
/// language is kept; each stream that grew is stamped with `now`.
pub open spec fn appended(
    s: StateView,
    text: Seq<char>,
    translation: Seq<char>,
    language: Option<Seq<char>>,
    now: u64,
    target: Seq<char>,
    id: Seq<char>,
) -> StateView {
    let lang = match language {
        Some(l) => Some(l),
        None => s.language,
    };
    let snap0 = match s.snapshot {
        Some(x) => x,
        None => LineView {
            id,
            text: Seq::empty(),
            language: None,
            translation: Seq::empty(),
            target_language: target,
        },
    };
    let snap1 = if snap0.text.len() == 0 && snap0.translation.len() == 0 {
        with_id(snap0, id)
    } else {
        snap0
    };
    StateView {
        language: lang,
        snapshot: Some(LineView { language: lang, ..snap1 }),
        input: s.input + text,
        output: s.output + translation,
        last_input: if text.len() > 0 {
            Some(now)
        } else {
            s.last_input
        },
        last_output: if translation.len() > 0 {
            Some(now)
        } else {
            s.last_output
        },
        ..s
    }
}

/// The target language a session under `config` translates into.
pub open spec fn target_of(config: AsrConfig) -> Seq<char> {
    match config.live_translation_target {
        Some(t) => t@,
        None => Seq::empty(),
    }
}

proof fn lemma_text_bytes_prefix(ls: Seq<LineView>, i: int)
    requires
        0 <= i <= ls.len(),
    ensures
        0 <= text_bytes(ls.take(i)) <= text_bytes(ls),
    decreases ls.len() - i,
{
    if i < ls.len() {
        lemma_text_bytes_prefix(ls, i + 1);
        assert(ls.take(i + 1).drop_last() =~= ls.take(i));
        assert(text_bytes(ls.take(i + 1)) == text_bytes(ls.take(i)) + bytes(
            ls.take(i + 1).last().text,
        ));
        lemma_text_bytes_nonneg(ls.take(i));
    } else {
        assert(ls.take(i) =~= ls);
        lemma_text_bytes_nonneg(ls);
    }
}

proof fn lemma_text_bytes_nonneg(ls: Seq<LineView>)
    ensures
        text_bytes(ls) >= 0,
    decreases ls.len(),
{
    if ls.len() > 0 {
        lemma_text_bytes_nonneg(ls.drop_last());
    }
}

proof fn lemma_target_bytes_prefix(ts: Seq<Seq<char>>, i: int)
    requires
        0 <= i <= ts.len(),
    ensures
        0 <= target_bytes(ts.take(i)) <= target_bytes(ts),
    decreases ts.len() - i,
{
    if i < ts.len() {
        lemma_target_bytes_prefix(ts, i + 1);
        assert(ts.take(i + 1).drop_last() =~= ts.take(i));
        assert(target_bytes(ts.take(i + 1)) == target_bytes(ts.take(i)) + bytes(
            ts.take(i + 1).last(),
        ));
        lemma_target_bytes_nonneg(ts.take(i));
    } else {
        assert(ts.take(i) =~= ts);
        lemma_target_bytes_nonneg(ts);
    }
}

proof fn lemma_target_bytes_nonneg(ts: Seq<Seq<char>>)
    ensures
        target_bytes(ts) >= 0,
    decreases ts.len(),
{
    if ts.len() > 0 {
        lemma_target_bytes_nonneg(ts.drop_last());
    }
}

impl State {
    /// A session that has received nothing.
    pub fn new() -> (r: State)
        ensures
            r@ == empty_state(),
    {
        let r = State {
            snapshot: None,
            input: String::new(),
            output: String::new(),
            sources: Vec::new(),
            targets: Vec::new(),
            last_pair: None,
            last_partial: None,
            language: None,
            last_input: None,
            last_output: None,
            timing: None,
        };
        assert(r@.input =~= Seq::<char>::empty());
        assert(r@.output =~= Seq::<char>::empty());
        assert(r@.sources =~= Seq::<LineView>::empty());
        assert(r@.targets =~= Seq::<Seq<char>>::empty());
        r
    }

    /// One step of the session at time `now_ms`; `flush` ends every stream.
    pub fn collect(&mut self, config: &AsrConfig, flush: bool, now_ms: u64) -> (r: Option<CloudEvent>)
        requires
            serves(*config),
        ensures
            (final(self)@, event_of(r)) == step(old(self)@, *config, flush, now_ms, event_ids(r)),
            r matches Some(e) ==> e is LiveTranslation,
            fresh_ids(event_ids(r), "live-source-"@),
    {
        let service = recognition_service(config.backend.as_str()).unwrap();
        let provider = crate::text::owned(service.provider().id());
        let model = config.service_settings.get(config.backend.as_str()).unwrap().model.clone();
        if self.timing.is_some() {
            self.collect_timed(&provider, &model, flush, now_ms)
        } else {
            let gemini_live = str_eq(config.backend.as_str(), SERVICE_GEMINI_LIVE_TRANSLATE);
            self.collect_plain(&provider, &model, gemini_live, flush, now_ms)
        }
    }

    /// Whether appending would pass the transcript limit.
    fn over_limit_with(&self, text: &str, translation: &str) -> (r: bool)
        ensures
            r == over_limit(self@, text@, translation@),
    {
        let limit = MAX_TRANSCRIPT_BYTES as u128;
        let mut total: u128 = utf8_len(self.input.as_str()) + utf8_len(text);
        let mut i: usize = 0;
        proof {
            lemma_text_bytes_prefix(self@.sources, 0);
            assert(self@.sources.take(0) =~= Seq::<LineView>::empty());
        }
        while i < self.sources.len()
            invariant
                i <= self.sources@.len(),
                total == bytes(self@.input) + bytes(text@) + text_bytes(self@.sources.take(i as int)),
                total <= 8 * (usize::MAX as int) + MAX_TRANSCRIPT_BYTES,
                limit == MAX_TRANSCRIPT_BYTES,
            decreases self.sources@.len() - i,
        {
            if total > limit {
                proof {
                    lemma_text_bytes_prefix(self@.sources, i as int);
                }
                return true;
            }
            total = total + utf8_len(self.sources[i].text.as_str());
            assert(self@.sources.take(i + 1).drop_last() =~= self@.sources.take(i as int));
            i = i + 1;
        }
        assert(self@.sources.take(i as int) =~= self@.sources);
        if total > limit {
            return true;
        }
        let pair_bytes: u128 = match &self.last_pair {
            Some(l) => utf8_len(l.translation.as_str()),
            None => 0,
        };
        let mut total2: u128 = utf8_len(self.output.as_str()) + pair_bytes + utf8_len(translation);
        let mut j: usize = 0;
        proof {
            assert(texts(self.targets@).take(0) =~= Seq::<Seq<char>>::empty());
        }
        while j < self.targets.len()
            invariant
                j <= self.targets@.len(),
                total2 == bytes(self@.output) + (match self@.last_pair {
                    Some(l) => bytes(l.translation),
                    None => 0,
                }) + bytes(translation@) + target_bytes(self@.targets.take(j as int)),
                total2 <= 12 * (usize::MAX as int) + MAX_TRANSCRIPT_BYTES,
                limit == MAX_TRANSCRIPT_BYTES,
                !(bytes(self@.input) + text_bytes(self@.sources) + bytes(text@) > MAX_TRANSCRIPT_BYTES),
            decreases self.targets@.len() - j,
        {
            if total2 > limit {
                proof {
                    lemma_target_bytes_prefix(self@.targets, j as int);
                }
                return true;
            }
            total2 = total2 + utf8_len(self.targets[j].as_str());
            assert(self@.targets.take(j + 1).drop_last() =~= self@.targets.take(j as int));
            j = j + 1;
        }
        assert(self@.targets.take(j as int) =~= self@.targets);
        total2 > limit
    }
}

/// The error when a stream would pass `MAX_TRANSCRIPT_BYTES`.
pub const TRANSCRIPT_LIMIT_MESSAGE: &'static str = "Live translation transcript limit reached; restart recognition";

pub open spec fn opt_str(o: Option<&str>) -> Option<Seq<char>> {
    match o {
        Some(s) => Some(s@),
        None => None,
    }
}

/// What appending non-empty text does: past the limit it fails and changes
/// nothing; otherwise the text is appended under a fresh snapshot id where
/// one is due, and one step runs.
pub open spec fn append_outcome(
    pre: StateView,
    config: AsrConfig,
    text: Seq<char>,
    translation: Seq<char>,
    language: Option<Seq<char>>,
    now: u64,
    post: StateView,
    r: Result<Option<CloudEvent>, String>,
) -> bool {
    if over_limit(pre, text, translation) {
        &&& post == pre
        &&& r matches Err(e) && e@ == TRANSCRIPT_LIMIT_MESSAGE@
    } else {
        r matches Ok(ev) && fresh_ids(event_ids(ev), "live-source-"@) && (ev is None
            || ev->0 is LiveTranslation) && exists|id: Seq<char>|
            fresh_ids(seq![id], "live-"@) && #[trigger] step(
                appended(pre, text, translation, language, now, target_of(config), id),
                config,
                false,
                now,
                event_ids(ev),
            ) == (post, event_of(ev))
    }
}

/// The state of a timed session: it keeps a time window.
pub open spec fn timed(s: StateView) -> StateView {
    StateView {
        previews: Some(
            match s.previews {
                Some(v) => v,
                None => Seq::empty(),
            },
        ),
        ..s
    }
}

/// Appends source text and translated text to a session and runs one step;
/// `language` is the source language the service reported, if any.
pub fn append(
    config: &AsrConfig,
    state: &mut State,
    text: &str,
    translation: &str,
    language: Option<&str>,
    now_ms: u64,
) -> (r: Result<Option<CloudEvent>, String>)
    requires
        serves(*config),
    ensures
        if text@.len() == 0 && translation@.len() == 0 {
            final(state)@ == old(state)@ && r matches Ok(None)
        } else {
            append_outcome(old(state)@, *config, text@, translation@, opt_str(language), now_ms, final(state)@, r)
        },
{
    if crate::text::char_count(text) == 0 && crate::text::char_count(translation) == 0 {
        return Ok(None);
    }
    if state.over_limit_with(text, translation) {
        return Err(crate::text::owned(TRANSCRIPT_LIMIT_MESSAGE));
    }
    let ghost pre = state@;
    match language {
        Some(l) => {
            state.language = Some(crate::text::owned(l));
        },
        None => {},
    }
    let mut snap = match &state.snapshot {
        Some(s) => copy_line(s),
        None => LiveTranslation {
            utterance_id: new_id("live-"),
            text: String::new(),
            language: None,
            translation: String::new(),
            target_language: match &config.live_translation_target {
                Some(t) => t.clone(),
                None => String::new(),
            },
        },
    };
    let blank = crate::text::char_count(snap.text.as_str()) == 0 && crate::text::char_count(
        snap.translation.as_str(),
    ) == 0;
    if blank {
        snap.utterance_id = new_id("live-");
    }
    snap.language = opt_copy(&state.language);
    let ghost id = if blank {
        snap@.id
    } else {
        "live-"@ + Seq::new(36, |i: int| '0')
    };
    state.snapshot = Some(snap);
    crate::text::push_str(&mut state.input, text);
    crate::text::push_str(&mut state.output, translation);
    if crate::text::char_count(text) > 0 {
        state.last_input = Some(now_ms);
    }
    if crate::text::char_count(translation) > 0 {
        state.last_output = Some(now_ms);
    }
    assert(state@ == appended(pre, text@, translation@, opt_str(language), now_ms, target_of(*config), id));
    let ev = state.collect(config, false, now_ms);
    assert(fresh_ids(seq![id], "live-"@)) by {
        assert(seq![id][0] == id);
        if !blank {
            assert(id.subrange(0, "live-"@.len() as int) =~= "live-"@);
        }
    }
    Ok(ev)
}

/// As `append`, for a session that aligns sentences by time windows.
pub fn append_timed(
    config: &AsrConfig,
    state: &mut State,
    text: &str,
    translation: &str,
    now_ms: u64,
) -> (r: Result<Option<CloudEvent>, String>)
    requires
        serves(*config),
    ensures
        if text@.len() == 0 && translation@.len() == 0 {
            final(state)@ == old(state)@ && r matches Ok(None)
        } else {
            append_outcome(timed(old(state)@), *config, text@, translation@, None, now_ms, final(state)@, r)
        },
{
    if crate::text::char_count(text) == 0 && crate::text::char_count(translation) == 0 {
        return Ok(None);
    }
    if state.timing.is_none() {
        let empty: Vec<(String, String)> = Vec::new();
        assert(pairs(empty@) =~= Seq::<(Seq<char>, Seq<char>)>::empty());
        state.timing = Some(Timing { previews: empty });
    }
    append(config, state, text, translation, None, now_ms)
}

impl Default for State {
    fn default() -> (r: Self)
        ensures
            r@ == empty_state(),
    {
        State::new()
    }
}

/// Runs one step of a session at time `now_ms`.
pub fn poll(config: &AsrConfig, state: &mut State, now_ms: u64) -> (r: Option<CloudEvent>)
    requires
        serves(*config),
    ensures
        (final(state)@, event_of(r)) == step(old(state)@, *config, false, now_ms, event_ids(r)),
        r matches Some(e) ==> e is LiveTranslation,
        fresh_ids(event_ids(r), "live-source-"@),
{
    state.collect(config, false, now_ms)
}

/// Ends a session: every stream is flushed, and the state starts over.
pub fn finish(config: &AsrConfig, state: &mut State, now_ms: u64) -> (r: Option<CloudEvent>)
    requires
        serves(*config),
    ensures
        event_of(r) == step(old(state)@, *config, true, now_ms, event_ids(r)).1,
        final(state)@ == empty_state(),
        r matches Some(e) ==> e is LiveTranslation,
        fresh_ids(event_ids(r), "live-source-"@),
{
    let r = state.collect(config, true, now_ms);
    *state = State::new();
    r
}

/// A session that has received nothing reports nothing and stays empty.
pub proof fn lemma_empty_session_is_silent(config: AsrConfig, flush: bool, now: u64, ids: Seq<Seq<char>>)
    ensures
        step(empty_state(), config, flush, now, ids) == (empty_state(), None::<EventView>),
{
}

/// In a session aligned by time windows, a window settles when the streams
/// are flushed, or idle with target sentences waiting (counted after this
/// step's complete target sentences are added). When it settles with source
/// sentences waiting, none is left waiting and no target either, and the
/// step reports, not pending: with as many targets as sources, the i-th
/// source with the i-th target; without targets, every source with no
/// translation; otherwise one row, under the first source, with the ids of
/// all sources in order, their texts joined and the targets joined.
pub proof fn lemma_timed_window_settles(
    s: StateView,
    config: AsrConfig,
    flush: bool,
    now: u64,
    ids: Seq<Seq<char>>,
)
    requires
        s.previews is Some,
        s.snapshot is Some,
    ensures
        ({
            let p = result_provider(config);
            let m = result_model(config);
            let idle = quiet(s.last_input, now) && quiet(s.last_output, now);
            let t = timed_cut(s, s.snapshot->0, p, m, flush, idle, now, ids).0;
            let r = step(s, config, flush, now, ids);
            (flush || (idle && t.targets.len() > 0)) && t.sources.len() > 0 ==> {
                &&& r.0.sources.len() == 0
                &&& r.0.targets.len() == 0
                &&& r.1 matches Some(ev)
                &&& (t.sources.len() == t.targets.len() ==> ev.translations == Seq::new(
                    t.sources.len(),
                    |i: int| make_result(p, m, with_translation(t.sources[i], t.targets[i]), false),
                ))
                &&& (t.targets.len() == 0 ==> ev.translations == results_of(p, m, t.sources, false))
                &&& (t.targets.len() != 0 && t.sources.len() != t.targets.len() ==> ev.translations == seq![
                    ResultView {
                        source_ids: t.sources.map_values(|l: LineView| l.id),
                        ..make_result(
                            p,
                            m,
                            with_translation(
                                with_text(t.sources[0], join_from(Seq::empty(), t.sources.map_values(|l: LineView| l.text))),
                                join_from(Seq::empty(), t.targets),
                            ),
                            false,
                        )
                    },
                ])
            }
        }),
{
    let p = result_provider(config);
    let m = result_model(config);
    let idle = quiet(s.last_input, now) && quiet(s.last_output, now);
    let t = timed_cut(s, s.snapshot->0, p, m, flush, idle, now, ids).0;
    if t.sources.len() == t.targets.len() {
        let a = results_of(p, m, Seq::new(t.sources.len(), |i: int| with_translation(t.sources[i], t.targets[i])), false);
        assert(a =~= Seq::new(
            t.sources.len(),
            |i: int| make_result(p, m, with_translation(t.sources[i], t.targets[i]), false),
        ));
    }
}

/// A flush always settles the window: no source sentence is left waiting.
pub proof fn lemma_timed_flush_settles(s: StateView, config: AsrConfig, now: u64, ids: Seq<Seq<char>>)
    requires
        s.previews is Some,
        s.snapshot is Some,
    ensures
        step(s, config, true, now, ids).0.sources.len() == 0,
{
}

proof fn lemma_display_append_bounded(current: Seq<char>, delta: Seq<char>)
    requires
        current.len() <= crate::live_text::MAX_DISPLAY_CHARS,
    ensures
        display_append(current, delta).len() <= crate::live_text::MAX_DISPLAY_CHARS,
{
    if delta.len() > 0 {
        crate::live_text::lemma_display_is_bounded(current, delta);
    }
}

proof fn lemma_display_fold_bounded(current: Seq<char>, ts: Seq<Seq<char>>)
    requires
        current.len() <= crate::live_text::MAX_DISPLAY_CHARS,
    ensures
        display_fold(current, ts).len() <= crate::live_text::MAX_DISPLAY_CHARS,
    decreases ts.len(),
{
    if ts.len() > 0 {
        lemma_display_append_bounded(current, ts[0]);
        lemma_display_fold_bounded(display_append(current, ts[0]), ts.drop_first());
    }
}

/// After any step, the display snapshot holds at most `MAX_DISPLAY_CHARS`
/// characters of source text and of translation.
pub proof fn lemma_snapshot_is_bounded(
    s: StateView,
    config: AsrConfig,
    flush: bool,
    now: u64,
    ids: Seq<Seq<char>>,
)
    requires
        s.snapshot is Some,
    ensures
        step(s, config, flush, now, ids).0.snapshot matches Some(l) && l.text.len()
            <= crate::live_text::MAX_DISPLAY_CHARS && l.translation.len() <= crate::live_text::MAX_DISPLAY_CHARS,
{
    let e: Seq<char> = Seq::empty();
    let snapshot = s.snapshot->0;
    let p = result_provider(config);
    let m = result_model(config);
    if s.previews.is_some() {
        let idle = quiet(s.last_input, now) && quiet(s.last_output, now);
        let t = timed_cut(s, snapshot, p, m, flush, idle, now, ids).0;
        lemma_display_append_bounded(e, t.input);
        lemma_display_append_bounded(e, preview_pairs(t).1);
        lemma_display_append_bounded(e, e);
    } else {
        let echo = echoes(s, snapshot, config.backend@ == SERVICE_GEMINI_LIVE_TRANSLATE@);
        let a = plain_cut(s, snapshot, echo, p, m, flush, now, ids);
        let b = plain_pair(a.0, p, m);
        let settle = flush || (quiet(s.last_input, now) && quiet(s.last_output, now));
        let c = plain_tail(b.0, b.1, echo, settle, p, m);
        let d = plain_finish(c.0, c.1, flush, p, m);
        lemma_display_append_bounded(e, d.0.input);
        lemma_display_fold_bounded(e, d.0.targets);
        lemma_display_append_bounded(display_fold(e, d.0.targets), d.0.output);
    }
}

} // verus!
