//! Which utterance a cloud recognition event belongs to, and the partial
//! transcripts that services stream as deltas.
//!
//! Services name utterances inconsistently: some give every event an id,
//! some only the final one, some none. An explicit id always wins; otherwise
//! the session keeps a fallback id for the utterance in progress and the id of
//! the last snapshot it showed.
use vstd::prelude::*;

use crate::live_translation::bytes;
use crate::text::{char_count, str_eq, utf8_len};

verus! {

/// Most utterances with a partial transcript at one time.
pub const MAX_ACTIVE_TRANSCRIPTS: usize = 32;

/// Most bytes of one partial transcript.
pub const MAX_TRANSCRIPT_BYTES: usize = 65536;

/// The error when a transcript would pass `MAX_TRANSCRIPT_BYTES`.
pub const TRANSCRIPT_TOO_LONG: &'static str = "Cloud recognition transcript exceeded 65536 bytes";

/// The error when too many utterances are open at once.
pub const TOO_MANY_TRANSCRIPTS: &'static str = "Cloud recognition exceeded the active transcript limit";

/// Utterance ids and partial transcripts of one session.
pub struct NormalizationState {
    transcripts: Vec<(String, String)>,
    fallback_id: Option<String>,
    snapshot_id: Option<String>,
}

/// The value of a `NormalizationState`: the partial transcripts by id, the
/// fallback id, the snapshot id.
pub struct NormView {
    pub transcripts: Seq<(Seq<char>, Seq<char>)>,
    pub fallback: Option<Seq<char>>,
    pub snapshot: Option<Seq<char>>,
}

pub open spec fn opt_seq(o: Option<String>) -> Option<Seq<char>> {
    match o {
        Some(s) => Some(s@),
        None => None,
    }
}

/// Whether no id has two transcripts.
pub open spec fn distinct_ids(ts: Seq<(Seq<char>, Seq<char>)>) -> bool {
    forall|i: int, j: int| 0 <= i < j < ts.len() ==> (#[trigger] ts[i]).0 != (#[trigger] ts[j]).0
}

/// The value of an optional string slice.
pub open spec fn str_opt(e: Option<&str>) -> Option<Seq<char>> {
    match e {
        Some(s) => Some(s@),
        None => None,
    }
}

/// The id an event names, if it names one: an empty id names none.
pub open spec fn explicit_id(e: Option<Seq<char>>) -> Option<Seq<char>> {
    match e {
        Some(s) => if s.len() > 0 {
            Some(s)
        } else {
            None
        },
        None => None,
    }
}

/// The fallback id, created as `fresh` when there is none.
pub open spec fn fallback_of(s: NormView, fresh: Seq<char>) -> (NormView, Seq<char>) {
    match s.fallback {
        Some(f) => (s, f),
        None => (NormView { fallback: Some(fresh), ..s }, fresh),
    }
}

/// The id of a delta: the explicit one, else the fallback.
pub open spec fn delta_spec(s: NormView, e: Option<Seq<char>>, fresh: Seq<char>) -> (NormView, Seq<char>) {
    match explicit_id(e) {
        Some(id) => (s, id),
        None => fallback_of(s, fresh),
    }
}

/// The id of a snapshot: the explicit one, which later snapshots keep; else
/// the last snapshot's; else the fallback.
pub open spec fn snapshot_spec(s: NormView, e: Option<Seq<char>>, fresh: Seq<char>) -> (NormView, Seq<char>) {
    match explicit_id(e) {
        Some(id) => (NormView { snapshot: Some(id), ..s }, id),
        None => match s.snapshot {
            Some(id) => (s, id),
            None => fallback_of(s, fresh),
        },
    }
}

/// The id of a final result: the explicit one; else the fallback; else the
/// last snapshot's; else the only open transcript's; else a new fallback.
pub open spec fn final_spec(s: NormView, e: Option<Seq<char>>, fresh: Seq<char>) -> (NormView, Seq<char>) {
    match explicit_id(e) {
        Some(id) => (s, id),
        None => match s.fallback {
            Some(f) => (s, f),
            None => match s.snapshot {
                Some(x) => (s, x),
                None => if s.transcripts.len() == 1 {
                    (s, s.transcripts[0].0)
                } else {
                    fallback_of(s, fresh)
                },
            },
        },
    }
}

/// The transcripts without the one of `id`.
pub open spec fn without(ts: Seq<(Seq<char>, Seq<char>)>, id: Seq<char>) -> Seq<(Seq<char>, Seq<char>)> {
    ts.filter(|p: (Seq<char>, Seq<char>)| p.0 != id)
}

/// The state once utterance `id` is complete: its transcript is dropped and
/// the fallback and snapshot ids stop naming it.
pub open spec fn complete_spec(s: NormView, id: Seq<char>) -> NormView {
    NormView {
        transcripts: without(s.transcripts, id),
        fallback: if s.fallback == Some(id) {
            None
        } else {
            s.fallback
        },
        snapshot: if s.snapshot == Some(id) {
            None
        } else {
            s.snapshot
        },
    }
}

/// The utterance a failure belongs to, chosen as for a final result but
/// without creating a fallback.
pub open spec fn failed_id(s: NormView, e: Option<Seq<char>>) -> Option<Seq<char>> {
    match explicit_id(e) {
        Some(id) => Some(id),
        None => match s.fallback {
            Some(f) => Some(f),
            None => match s.snapshot {
                Some(x) => Some(x),
                None => if s.transcripts.len() == 1 {
                    Some(s.transcripts[0].0)
                } else {
                    None
                },
            },
        },
    }
}

/// A failure completes its utterance; a failure of no known utterance
/// forgets everything.
pub open spec fn fail_spec(s: NormView, e: Option<Seq<char>>) -> NormView {
    match failed_id(s, e) {
        Some(id) => complete_spec(s, id),
        None => NormView { transcripts: Seq::empty(), fallback: None, snapshot: None },
    }
}

/// The transcript of `id`.
pub open spec fn transcript_of(ts: Seq<(Seq<char>, Seq<char>)>, id: Seq<char>) -> Option<Seq<char>>
    decreases ts.len(),
{
    if ts.len() == 0 {
        None
    } else if ts[0].0 == id {
        Some(ts[0].1)
    } else {
        transcript_of(ts.drop_first(), id)
    }
}

/// `ts` with the transcript of `id` set to `text`: replaced where it
/// exists, added at the end otherwise.
pub open spec fn set_transcript(ts: Seq<(Seq<char>, Seq<char>)>, id: Seq<char>, text: Seq<char>) -> Seq<
    (Seq<char>, Seq<char>),
>
    decreases ts.len(),
{
    if ts.len() == 0 {
        seq![(id, text)]
    } else if ts[0].0 == id {
        ts.update(0, (id, text))
    } else {
        seq![ts[0]] + set_transcript(ts.drop_first(), id, text)
    }
}

/// Appending a delta to the transcript of `id`: an empty delta only reads
/// it; a transcript may not pass `MAX_TRANSCRIPT_BYTES`, and a new one may
/// not open while `MAX_ACTIVE_TRANSCRIPTS` are open. On success, the grown
/// transcript.
pub open spec fn append_spec(s: NormView, id: Seq<char>, delta: Seq<char>) -> (NormView, Result<
    Seq<char>,
    Seq<char>,
>) {
    let current = transcript_of(s.transcripts, id);
    let text = match current {
        Some(t) => t,
        None => Seq::empty(),
    };
    if delta.len() == 0 {
        (s, Ok(text))
    } else if bytes(text) + bytes(delta) > MAX_TRANSCRIPT_BYTES {
        (s, Err(TRANSCRIPT_TOO_LONG@))
    } else if current is None && s.transcripts.len() >= MAX_ACTIVE_TRANSCRIPTS {
        (s, Err(TOO_MANY_TRANSCRIPTS@))
    } else {
        (NormView { transcripts: set_transcript(s.transcripts, id, text + delta), ..s }, Ok(text + delta))
    }
}

/// Each id is `prefix` followed by a hyphenated UUID.
pub open spec fn fresh_id(id: Seq<char>, prefix: Seq<char>) -> bool {
    id.len() == prefix.len() + 36 && id.subrange(0, prefix.len() as int) == prefix
}

pub open spec fn result_text(r: Result<String, String>) -> Result<Seq<char>, Seq<char>> {
    match r {
        Ok(t) => Ok(t@),
        Err(e) => Err(e@),
    }
}

fn explicit(e: Option<&str>) -> (r: Option<String>)
    ensures
        opt_seq(r) == explicit_id(str_opt(e)),
{
    match e {
        Some(s) => if char_count(s) > 0 {
            Some(crate::text::owned(s))
        } else {
            None
        },
        None => None,
    }
}

proof fn lemma_transcript_in(ts: Seq<(Seq<char>, Seq<char>)>, i: int)
    requires
        distinct_ids(ts),
        0 <= i < ts.len(),
    ensures
        transcript_of(ts, ts[i].0) == Some(ts[i].1),
    decreases i,
{
    if i > 0 {
        assert(ts[0].0 != ts[i].0);
        lemma_transcript_in(ts.drop_first(), i - 1);
    }
}

proof fn lemma_transcript_absent(ts: Seq<(Seq<char>, Seq<char>)>, id: Seq<char>)
    requires
        forall|j: int| 0 <= j < ts.len() ==> (#[trigger] ts[j]).0 != id,
    ensures
        transcript_of(ts, id).is_none(),
    decreases ts.len(),
{
    if ts.len() > 0 {
        lemma_transcript_absent(ts.drop_first(), id);
    }
}

proof fn lemma_set_at(ts: Seq<(Seq<char>, Seq<char>)>, id: Seq<char>, text: Seq<char>, i: int)
    requires
        0 <= i < ts.len(),
        ts[i].0 == id,
        forall|j: int| 0 <= j < i ==> (#[trigger] ts[j]).0 != id,
    ensures
        set_transcript(ts, id, text) == ts.update(i, (id, text)),
    decreases i,
{
    if i > 0 {
        lemma_set_at(ts.drop_first(), id, text, i - 1);
        assert(seq![ts[0]] + ts.drop_first().update(i - 1, (id, text)) =~= ts.update(i, (id, text)));
    }
}

proof fn lemma_set_absent(ts: Seq<(Seq<char>, Seq<char>)>, id: Seq<char>, text: Seq<char>)
    requires
        forall|j: int| 0 <= j < ts.len() ==> (#[trigger] ts[j]).0 != id,
    ensures
        set_transcript(ts, id, text) == ts.push((id, text)),
    decreases ts.len(),
{
    if ts.len() > 0 {
        lemma_set_absent(ts.drop_first(), id, text);
        assert(seq![ts[0]] + ts.drop_first().push((id, text)) =~= ts.push((id, text)));
    } else {
        assert(seq![(id, text)] =~= ts.push((id, text)));
    }
}

proof fn lemma_without_at(ts: Seq<(Seq<char>, Seq<char>)>, i: int)
    requires
        distinct_ids(ts),
        0 <= i < ts.len(),
    ensures
        without(ts, ts[i].0) == ts.remove(i),
    decreases ts.len(),
{
    reveal(Seq::filter);
    let id = ts[i].0;
    let f = |p: (Seq<char>, Seq<char>)| p.0 != id;
    if i == ts.len() - 1 {
        assert(ts.drop_last() =~= ts.remove(i));
        lemma_without_absent(ts.drop_last(), id);
    } else {
        let d = ts.drop_last();
        assert(distinct_ids(d));
        lemma_without_at(d, i);
        assert(ts.last().0 != id);
        assert(d.remove(i).push(ts.last()) =~= ts.remove(i));
    }
}

proof fn lemma_without_absent(ts: Seq<(Seq<char>, Seq<char>)>, id: Seq<char>)
    requires
        forall|j: int| 0 <= j < ts.len() ==> (#[trigger] ts[j]).0 != id,
    ensures
        without(ts, id) == ts,
    decreases ts.len(),
{
    reveal(Seq::filter);
    if ts.len() > 0 {
        lemma_without_absent(ts.drop_last(), id);
        assert(ts.drop_last().push(ts.last()) =~= ts);
    } else {
        assert(ts.filter(|p: (Seq<char>, Seq<char>)| p.0 != id) =~= ts);
    }
}

impl View for NormalizationState {
    type V = NormView;

    closed spec fn view(&self) -> NormView {
        NormView {
            transcripts: self.transcripts@.map_values(|p: (String, String)| (p.0@, p.1@)),
            fallback: opt_seq(self.fallback_id),
            snapshot: opt_seq(self.snapshot_id),
        }
    }
}

impl NormalizationState {
    /// Well formed: no id has two transcripts.
    pub closed spec fn wf(&self) -> bool {
        distinct_ids(self@.transcripts)
    }

    /// A session that has seen nothing.
    pub fn new() -> (r: Self)
        ensures
            r.wf(),
            r@.transcripts.len() == 0,
            r@.fallback is None,
            r@.snapshot is None,
    {
        let r = NormalizationState { transcripts: Vec::new(), fallback_id: None, snapshot_id: None };
        assert(r@.transcripts =~= Seq::<(Seq<char>, Seq<char>)>::empty());
        r
    }

    fn position(&self, id: &str) -> (r: Option<usize>)
        ensures
            match r {
                Some(i) => i < self@.transcripts.len() && self@.transcripts[i as int].0 == id@ && forall|j: int|
                    0 <= j < i ==> (#[trigger] self@.transcripts[j]).0 != id@,
                None => forall|j: int| 0 <= j < self@.transcripts.len() ==> (#[trigger] self@.transcripts[j]).0 != id@,
            },
    {
        let mut i: usize = 0;
        while i < self.transcripts.len()
            invariant
                i <= self.transcripts@.len(),
                self@.transcripts.len() == self.transcripts@.len(),
                forall|j: int| 0 <= j < i ==> (#[trigger] self@.transcripts[j]).0 != id@,
            decreases self.transcripts@.len() - i,
        {
            if str_eq(self.transcripts[i].0.as_str(), id) {
                return Some(i);
            }
            i = i + 1;
        }
        None
    }

    /// The fallback id; a new one, `local-utterance-` and a random UUID,
    /// when there is none.
    pub fn fallback_id(&mut self) -> (r: String)
        requires
            old(self).wf(),
        ensures
            final(self).wf(),
            (final(self)@, r@) == fallback_of(old(self)@, r@),
            old(self)@.fallback is None ==> fresh_id(r@, "local-utterance-"@),
    {
        match &self.fallback_id {
            Some(id) => id.clone(),
            None => {
                let u = crate::ids::random_uuid();
                let id = crate::text::concat("local-utterance-", u.as_str());
                assert(id@.subrange(0, "local-utterance-"@.len() as int) =~= "local-utterance-"@);
                self.fallback_id = Some(id.clone());
                id
            },
        }
    }

    /// The utterance id of a delta event that names `explicit`.
    pub fn delta_id(&mut self, explicit_utterance: Option<&str>) -> (r: String)
        requires
            old(self).wf(),
        ensures
            final(self).wf(),
            (final(self)@, r@) == delta_spec(old(self)@, str_opt(explicit_utterance), r@),
            explicit_id(str_opt(explicit_utterance)) is None && old(self)@.fallback is None ==> fresh_id(
                r@,
                "local-utterance-"@,
            ),
    {
        match explicit(explicit_utterance) {
            Some(id) => id,
            None => self.fallback_id(),
        }
    }

    /// The utterance id of a snapshot event that names `explicit`.
    pub fn snapshot_id(&mut self, explicit_utterance: Option<&str>) -> (r: String)
        requires
            old(self).wf(),
        ensures
            final(self).wf(),
            (final(self)@, r@) == snapshot_spec(old(self)@, str_opt(explicit_utterance), r@),
            explicit_id(str_opt(explicit_utterance)) is None && old(self)@.snapshot is None && old(self)@.fallback is None
                ==> fresh_id(r@, "local-utterance-"@),
    {
        match explicit(explicit_utterance) {
            Some(id) => {
                self.snapshot_id = Some(id.clone());
                id
            },
            None => match &self.snapshot_id {
                Some(id) => id.clone(),
                None => self.fallback_id(),
            },
        }
    }

    /// Later snapshots without an id belong to utterance `id`.
    pub fn remember_snapshot(&mut self, id: &str)
        requires
            old(self).wf(),
        ensures
            final(self).wf(),
            final(self)@ == (NormView { snapshot: Some(id@), ..old(self)@ }),
    {
        self.snapshot_id = Some(crate::text::owned(id));
    }

    /// The utterance id of a final event that names `explicit`.
    pub fn final_id(&mut self, explicit_utterance: Option<&str>) -> (r: String)
        requires
            old(self).wf(),
        ensures
            final(self).wf(),
            (final(self)@, r@) == final_spec(old(self)@, str_opt(explicit_utterance), r@),
            explicit_id(str_opt(explicit_utterance)) is None && old(self)@.fallback is None && old(self)@.snapshot is None
                && old(self)@.transcripts.len() != 1 ==> fresh_id(r@, "local-utterance-"@),
    {
        if let Some(id) = explicit(explicit_utterance) {
            return id;
        }
        if let Some(id) = &self.fallback_id {
            return id.clone();
        }
        if let Some(id) = &self.snapshot_id {
            return id.clone();
        }
        if self.transcripts.len() == 1 {
            return self.transcripts[0].0.clone();
        }
        self.fallback_id()
    }

    /// Utterance `id` is complete: its transcript goes, and the fallback and
    /// snapshot ids stop naming it.
    pub fn complete(&mut self, id: &str)
        requires
            old(self).wf(),
        ensures
            final(self).wf(),
            final(self)@ == complete_spec(old(self)@, id@),
    {
        let ghost before = self@;
        match self.position(id) {
            Some(i) => {
                self.transcripts.remove(i);
                proof {
                    lemma_without_at(before.transcripts, i as int);
                    assert(self@.transcripts =~= before.transcripts.remove(i as int));
                }
            },
            None => {
                proof {
                    lemma_without_absent(before.transcripts, id@);
                }
            },
        }
        let clear_fallback = match &self.fallback_id {
            Some(f) => str_eq(f.as_str(), id),
            None => false,
        };
        if clear_fallback {
            self.fallback_id = None;
        }
        let clear_snapshot = match &self.snapshot_id {
            Some(s) => str_eq(s.as_str(), id),
            None => false,
        };
        if clear_snapshot {
            self.snapshot_id = None;
        }
    }

    /// A failure of the utterance that `explicit` names; returns the
    /// utterance it was charged to, if any.
    pub fn fail(&mut self, explicit_utterance: Option<&str>) -> (r: Option<String>)
        requires
            old(self).wf(),
        ensures
            final(self).wf(),
            opt_seq(r) == failed_id(old(self)@, str_opt(explicit_utterance)),
            final(self)@ == fail_spec(old(self)@, str_opt(explicit_utterance)),
    {
        let id = match explicit(explicit_utterance) {
            Some(id) => Some(id),
            None => match &self.fallback_id {
                Some(f) => Some(f.clone()),
                None => match &self.snapshot_id {
                    Some(s) => Some(s.clone()),
                    None => if self.transcripts.len() == 1 {
                        Some(self.transcripts[0].0.clone())
                    } else {
                        None
                    },
                },
            },
        };
        match &id {
            Some(i) => self.complete(i.as_str()),
            None => {
                self.transcripts = Vec::new();
                self.fallback_id = None;
                self.snapshot_id = None;
                assert(self@.transcripts =~= Seq::<(Seq<char>, Seq<char>)>::empty());
            },
        }
        id
    }

    /// The partial transcript of `id`.
    pub fn transcript(&self, id: &str) -> (r: Option<String>)
        requires
            self.wf(),
        ensures
            opt_seq(r) == transcript_of(self@.transcripts, id@),
    {
        match self.position(id) {
            Some(i) => {
                proof {
                    lemma_transcript_in(self@.transcripts, i as int);
                }
                Some(self.transcripts[i].1.clone())
            },
            None => {
                proof {
                    lemma_transcript_absent(self@.transcripts, id@);
                }
                None
            },
        }
    }

    /// Number of utterances with a partial transcript.
    pub fn open_transcripts(&self) -> (r: usize)
        ensures
            r == self@.transcripts.len(),
    {
        self.transcripts.len()
    }

    /// Removes and returns the partial transcript of `id`.
    pub fn take_transcript(&mut self, id: &str) -> (r: Option<String>)
        requires
            old(self).wf(),
        ensures
            final(self).wf(),
            opt_seq(r) == transcript_of(old(self)@.transcripts, id@),
            final(self)@ == (NormView { transcripts: without(old(self)@.transcripts, id@), ..old(self)@ }),
    {
        let ghost before = self@;
        match self.position(id) {
            Some(i) => {
                proof {
                    lemma_transcript_in(before.transcripts, i as int);
                    lemma_without_at(before.transcripts, i as int);
                }
                let (_, text) = self.transcripts.remove(i);
                assert(self@.transcripts =~= before.transcripts.remove(i as int));
                Some(text)
            },
            None => {
                proof {
                    lemma_transcript_absent(before.transcripts, id@);
                    lemma_without_absent(before.transcripts, id@);
                }
                None
            },
        }
    }

    /// Appends `delta` to the partial transcript of `id`, as `append_spec` says.
    pub fn append_transcript(&mut self, id: &str, delta: &str) -> (r: Result<String, String>)
        requires
            old(self).wf(),
        ensures
            final(self).wf(),
            (final(self)@, result_text(r)) == append_spec(old(self)@, id@, delta@),
    {
        let ghost before = self@;
        let pos = self.position(id);
        let current = match pos {
            Some(i) => self.transcripts[i].1.clone(),
            None => String::new(),
        };
        proof {
            match pos {
                Some(i) => lemma_transcript_in(before.transcripts, i as int),
                None => lemma_transcript_absent(before.transcripts, id@),
            }
        }
        if char_count(delta) == 0 {
            return Ok(current);
        }
        if utf8_len(current.as_str()) + utf8_len(delta) > MAX_TRANSCRIPT_BYTES as u128 {
            return Err(crate::text::owned(TRANSCRIPT_TOO_LONG));
        }
        if pos.is_none() && self.transcripts.len() >= MAX_ACTIVE_TRANSCRIPTS {
            return Err(crate::text::owned(TOO_MANY_TRANSCRIPTS));
        }
        let text = crate::text::concat(current.as_str(), delta);
        match pos {
            Some(i) => {
                self.transcripts.set(i, (crate::text::owned(id), text.clone()));
                proof {
                    lemma_set_at(before.transcripts, id@, text@, i as int);
                    assert(self@.transcripts =~= before.transcripts.update(i as int, (id@, text@)));
                }
            },
            None => {
                self.transcripts.push((crate::text::owned(id), text.clone()));
                proof {
                    lemma_set_absent(before.transcripts, id@, text@);
                    assert(self@.transcripts =~= before.transcripts.push((id@, text@)));
                }
            },
        }
        Ok(text)
    }
}

/// Deltas and the final result of an utterance that names no id share one
/// id: the final result takes the fallback the deltas used.
pub proof fn lemma_unnamed_deltas_and_final_share_an_id(s: NormView, fresh: Seq<char>, later: Seq<char>)
    ensures
        ({
            let (s1, delta) = delta_spec(s, None, fresh);
            final_spec(s1, None, later).1 == delta
        }),
{
}

/// Once the utterance of the fallback id is complete, the next utterance
/// without an id gets a new fallback.
pub proof fn lemma_fallback_rotates_after_final(s: NormView, fresh: Seq<char>, next: Seq<char>)
    requires
        s.fallback is Some,
    ensures
        ({
            let (s1, id) = final_spec(s, None, fresh);
            delta_spec(complete_spec(s1, id), None, next) == (
                NormView { fallback: Some(next), ..complete_spec(s1, id) },
                next,
            )
        }),
{
}

/// A final result without an id belongs to the utterance of the last
/// snapshot, when no fallback is active.
pub proof fn lemma_snapshot_id_is_reused(s: NormView, named: Seq<char>, fresh: Seq<char>, later: Seq<char>)
    requires
        named.len() > 0,
        s.fallback is None,
    ensures
        final_spec(snapshot_spec(s, Some(named), fresh).0, None, later).1 == named,
{
}

/// An explicit id wins over an active fallback, for finals and failures alike.
pub proof fn lemma_explicit_ids_win(s: NormView, named: Seq<char>, fresh: Seq<char>)
    requires
        named.len() > 0,
    ensures
        final_spec(s, Some(named), fresh) == (s, named),
        failed_id(s, Some(named)) == Some(named),
{
}

/// A failure without an id is charged to the active fallback, which is then
/// forgotten.
pub proof fn lemma_failures_keep_the_fallback_id(s: NormView)
    requires
        s.fallback is Some,
    ensures
        failed_id(s, None) == s.fallback,
        fail_spec(s, None).fallback is None,
{
}

} // verus!
