//! What the VR overlay shows: the headset line and the wrist history, kept up
//! to date from recognition and translation events. Time is counted in
//! milliseconds of a monotonic clock.
use vstd::prelude::*;

use crate::config::{VrOverlayHeadsetConfig, VrOverlayWristConfig};
use crate::models::{LiveTranslation, Subtitle, SubtitleTranslation};
use crate::text::{ascii_lower, chars_of, str_eq, trim};

verus! {

/// What a frame of the overlay shows.
#[derive(Clone, Debug, PartialEq, Eq, Hash)]
pub enum PresentationContent {
    Headset(String),
    Wrist(Vec<WristMessage>),
}

/// One message of the wrist history.
#[derive(Clone, Debug, PartialEq, Eq, Hash)]
pub struct WristMessage {
    pub text: String,
    pub side: MessageSide,
}

/// The side a wrist message is drawn on: remote speech left, local speech right.
#[derive(Clone, Copy, Debug, PartialEq, Eq, Hash, Structural)]
pub enum MessageSide {
    Left,
    Right,
}

/// What happened in recognition or translation.
#[derive(Clone, Debug)]
pub enum PresentationEvent {
    LiveTranslationUpdated { source: String, snapshot: LiveTranslation },
    RecognitionPartial {
        utterance_id: String,
        source: String,
        text: String,
        language: Option<String>,
    },
    RecognitionCancelled { utterance_id: String, source: String },
    RecognitionReset { source: String },
    Final { utterance_id: Option<String>, subtitle: Subtitle },
    TranslationPartial {
        subtitle_id: i64,
        text: String,
        target_language: String,
        preferred: bool,
    },
    TranslationCompleted { subtitle_id: i64, translation: SubtitleTranslation, preferred: bool },
}

/// A translation shown with an item.
#[derive(Clone, Debug)]
pub struct PresentationTranslation {
    pub original: Option<String>,
    pub target_language: String,
    pub text: String,
    pub preferred: bool,
}

/// A line of recognized text with its translations.
#[derive(Clone, Debug)]
pub struct PresentationItem {
    pub utterance_id: Option<String>,
    pub subtitle_id: Option<i64>,
    pub source: String,
    pub language: Option<String>,
    pub original: String,
    pub translations: Vec<PresentationTranslation>,
    pub expires_at: u64,
}

/// The text an optional string holds.
pub open spec fn opt_text(o: Option<String>) -> Option<Seq<char>> {
    match o {
        Some(s) => Some(s@),
        None => None,
    }
}

/// A translation as values: original sentence, target language, text, preferred.
pub type TransView = (Option<Seq<char>>, Seq<char>, Seq<char>, bool);

pub open spec fn tview(t: PresentationTranslation) -> TransView {
    (opt_text(t.original), t.target_language@, t.text@, t.preferred)
}

pub open spec fn tviews(ts: Seq<PresentationTranslation>) -> Seq<TransView> {
    ts.map_values(|t: PresentationTranslation| tview(t))
}

/// Position of the first `-` or `_` at or after `i`, or the length.
pub open spec fn subtag_end(s: Seq<char>, i: int) -> int
    decreases s.len() - i,
{
    if i < 0 || i >= s.len() {
        s.len() as int
    } else if s[i] == '-' || s[i] == '_' {
        i
    } else {
        subtag_end(s, i + 1)
    }
}

/// The primary language subtag of a tag, lower-cased.
pub open spec fn primary_language(s: Seq<char>) -> Seq<char> {
    ascii_lower(s.subrange(0, subtag_end(s, 0)))
}

/// Whether two language tags name the same language: their primary subtags
/// are equal, ignoring ASCII case.
pub open spec fn same_language(a: Seq<char>, b: Seq<char>) -> bool {
    primary_language(a) == primary_language(b)
}

fn primary_language_of(s: &str) -> (r: String)
    ensures
        r@ == primary_language(s@),
{
    let cs = chars_of(s);
    let mut i: usize = 0;
    while i < cs.len() && cs[i] != '-' && cs[i] != '_'
        invariant
            i <= cs@.len(),
            cs@ == s@,
            subtag_end(s@, 0) == subtag_end(s@, i as int),
        decreases cs@.len() - i,
    {
        i = i + 1;
    }
    let head = crate::text::string_of_range(&cs, 0, i);
    crate::text::ascii_lowercase(head.as_str())
}

/// Whether two language tags name the same language.
pub fn same_translation_language(a: &str, b: &str) -> (r: bool)
    ensures
        r == same_language(a@, b@),
{
    str_eq(primary_language_of(a).as_str(), primary_language_of(b).as_str())
}

/// Whether items from `source` are shown, given the three switches.
pub open spec fn source_shown(source: Seq<char>, speaker: bool, microphone: bool, chatbox: bool) -> bool {
    if source == "speaker"@ {
        speaker
    } else if source == "microphone"@ {
        microphone
    } else if source == "chatbox"@ {
        chatbox
    } else {
        false
    }
}

/// Whether items from `source` are shown.
pub fn source_enabled(source: &str, speaker: bool, microphone: bool, chatbox: bool) -> (r: bool)
    ensures
        r == source_shown(source@, speaker, microphone, chatbox),
{
    if str_eq(source, "speaker") {
        speaker
    } else if str_eq(source, "microphone") {
        microphone
    } else if str_eq(source, "chatbox") {
        chatbox
    } else {
        false
    }
}

/// How many ended utterances are remembered.
pub const MAX_TERMINATED_UTTERANCES: usize = 32;

/// The remembered list after `key` ends: added once, oldest dropped beyond the limit.
pub open spec fn remember_spec(v: Seq<(Seq<char>, Seq<char>)>, key: (Seq<char>, Seq<char>)) -> Seq<
    (Seq<char>, Seq<char>),
> {
    if v.contains(key) {
        v
    } else if v.len() + 1 > MAX_TERMINATED_UTTERANCES {
        v.push(key).drop_first()
    } else {
        v.push(key)
    }
}

/// The remembered list without the utterances of `source`, in order.
pub open spec fn without_source(v: Seq<(Seq<char>, Seq<char>)>, source: Seq<char>) -> Seq<
    (Seq<char>, Seq<char>),
>
    decreases v.len(),
{
    if v.len() == 0 {
        v
    } else {
        let rest = without_source(v.drop_last(), source);
        if v.last().0 != source {
            rest.push(v.last())
        } else {
            rest
        }
    }
}

/// Utterances that were finished or cancelled, by source and utterance id, so
/// that late partial results for them are ignored.
#[derive(Debug)]
pub struct TerminatedUtterances {
    keys: Vec<(String, String)>,
}

impl TerminatedUtterances {
    pub closed spec fn view_seq(&self) -> Seq<(Seq<char>, Seq<char>)> {
        self.keys@.map_values(|k: (String, String)| (k.0@, k.1@))
    }

    #[verifier::type_invariant]
    closed spec fn bounded(&self) -> bool {
        self.keys@.len() <= MAX_TERMINATED_UTTERANCES
    }

    /// No utterance remembered.
    pub fn new() -> (r: Self)
        ensures
            r.view_seq() == Seq::<(Seq<char>, Seq<char>)>::empty(),
    {
        let r = TerminatedUtterances { keys: Vec::new() };
        assert(r.view_seq() =~= Seq::<(Seq<char>, Seq<char>)>::empty());
        r
    }

    /// How many utterances are remembered; never more than `MAX_TERMINATED_UTTERANCES`.
    pub fn len(&self) -> (r: usize)
        ensures
            r == self.view_seq().len(),
            r <= MAX_TERMINATED_UTTERANCES,
    {
        proof {
            use_type_invariant(self);
        }
        self.keys.len()
    }

    /// Whether the utterance `utterance_id` of `source` ended.
    pub fn contains(&self, source: &str, utterance_id: &str) -> (r: bool)
        ensures
            r == self.view_seq().contains((source@, utterance_id@)),
    {
        let mut i: usize = 0;
        while i < self.keys.len()
            invariant
                i <= self.keys@.len(),
                forall|j: int| 0 <= j < i ==> #[trigger] self.view_seq()[j] != (source@, utterance_id@),
            decreases self.keys@.len() - i,
        {
            if str_eq(self.keys[i].0.as_str(), source) && str_eq(self.keys[i].1.as_str(), utterance_id) {
                assert(self.view_seq()[i as int] == (source@, utterance_id@));
                return true;
            }
            i = i + 1;
        }
        false
    }

    /// Remembers that the utterance ended, dropping the oldest beyond the limit.
    pub fn remember(&mut self, source: &str, utterance_id: &str)
        ensures
            final(self).view_seq() == remember_spec(old(self).view_seq(), (source@, utterance_id@)),
            final(self).view_seq().len() <= MAX_TERMINATED_UTTERANCES,
            final(self).view_seq().contains((source@, utterance_id@)),
    {
        proof {
            use_type_invariant(&*self);
        }
        if self.contains(source, utterance_id) {
            return;
        }
        assert(self.view_seq().len() == self.keys@.len());
        let ghost before = self.view_seq();
        let mut keys: Vec<(String, String)> = Vec::new();
        std::mem::swap(&mut keys, &mut self.keys);
        keys.push((source.to_owned(), utterance_id.to_owned()));
        if keys.len() > MAX_TERMINATED_UTTERANCES {
            keys.remove(0);
        }
        proof {
            let after = keys@.map_values(|k: (String, String)| (k.0@, k.1@));
            if before.len() + 1 > MAX_TERMINATED_UTTERANCES {
                assert(after =~= before.push((source@, utterance_id@)).drop_first());
                assert(after[after.len() - 1] == (source@, utterance_id@));
            } else {
                assert(after =~= before.push((source@, utterance_id@)));
                assert(after[after.len() - 1] == (source@, utterance_id@));
            }
        }
        self.keys = keys;
    }

    /// Forgets every utterance of `source`, so that its ids can be used again.
    pub fn reset_source(&mut self, source: &str)
        ensures
            final(self).view_seq() == without_source(old(self).view_seq(), source@),
    {
        proof {
            use_type_invariant(&*self);
        }
        let ghost before = self.view_seq();
        let mut kept: Vec<(String, String)> = Vec::new();
        let mut i: usize = 0;
        while i < self.keys.len()
            invariant
                i <= self.keys@.len() <= MAX_TERMINATED_UTTERANCES,
                before == self.view_seq(),
                kept@.len() <= i,
                kept@.map_values(|k: (String, String)| (k.0@, k.1@)) == without_source(
                    before.take(i as int),
                    source@,
                ),
            decreases self.keys@.len() - i,
        {
            let k = &self.keys[i];
            proof {
                assert(before.take(i + 1).drop_last() =~= before.take(i as int));
            }
            if !str_eq(k.0.as_str(), source) {
                kept.push((k.0.clone(), k.1.clone()));
                assert(kept@.map_values(|k: (String, String)| (k.0@, k.1@)) =~= without_source(
                    before.take(i as int),
                    source@,
                ).push(before[i as int]));
            }
            i = i + 1;
        }
        assert(before.take(before.len() as int) =~= before);
        self.keys = kept;
    }
}

/// The translations whose preferred flag is `want`, in order.
pub open spec fn keep_flag(ts: Seq<TransView>, want: bool) -> Seq<TransView>
    decreases ts.len(),
{
    if ts.len() == 0 {
        ts
    } else {
        let rest = keep_flag(ts.drop_last(), want);
        if ts.last().3 == want {
            rest.push(ts.last())
        } else {
            rest
        }
    }
}

/// The translations with the preferred ones first, each group in its order
/// (a stable sort on "not preferred").
pub open spec fn preferred_first(ts: Seq<TransView>) -> Seq<TransView> {
    keep_flag(ts, true) + keep_flag(ts, false)
}

/// The translations with no preferred flag set.
pub open spec fn clear_preferred(ts: Seq<TransView>) -> Seq<TransView> {
    ts.map_values(|t: TransView| (t.0, t.1, t.2, false))
}

/// Position of the first translation into `target` at or after `k`.
pub open spec fn first_target(ts: Seq<TransView>, target: Seq<char>, k: int) -> Option<int>
    decreases ts.len() - k,
{
    if k < 0 || k >= ts.len() {
        None
    } else if ts[k].1 == target {
        Some(k)
    } else {
        first_target(ts, target, k + 1)
    }
}

/// The translations of an item in `language` after a translation into
/// `target` arrives, and whether it was taken: blank text or a translation
/// into the item's own language is ignored; a preferred translation takes the
/// flag from the others; a translation into a language already shown replaces
/// that text and keeps its flag.
pub open spec fn update_translation_spec(
    language: Option<Seq<char>>,
    ts: Seq<TransView>,
    target: Seq<char>,
    text: Seq<char>,
    preferred: bool,
) -> (Seq<TransView>, bool) {
    if trim(text).len() == 0 || (language matches Some(l) && same_language(l, target)) {
        (ts, false)
    } else {
        let ts1 = if preferred {
            clear_preferred(ts)
        } else {
            ts
        };
        let ts2 = match first_target(ts1, target, 0) {
            Some(i) => ts1.update(i, (ts1[i].0, target, text, ts1[i].3 || preferred)),
            None => ts1.push((None, target, text, preferred)),
        };
        (preferred_first(ts2), true)
    }
}

proof fn lemma_first_target_found(ts: Seq<TransView>, target: Seq<char>, k: int)
    requires
        0 <= k,
    ensures
        first_target(ts, target, k) matches Some(i) ==> k <= i < ts.len() && ts[i].1 == target,
    decreases ts.len() - k,
{
    if k < ts.len() && ts[k].1 != target {
        lemma_first_target_found(ts, target, k + 1);
    }
}

fn clone_text(o: &Option<String>) -> (r: Option<String>)
    ensures
        opt_text(r) == opt_text(*o),
{
    match o {
        Some(s) => Some(s.clone()),
        None => None,
    }
}

fn clone_translation(t: &PresentationTranslation) -> (r: PresentationTranslation)
    ensures
        tview(r) == tview(*t),
{
    PresentationTranslation {
        original: clone_text(&t.original),
        target_language: t.target_language.clone(),
        text: t.text.clone(),
        preferred: t.preferred,
    }
}

fn position_of_target(ts: &Vec<PresentationTranslation>, target: &str) -> (r: Option<usize>)
    ensures
        match r {
            Some(i) => first_target(tviews(ts@), target@, 0) == Some(i as int) && i < ts@.len(),
            None => first_target(tviews(ts@), target@, 0).is_none(),
        },
{
    let ghost v = tviews(ts@);
    let mut i: usize = 0;
    while i < ts.len()
        invariant
            i <= ts@.len(),
            v == tviews(ts@),
            first_target(v, target@, 0) == first_target(v, target@, i as int),
        decreases ts@.len() - i,
    {
        if str_eq(ts[i].target_language.as_str(), target) {
            return Some(i);
        }
        i = i + 1;
    }
    None
}

/// Copies the translations, preferred ones first.
fn sorted_by_preference(ts: &Vec<PresentationTranslation>) -> (r: Vec<PresentationTranslation>)
    ensures
        tviews(r@) == preferred_first(tviews(ts@)),
{
    let ghost v = tviews(ts@);
    let mut first: Vec<PresentationTranslation> = Vec::new();
    let mut rest: Vec<PresentationTranslation> = Vec::new();
    let mut i: usize = 0;
    while i < ts.len()
        invariant
            i <= ts@.len(),
            v == tviews(ts@),
            tviews(first@) == keep_flag(v.take(i as int), true),
            tviews(rest@) == keep_flag(v.take(i as int), false),
        decreases ts@.len() - i,
    {
        assert(v.take(i + 1).drop_last() =~= v.take(i as int));
        let t = clone_translation(&ts[i]);
        if t.preferred {
            first.push(t);
            assert(tviews(first@) =~= keep_flag(v.take(i as int), true).push(v[i as int]));
        } else {
            rest.push(t);
            assert(tviews(rest@) =~= keep_flag(v.take(i as int), false).push(v[i as int]));
        }
        i = i + 1;
    }
    assert(v.take(ts@.len() as int) =~= v);
    let ghost a = tviews(first@);
    let ghost b = tviews(rest@);
    first.append(&mut rest);
    assert(tviews(first@) =~= a + b);
    first
}

/// Adds or replaces a translation of an item; reports whether it was taken.
pub fn update_translation(item: &mut PresentationItem, target_language: String, text: String, preferred: bool) -> (r: bool)
    ensures
        (tviews(final(item).translations@), r) == update_translation_spec(
            opt_text(old(item).language),
            tviews(old(item).translations@),
            target_language@,
            text@,
            preferred,
        ),
        final(item).utterance_id == old(item).utterance_id,
        final(item).subtitle_id == old(item).subtitle_id,
        final(item).source == old(item).source,
        final(item).language == old(item).language,
        final(item).original == old(item).original,
        final(item).expires_at == old(item).expires_at,
{
    if crate::text::is_blank(text.as_str()) {
        return false;
    }
    let same = match &item.language {
        Some(l) => same_translation_language(l.as_str(), target_language.as_str()),
        None => false,
    };
    if same {
        return false;
    }
    let ghost v0 = tviews(item.translations@);
    let ghost v1 = if preferred {
        clear_preferred(v0)
    } else {
        v0
    };
    let mut ts: Vec<PresentationTranslation> = Vec::new();
    let mut i: usize = 0;
    while i < item.translations.len()
        invariant
            i <= item.translations@.len(),
            v0 == tviews(item.translations@),
            v1 == (if preferred {
                clear_preferred(v0)
            } else {
                v0
            }),
            tviews(ts@) == v1.take(i as int),
            ts@.len() == i,
            v1.len() == v0.len() == item.translations@.len(),
        decreases item.translations@.len() - i,
    {
        let mut t = clone_translation(&item.translations[i]);
        if preferred {
            t.preferred = false;
        }
        let ghost tv = tview(t);
        assert(tv == v1[i as int]);
        let ghost before = ts@;
        ts.push(t);
        assert(ts@ =~= before.push(ts@[i as int]));
        assert(tviews(ts@)[i as int] == tv);
        assert(tviews(ts@) =~= v1.take(i + 1));
        i = i + 1;
    }
    assert(v1.take(v1.len() as int) =~= v1);
    match position_of_target(&ts, target_language.as_str()) {
        Some(k) => {
            let old_t = clone_translation(&ts[k]);
            let updated = PresentationTranslation {
                original: old_t.original,
                target_language,
                text,
                preferred: old_t.preferred || preferred,
            };
            proof {
                lemma_first_target_found(v1, target_language@, 0);
            }
            ts.set(k, updated);
            assert(tviews(ts@) =~= v1.update(k as int, (v1[k as int].0, target_language@, ts@[k as int].text@, v1[k as int].3 || preferred)));
        },
        None => {
            let ghost before = ts@;
            ts.push(PresentationTranslation { original: None, target_language, text, preferred });
            assert(ts@ =~= before.push(ts@[before.len() as int]));
            assert(tviews(ts@) =~= v1.push((None, target_language@, text@, preferred)));
        },
    }
    assert(tviews(ts@) == (match first_target(v1, target_language@, 0) {
        Some(i) => v1.update(i, (v1[i].0, target_language@, text@, v1[i].3 || preferred)),
        None => v1.push((None, target_language@, text@, preferred)),
    }));
    item.translations = sorted_by_preference(&ts);
    true
}

/// Whether a translation made for a group of subtitles belongs to another
/// subtitle than `subtitle_id`: only the group's last subtitle shows it.
pub open spec fn group_mismatch(t: SubtitleTranslation, subtitle_id: Option<i64>) -> bool {
    match t.source_group {
        Some(g) => (if g.subtitle_ids@.len() == 0 {
            None
        } else {
            Some(g.subtitle_ids@.last())
        }) != subtitle_id,
        None => false,
    }
}

/// The source text of a group translation.
pub open spec fn group_text(t: SubtitleTranslation) -> Option<Seq<char>> {
    match t.source_group {
        Some(g) => Some(g.text@),
        None => None,
    }
}

/// The text of a stored translation that is worth showing: not blank and not
/// into the language of the subtitle or of the translation's source.
pub open spec fn visible_spec(language: Option<Seq<char>>, t: SubtitleTranslation) -> Option<Seq<char>> {
    let same = (language matches Some(l) && same_language(l, t.target_language@)) || (opt_text(
        t.source_language,
    ) matches Some(l) && same_language(l, t.target_language@));
    if trim(t.text@).len() == 0 || same {
        None
    } else {
        Some(t.text@)
    }
}

fn group_mismatches(t: &SubtitleTranslation, subtitle_id: Option<i64>) -> (r: bool)
    ensures
        r == group_mismatch(*t, subtitle_id),
{
    match &t.source_group {
        Some(g) => {
            let last = if g.subtitle_ids.len() == 0 {
                None
            } else {
                Some(g.subtitle_ids[g.subtitle_ids.len() - 1])
            };
            last != subtitle_id
        },
        None => false,
    }
}

fn group_text_of(t: &SubtitleTranslation) -> (r: Option<String>)
    ensures
        opt_text(r) == group_text(*t),
{
    match &t.source_group {
        Some(g) => Some(g.text.clone()),
        None => None,
    }
}

/// The text of a stored translation that is worth showing.
pub fn visible_translation(language: &Option<String>, t: &SubtitleTranslation) -> (r: Option<String>)
    ensures
        opt_text(r) == visible_spec(opt_text(*language), *t),
{
    let target = t.target_language.as_str();
    let a = match language {
        Some(l) => same_translation_language(l.as_str(), target),
        None => false,
    };
    let b = match &t.source_language {
        Some(l) => same_translation_language(l.as_str(), target),
        None => false,
    };
    if crate::text::is_blank(t.text.as_str()) || a || b {
        None
    } else {
        Some(t.text.clone())
    }
}

/// The translations without those into `target`, in order.
pub open spec fn remove_target(ts: Seq<TransView>, target: Seq<char>) -> Seq<TransView>
    decreases ts.len(),
{
    if ts.len() == 0 {
        ts
    } else {
        let rest = remove_target(ts.drop_last(), target);
        if ts.last().1 != target {
            rest.push(ts.last())
        } else {
            rest
        }
    }
}

/// The translations of an item after a completed translation arrives, and
/// whether it was taken: a group translation is taken only by the group's last
/// subtitle; one not worth showing removes that language; otherwise it is
/// taken as an update and carries the group's source text.
pub open spec fn completed_spec(
    language: Option<Seq<char>>,
    subtitle_id: Option<i64>,
    ts: Seq<TransView>,
    t: SubtitleTranslation,
    preferred: bool,
) -> (Seq<TransView>, bool) {
    if group_mismatch(t, subtitle_id) {
        (ts, false)
    } else {
        match visible_spec(language, t) {
            None => (remove_target(ts, t.target_language@), false),
            Some(text) => {
                let u = update_translation_spec(language, ts, t.target_language@, text, preferred);
                let ts2 = u.0;
                (
                    match first_target(ts2, t.target_language@, 0) {
                        Some(i) => ts2.update(i, (group_text(t), ts2[i].1, ts2[i].2, ts2[i].3)),
                        None => ts2,
                    },
                    u.1,
                )
            },
        }
    }
}

/// Takes a completed translation into an item; reports whether it was taken.
pub fn update_completed_translation(item: &mut PresentationItem, translation: SubtitleTranslation, preferred: bool) -> (r: bool)
    ensures
        (tviews(final(item).translations@), r) == completed_spec(
            opt_text(old(item).language),
            old(item).subtitle_id,
            tviews(old(item).translations@),
            translation,
            preferred,
        ),
        final(item).utterance_id == old(item).utterance_id,
        final(item).subtitle_id == old(item).subtitle_id,
        final(item).source == old(item).source,
        final(item).language == old(item).language,
        final(item).original == old(item).original,
        final(item).expires_at == old(item).expires_at,
{
    if group_mismatches(&translation, item.subtitle_id) {
        return false;
    }
    let target = translation.target_language.clone();
    match visible_translation(&item.language, &translation) {
        None => {
            let ghost v = tviews(item.translations@);
            let mut kept: Vec<PresentationTranslation> = Vec::new();
            let mut i: usize = 0;
            while i < item.translations.len()
                invariant
                    i <= item.translations@.len(),
                    v == tviews(item.translations@),
                    tviews(kept@) == remove_target(v.take(i as int), target@),
                decreases item.translations@.len() - i,
            {
                assert(v.take(i + 1).drop_last() =~= v.take(i as int));
                if !str_eq(item.translations[i].target_language.as_str(), target.as_str()) {
                    let t = clone_translation(&item.translations[i]);
                    let ghost before = kept@;
                    kept.push(t);
                    assert(kept@ =~= before.push(kept@[before.len() as int]));
                    assert(tviews(kept@) =~= remove_target(v.take(i as int), target@).push(v[i as int]));
                }
                i = i + 1;
            }
            assert(v.take(v.len() as int) =~= v);
            item.translations = kept;
            false
        },
        Some(text) => {
            let group = group_text_of(&translation);
            let updated = update_translation(item, target.clone(), text, preferred);
            match position_of_target(&item.translations, target.as_str()) {
                Some(k) => {
                    let old_t = clone_translation(&item.translations[k]);
                    let ghost v = tviews(item.translations@);
                    item.translations.set(
                        k,
                        PresentationTranslation {
                            original: group,
                            target_language: old_t.target_language,
                            text: old_t.text,
                            preferred: old_t.preferred,
                        },
                    );
                    assert(tviews(item.translations@) =~= v.update(k as int, (group_text(translation), v[k as int].1, v[k as int].2, v[k as int].3)));
                },
                None => {},
            }
            updated
        },
    }
}

/// The translations an item starts with, from the first `n` stored
/// translations of a subtitle: those worth showing, the first one preferred.
pub open spec fn subtitle_translations(
    ts: Seq<SubtitleTranslation>,
    language: Option<Seq<char>>,
    subtitle_id: Option<i64>,
    n: int,
) -> Seq<TransView>
    decreases n,
{
    if n <= 0 || n > ts.len() {
        Seq::empty()
    } else {
        let rest = subtitle_translations(ts, language, subtitle_id, n - 1);
        let t = ts[n - 1];
        if group_mismatch(t, subtitle_id) {
            rest
        } else {
            match visible_spec(language, t) {
                Some(text) => rest.push((group_text(t), t.target_language@, text, n - 1 == 0)),
                None => rest,
            }
        }
    }
}

/// An item as values.
pub type ItemView = (Option<Seq<char>>, Option<i64>, Seq<char>, Option<Seq<char>>, Seq<char>, Seq<TransView>, u64);

pub open spec fn iview(i: PresentationItem) -> ItemView {
    (opt_text(i.utterance_id), i.subtitle_id, i.source@, opt_text(i.language), i.original@, tviews(i.translations@), i.expires_at)
}

/// The item a final subtitle is shown as.
pub open spec fn subtitle_item(s: Subtitle, utterance_id: Option<Seq<char>>, expires_at: u64) -> ItemView {
    (
        utterance_id,
        s.id,
        s.source@,
        opt_text(s.language),
        s.text@,
        subtitle_translations(s.translations@, opt_text(s.language), s.id, s.translations@.len() as int),
        expires_at,
    )
}

/// The item a final subtitle is shown as.
pub fn item_from_subtitle(subtitle: Subtitle, utterance_id: Option<String>, expires_at: u64) -> (r: PresentationItem)
    ensures
        iview(r) == subtitle_item(subtitle, opt_text(utterance_id), expires_at),
{
    let ghost all = subtitle.translations@;
    let mut ts: Vec<PresentationTranslation> = Vec::new();
    let mut i: usize = 0;
    while i < subtitle.translations.len()
        invariant
            i <= all.len(),
            all == subtitle.translations@,
            tviews(ts@) == subtitle_translations(all, opt_text(subtitle.language), subtitle.id, i as int),
        decreases all.len() - i,
    {
        let t = &subtitle.translations[i];
        if !group_mismatches(t, subtitle.id) {
            match visible_translation(&subtitle.language, t) {
                Some(text) => {
                    let ghost before = ts@;
                    ts.push(PresentationTranslation {
                        original: group_text_of(t),
                        target_language: t.target_language.clone(),
                        text,
                        preferred: i == 0,
                    });
                    assert(ts@ =~= before.push(ts@[before.len() as int]));
                    assert(tviews(ts@) =~= tviews(before).push(tview(ts@[before.len() as int])));
                },
                None => {},
            }
        }
        i = i + 1;
    }
    PresentationItem {
        utterance_id,
        subtitle_id: subtitle.id,
        source: subtitle.source,
        language: subtitle.language,
        original: subtitle.text,
        translations: ts,
        expires_at,
    }
}

/// The item a partial recognition result is shown as.
pub fn item_from_partial(utterance_id: String, source: String, text: String, language: Option<String>, expires_at: u64) -> (r: PresentationItem)
    ensures
        iview(r) == (Some(utterance_id@), None::<i64>, source@, opt_text(language), text@, Seq::<TransView>::empty(), expires_at),
{
    let r = PresentationItem {
        utterance_id: Some(utterance_id),
        subtitle_id: None,
        source,
        language,
        original: text,
        translations: Vec::new(),
        expires_at,
    };
    assert(tviews(r.translations@) =~= Seq::<TransView>::empty());
    r
}

/// Position of the first preferred translation at or after `k`.
pub open spec fn first_preferred(ts: Seq<TransView>, k: int) -> Option<int>
    decreases ts.len() - k,
{
    if k < 0 || k >= ts.len() {
        None
    } else if ts[k].3 {
        Some(k)
    } else {
        first_preferred(ts, k + 1)
    }
}

/// The translations a display shows: the preferred one only, or all.
pub open spec fn chosen_translations(ts: Seq<TransView>, translation_display: Seq<char>) -> Seq<TransView> {
    if translation_display == "preferred_only"@ {
        match first_preferred(ts, 0) {
            Some(i) => seq![ts[i]],
            None => Seq::empty(),
        }
    } else {
        ts
    }
}

/// The texts of translations joined by `separator`.
pub open spec fn join_texts(ts: Seq<TransView>, separator: Seq<char>) -> Seq<char>
    decreases ts.len(),
{
    if ts.len() == 0 {
        Seq::empty()
    } else if ts.len() == 1 {
        ts[0].2
    } else {
        join_texts(ts.drop_last(), separator) + separator + ts.last().2
    }
}

/// The first source text carried by a translation at or after `k`.
pub open spec fn first_original(ts: Seq<TransView>, k: int) -> Option<Seq<char>>
    decreases ts.len() - k,
{
    if k < 0 || k >= ts.len() {
        None
    } else if ts[k].0.is_some() {
        ts[k].0
    } else {
        first_original(ts, k + 1)
    }
}

/// The text an item is displayed with: in `translation` mode the chosen
/// translations (else the original), in `bilingual` mode the source text and
/// the chosen translations (else the original), otherwise the original.
pub open spec fn display_spec(
    original: Seq<char>,
    ts: Seq<TransView>,
    mode: Seq<char>,
    translation_display: Seq<char>,
    separator: Seq<char>,
) -> Seq<char> {
    let c = chosen_translations(ts, translation_display);
    if mode == "translation"@ {
        if c.len() > 0 {
            join_texts(c, separator)
        } else {
            original
        }
    } else if mode == "bilingual"@ {
        if c.len() > 0 {
            (match first_original(c, 0) {
                Some(o) => o,
                None => original,
            }) + separator + join_texts(c, separator)
        } else {
            original
        }
    } else {
        original
    }
}

fn chosen_of(ts: &Vec<PresentationTranslation>, translation_display: &str) -> (r: Vec<PresentationTranslation>)
    ensures
        tviews(r@) == chosen_translations(tviews(ts@), translation_display@),
{
    let ghost v = tviews(ts@);
    if str_eq(translation_display, "preferred_only") {
        let mut i: usize = 0;
        while i < ts.len()
            invariant
                i <= ts@.len(),
                v == tviews(ts@),
                translation_display@ == "preferred_only"@,
                first_preferred(v, 0) == first_preferred(v, i as int),
            decreases ts@.len() - i,
        {
            if ts[i].preferred {
                let mut r: Vec<PresentationTranslation> = Vec::new();
                r.push(clone_translation(&ts[i]));
                assert(tviews(r@) =~= seq![v[i as int]]);
                return r;
            }
            i = i + 1;
        }
        let r: Vec<PresentationTranslation> = Vec::new();
        assert(tviews(r@) =~= Seq::<TransView>::empty());
        r
    } else {
        let mut r: Vec<PresentationTranslation> = Vec::new();
        let mut i: usize = 0;
        while i < ts.len()
            invariant
                i <= ts@.len(),
                v == tviews(ts@),
                translation_display@ != "preferred_only"@,
                tviews(r@) == v.take(i as int),
                r@.len() == i,
            decreases ts@.len() - i,
        {
            let ghost before = r@;
            r.push(clone_translation(&ts[i]));
            assert(r@ =~= before.push(r@[i as int]));
            assert(tviews(r@) =~= v.take(i + 1));
            i = i + 1;
        }
        assert(v.take(v.len() as int) =~= v);
        r
    }
}

fn joined(ts: &Vec<PresentationTranslation>, separator: &str) -> (r: String)
    ensures
        r@ == join_texts(tviews(ts@), separator@),
{
    let ghost v = tviews(ts@);
    let mut out = String::new();
    let mut i: usize = 0;
    while i < ts.len()
        invariant
            i <= ts@.len(),
            v == tviews(ts@),
            out@ == join_texts(v.take(i as int), separator@),
        decreases ts@.len() - i,
    {
        assert(v.take(i + 1).drop_last() =~= v.take(i as int));
        if i > 0 {
            crate::text::push_str(&mut out, separator);
        }
        crate::text::push_str(&mut out, ts[i].text.as_str());
        proof {
            if i == 0 {
                assert(out@ =~= v.take(1)[0].2);
            }
        }
        i = i + 1;
    }
    assert(v.take(v.len() as int) =~= v);
    out
}

fn first_original_of(ts: &Vec<PresentationTranslation>) -> (r: Option<String>)
    ensures
        opt_text(r) == first_original(tviews(ts@), 0),
{
    let ghost v = tviews(ts@);
    let mut i: usize = 0;
    while i < ts.len()
        invariant
            i <= ts@.len(),
            v == tviews(ts@),
            first_original(v, 0) == first_original(v, i as int),
        decreases ts@.len() - i,
    {
        if let Some(o) = &ts[i].original {
            return Some(o.clone());
        }
        i = i + 1;
    }
    None
}

/// The text an item is displayed with.
pub fn display_text(item: &PresentationItem, mode: &str, translation_display: &str, separator: &str) -> (r: String)
    ensures
        r@ == display_spec(item.original@, tviews(item.translations@), mode@, translation_display@, separator@),
{
    let chosen = chosen_of(&item.translations, translation_display);
    if str_eq(mode, "translation") {
        if chosen.len() > 0 {
            joined(&chosen, separator)
        } else {
            item.original.clone()
        }
    } else if str_eq(mode, "bilingual") {
        if chosen.len() > 0 {
            let head = match first_original_of(&chosen) {
                Some(o) => o,
                None => item.original.clone(),
            };
            let tail = joined(&chosen, separator);
            crate::text::concat3(head.as_str(), separator, tail.as_str())
        } else {
            item.original.clone()
        }
    } else {
        item.original.clone()
    }
}

/// The side messages from `source` are drawn on.
pub open spec fn side_of(source: Seq<char>) -> MessageSide {
    if source == "microphone"@ || source == "chatbox"@ {
        MessageSide::Right
    } else {
        MessageSide::Left
    }
}

/// The wrist message an item is shown as.
pub fn wrist_message(item: &PresentationItem, content_mode: &str, translation_display: &str) -> (r: WristMessage)
    ensures
        r.text@ == display_spec(item.original@, tviews(item.translations@), content_mode@, translation_display@, "\n"@),
        r.side == side_of(item.source@),
{
    let s = item.source.as_str();
    let side = if str_eq(s, "microphone") || str_eq(s, "chatbox") {
        MessageSide::Right
    } else {
        MessageSide::Left
    };
    WristMessage { text: display_text(item, content_mode, translation_display, "\n"), side }
}

/// `now + duration`, saturating at the end of time.
pub open spec fn expiry_spec(now: u64, duration: u64) -> u64 {
    if now + duration > u64::MAX {
        u64::MAX
    } else {
        (now + duration) as u64
    }
}

fn expiry(now: u64, duration: u64) -> (r: u64)
    ensures
        r == expiry_spec(now, duration),
{
    now.saturating_add(duration)
}

/// The item a live translation snapshot is shown as; the snapshot's
/// translation is included only when translation partials are shown.
pub open spec fn live_item(
    source: Seq<char>,
    snapshot: LiveTranslation,
    with_translation: bool,
    expires_at: u64,
) -> ItemView {
    (
        Some(snapshot.utterance_id@),
        None,
        source,
        opt_text(snapshot.language),
        snapshot.text@,
        if with_translation && snapshot.translation@.len() > 0 {
            seq![(None, snapshot.target_language@, snapshot.translation@, true)]
        } else {
            Seq::empty()
        },
        expires_at,
    )
}

fn live_item_of(source: String, snapshot: LiveTranslation, with_translation: bool, expires_at: u64) -> (r: PresentationItem)
    ensures
        iview(r) == live_item(source@, snapshot, with_translation, expires_at),
{
    let ghost snap = snapshot;
    let mut item = item_from_partial(snapshot.utterance_id, source, snapshot.text, snapshot.language, expires_at);
    if with_translation && crate::text::char_count(snapshot.translation.as_str()) > 0 {
        item.translations.push(PresentationTranslation {
            original: None,
            target_language: snapshot.target_language,
            text: snapshot.translation,
            preferred: true,
        });
        assert(tviews(item.translations@) =~= seq![(None::<Seq<char>>, snap.target_language@, snap.translation@, true)]);
    }
    item
}

pub open spec fn oview(o: Option<PresentationItem>) -> Option<ItemView> {
    match o {
        Some(i) => Some(iview(i)),
        None => None,
    }
}

/// Whether an item is the partial result of `source`'s utterance `utterance_id`.
pub open spec fn is_partial_of(item: Option<ItemView>, source: Seq<char>, utterance_id: Seq<char>) -> bool {
    item matches Some(p) && p.2 == source && p.0 == Some(utterance_id)
}

/// The headset state as values: the current item, the partial item, and the ended utterances.
pub type HeadsetView = (Option<ItemView>, Option<ItemView>, Seq<(Seq<char>, Seq<char>)>);

/// The headset state after one event at time `now`; a shown item expires
/// `display_ms` after it arrives.
pub open spec fn headset_step(
    st: HeadsetView,
    e: PresentationEvent,
    now: u64,
    c: VrOverlayHeadsetConfig,
    display_ms: u64,
) -> HeadsetView {
    let exp = expiry_spec(now, display_ms);
    let shown = |s: Seq<char>| source_shown(s, c.include_speaker, c.include_microphone, c.include_chatbox);
    match e {
        PresentationEvent::LiveTranslationUpdated { source, snapshot } => if c.show_partials && shown(
            source@,
        ) && !st.2.contains((source@, snapshot.utterance_id@)) {
            (st.0, Some(live_item(source@, snapshot, c.show_translation_partials, exp)), st.2)
        } else {
            st
        },
        PresentationEvent::RecognitionPartial { utterance_id, source, text, language } => if c.show_partials
            && shown(source@) && trim(text@).len() > 0 && !st.2.contains((source@, utterance_id@)) {
            (
                st.0,
                Some((Some(utterance_id@), None, source@, opt_text(language), text@, Seq::empty(), exp)),
                st.2,
            )
        } else {
            st
        },
        PresentationEvent::RecognitionCancelled { utterance_id, source } => (
            st.0,
            if is_partial_of(st.1, source@, utterance_id@) {
                None
            } else {
                st.1
            },
            remember_spec(st.2, (source@, utterance_id@)),
        ),
        PresentationEvent::RecognitionReset { source } => (
            st.0,
            if st.1 matches Some(p) && p.2 == source@ {
                None
            } else {
                st.1
            },
            without_source(st.2, source@),
        ),
        PresentationEvent::Final { utterance_id, subtitle } => {
            let partial = match utterance_id {
                Some(u) => if is_partial_of(st.1, subtitle.source@, u@) {
                    None
                } else {
                    st.1
                },
                None => st.1,
            };
            let terminated = match utterance_id {
                Some(u) => remember_spec(st.2, (subtitle.source@, u@)),
                None => st.2,
            };
            (
                if shown(subtitle.source@) {
                    Some(subtitle_item(subtitle, opt_text(utterance_id), exp))
                } else {
                    st.0
                },
                partial,
                terminated,
            )
        },
        PresentationEvent::TranslationPartial { subtitle_id, text, target_language, preferred } => {
            match st.0 {
                Some(cur) => if c.show_translation_partials && cur.1 == Some(subtitle_id) {
                    let u = update_translation_spec(cur.3, cur.5, target_language@, text@, preferred);
                    (Some((cur.0, cur.1, cur.2, cur.3, cur.4, u.0, cur.6)), st.1, st.2)
                } else {
                    st
                },
                None => st,
            }
        },
        PresentationEvent::TranslationCompleted { subtitle_id, translation, preferred } => {
            match st.0 {
                Some(cur) => if cur.1 == Some(subtitle_id) {
                    let u = completed_spec(cur.3, cur.1, cur.5, translation, preferred);
                    (
                        Some((cur.0, cur.1, cur.2, cur.3, cur.4, u.0, if u.1 { exp } else { cur.6 })),
                        st.1,
                        st.2,
                    )
                } else {
                    st
                },
                None => st,
            }
        },
    }
}

fn shown_in_headset(source: &str, c: &VrOverlayHeadsetConfig) -> (r: bool)
    ensures
        r == source_shown(source@, c.include_speaker, c.include_microphone, c.include_chatbox),
{
    source_enabled(source, c.include_speaker, c.include_microphone, c.include_chatbox)
}

fn matches_partial(item: &Option<PresentationItem>, source: &str, utterance_id: &str) -> (r: bool)
    ensures
        r == is_partial_of(oview(*item), source@, utterance_id@),
{
    match item {
        Some(p) => str_eq(p.source.as_str(), source) && match &p.utterance_id {
            Some(u) => str_eq(u.as_str(), utterance_id),
            None => false,
        },
        None => false,
    }
}

fn from_source(item: &Option<PresentationItem>, source: &str) -> (r: bool)
    ensures
        r == (oview(*item) matches Some(p) && p.2 == source@),
{
    match item {
        Some(p) => str_eq(p.source.as_str(), source),
        None => false,
    }
}

/// What the headset shows: the newest final item, or the partial result that
/// is being recognized.
#[derive(Debug)]
pub struct HeadsetPresentation {
    current: Option<PresentationItem>,
    partial: Option<PresentationItem>,
    terminated: TerminatedUtterances,
}

impl HeadsetPresentation {
    pub closed spec fn view_state(&self) -> HeadsetView {
        (oview(self.current), oview(self.partial), self.terminated.view_seq())
    }

    /// Nothing shown yet.
    pub fn new() -> (r: Self)
        ensures
            r.view_state() == (None::<ItemView>, None::<ItemView>, Seq::<(Seq<char>, Seq<char>)>::empty()),
    {
        HeadsetPresentation { current: None, partial: None, terminated: TerminatedUtterances::new() }
    }

    /// The newest final item.
    pub fn current(&self) -> (r: Option<&PresentationItem>)
        ensures
            match r {
                Some(i) => self.view_state().0 == Some(iview(*i)),
                None => self.view_state().0.is_none(),
            },
    {
        self.current.as_ref()
    }

    /// The partial result being recognized.
    pub fn partial(&self) -> (r: Option<&PresentationItem>)
        ensures
            match r {
                Some(i) => self.view_state().1 == Some(iview(*i)),
                None => self.view_state().1.is_none(),
            },
    {
        self.partial.as_ref()
    }

    /// Applies one event at time `now`; shown items expire `display_ms` later.
    pub fn apply(&mut self, event: PresentationEvent, now: u64, config: &VrOverlayHeadsetConfig, display_ms: u64)
        ensures
            final(self).view_state() == headset_step(old(self).view_state(), event, now, *config, display_ms),
    {
        let ghost e = event;
        let exp = expiry(now, display_ms);
        match event {
            PresentationEvent::LiveTranslationUpdated { source, snapshot } => {
                if config.show_partials && shown_in_headset(source.as_str(), config)
                    && !self.terminated.contains(source.as_str(), snapshot.utterance_id.as_str()) {
                    self.partial = Some(live_item_of(source, snapshot, config.show_translation_partials, exp));
                }
            },
            PresentationEvent::RecognitionPartial { utterance_id, source, text, language } => {
                if config.show_partials && shown_in_headset(source.as_str(), config)
                    && !crate::text::is_blank(text.as_str())
                    && !self.terminated.contains(source.as_str(), utterance_id.as_str()) {
                    let item = item_from_partial(utterance_id, source, text, language, exp);
                    self.partial = Some(item);
                }
            },
            PresentationEvent::RecognitionCancelled { utterance_id, source } => {
                self.terminated.remember(source.as_str(), utterance_id.as_str());
                if matches_partial(&self.partial, source.as_str(), utterance_id.as_str()) {
                    self.partial = None;
                }
            },
            PresentationEvent::RecognitionReset { source } => {
                self.terminated.reset_source(source.as_str());
                if from_source(&self.partial, source.as_str()) {
                    self.partial = None;
                }
            },
            PresentationEvent::Final { utterance_id, subtitle } => {
                if let Some(u) = &utterance_id {
                    self.terminated.remember(subtitle.source.as_str(), u.as_str());
                    if matches_partial(&self.partial, subtitle.source.as_str(), u.as_str()) {
                        self.partial = None;
                    }
                }
                if shown_in_headset(subtitle.source.as_str(), config) {
                    self.current = Some(item_from_subtitle(subtitle, utterance_id, exp));
                }
            },
            PresentationEvent::TranslationPartial { subtitle_id, text, target_language, preferred } => {
                if config.show_translation_partials {
                    match self.current.take() {
                        Some(mut item) => {
                            if item.subtitle_id == Some(subtitle_id) {
                                update_translation(&mut item, target_language, text, preferred);
                            }
                            self.current = Some(item);
                        },
                        None => {},
                    }
                }
            },
            PresentationEvent::TranslationCompleted { subtitle_id, translation, preferred } => {
                match self.current.take() {
                    Some(mut item) => {
                        if item.subtitle_id == Some(subtitle_id) {
                            if update_completed_translation(&mut item, translation, preferred) {
                                item.expires_at = exp;
                            }
                        }
                        self.current = Some(item);
                    },
                    None => {},
                }
            },
        }
    }

    /// Turning partial results off discards the partial item.
    pub fn set_show_partials(&mut self, enabled: bool)
        ensures
            final(self).view_state() == (if enabled {
                old(self).view_state()
            } else {
                (old(self).view_state().0, None, old(self).view_state().2)
            }),
    {
        if !enabled {
            self.partial = None;
        }
    }

    /// What the headset shows at present: the partial item while partial
    /// results are shown, else the current item, if its source is shown; with
    /// the time it expires (fading is decided from it).
    pub fn frame_content(&self, config: &VrOverlayHeadsetConfig, translation_display: &str) -> (r: Option<(String, u64)>)
        ensures
            ({
                let st = self.view_state();
                let item = if config.show_partials && st.1.is_some() {
                    st.1
                } else {
                    st.0
                };
                match r {
                    Some((text, expires_at)) => item matches Some(i) && source_shown(
                        i.2,
                        config.include_speaker,
                        config.include_microphone,
                        config.include_chatbox,
                    ) && text@ == display_spec(i.4, i.5, config.content_mode@, translation_display@, "\n"@)
                        && expires_at == i.6,
                    None => !(item matches Some(i) && source_shown(
                        i.2,
                        config.include_speaker,
                        config.include_microphone,
                        config.include_chatbox,
                    )),
                }
            }),
    {
        let item = if config.show_partials && self.partial.is_some() {
            self.partial.as_ref()
        } else {
            self.current.as_ref()
        };
        match item {
            Some(i) => {
                if !shown_in_headset(i.source.as_str(), config) {
                    return None;
                }
                Some((display_text(i, config.content_mode.as_str(), translation_display, "\n"), i.expires_at))
            },
            None => None,
        }
    }
}

/// Most wrist entries kept, after clamping the configured limit to `3..=10`.
pub open spec fn entry_limit(max_entries: u32) -> int {
    if max_entries < 3 {
        3
    } else if max_entries > 10 {
        10
    } else {
        max_entries as int
    }
}

/// The newest `limit` items.
pub open spec fn newest(items: Seq<ItemView>, limit: int) -> Seq<ItemView> {
    if items.len() > limit {
        items.subrange(items.len() - limit, items.len() as int)
    } else {
        items
    }
}

pub open spec fn iviews(items: Seq<PresentationItem>) -> Seq<ItemView> {
    items.map_values(|i: PresentationItem| iview(i))
}

/// Position of the first item from `source` at or after `k`.
pub open spec fn first_from_source(items: Seq<ItemView>, source: Seq<char>, k: int) -> Option<int>
    decreases items.len() - k,
{
    if k < 0 || k >= items.len() {
        None
    } else if items[k].2 == source {
        Some(k)
    } else {
        first_from_source(items, source, k + 1)
    }
}

/// Position of the first item of subtitle `id` at or after `k`.
pub open spec fn first_of_subtitle(items: Seq<ItemView>, id: i64, k: int) -> Option<int>
    decreases items.len() - k,
{
    if k < 0 || k >= items.len() {
        None
    } else if items[k].1 == Some(id) {
        Some(k)
    } else {
        first_of_subtitle(items, id, k + 1)
    }
}

/// The partial items after `item` arrives: it replaces the partial item of
/// its source, or joins the list.
pub open spec fn upsert_partial(items: Seq<ItemView>, item: ItemView) -> Seq<ItemView> {
    match first_from_source(items, item.2, 0) {
        Some(i) => items.update(i, item),
        None => items.push(item),
    }
}

/// The items except those from `source` (and, when `utterance_id` is given,
/// only those of that utterance), in order.
pub open spec fn drop_items(items: Seq<ItemView>, source: Seq<char>, utterance_id: Option<Seq<char>>) -> Seq<ItemView>
    decreases items.len(),
{
    if items.len() == 0 {
        items
    } else {
        let rest = drop_items(items.drop_last(), source, utterance_id);
        let x = items.last();
        let drop = x.2 == source && match utterance_id {
            Some(u) => x.0 == Some(u),
            None => true,
        };
        if drop {
            rest
        } else {
            rest.push(x)
        }
    }
}

/// An item with other translations, and possibly another expiry.
pub open spec fn with_translations(i: ItemView, ts: Seq<TransView>, expires_at: u64) -> ItemView {
    (i.0, i.1, i.2, i.3, i.4, ts, expires_at)
}

/// The wrist state as values: entries, partial items, ended utterances, last activity.
pub type WristView = (Seq<ItemView>, Seq<ItemView>, Seq<(Seq<char>, Seq<char>)>, Option<u64>);

/// The wrist state after one event at time `now`.
pub open spec fn wrist_step(st: WristView, e: PresentationEvent, now: u64, c: VrOverlayWristConfig) -> WristView {
    let shown = |s: Seq<char>| source_shown(s, c.include_speaker, c.include_microphone, c.include_chatbox);
    match e {
        PresentationEvent::LiveTranslationUpdated { source, snapshot } => if c.show_partials && shown(
            source@,
        ) && !st.2.contains((source@, snapshot.utterance_id@)) {
            (st.0, upsert_partial(st.1, live_item(source@, snapshot, c.show_translation_partials, now)), st.2, Some(now))
        } else {
            st
        },
        PresentationEvent::RecognitionPartial { utterance_id, source, text, language } => if c.show_partials
            && shown(source@) && trim(text@).len() > 0 && !st.2.contains((source@, utterance_id@)) {
            (
                st.0,
                upsert_partial(st.1, (Some(utterance_id@), None, source@, opt_text(language), text@, Seq::empty(), now)),
                st.2,
                Some(now),
            )
        } else {
            st
        },
        PresentationEvent::RecognitionCancelled { utterance_id, source } => (
            st.0,
            drop_items(st.1, source@, Some(utterance_id@)),
            remember_spec(st.2, (source@, utterance_id@)),
            st.3,
        ),
        PresentationEvent::RecognitionReset { source } => (
            st.0,
            drop_items(st.1, source@, None),
            without_source(st.2, source@),
            st.3,
        ),
        PresentationEvent::Final { utterance_id, subtitle } => {
            let partials = match utterance_id {
                Some(u) => drop_items(st.1, subtitle.source@, Some(u@)),
                None => st.1,
            };
            let terminated = match utterance_id {
                Some(u) => remember_spec(st.2, (subtitle.source@, u@)),
                None => st.2,
            };
            if shown(subtitle.source@) {
                (
                    newest(st.0.push(subtitle_item(subtitle, opt_text(utterance_id), now)), entry_limit(c.max_entries)),
                    partials,
                    terminated,
                    Some(now),
                )
            } else {
                (st.0, partials, terminated, st.3)
            }
        },
        PresentationEvent::TranslationPartial { subtitle_id, text, target_language, preferred } => {
            if c.show_translation_partials {
                match first_of_subtitle(st.0, subtitle_id, 0) {
                    Some(k) => {
                        let cur = st.0[k];
                        let u = update_translation_spec(cur.3, cur.5, target_language@, text@, preferred);
                        (st.0.update(k, with_translations(cur, u.0, cur.6)), st.1, st.2, if u.1 {
                            Some(now)
                        } else {
                            st.3
                        })
                    },
                    None => st,
                }
            } else {
                st
            }
        },
        PresentationEvent::TranslationCompleted { subtitle_id, translation, preferred } => {
            match first_of_subtitle(st.0, subtitle_id, 0) {
                Some(k) => {
                    let cur = st.0[k];
                    let u = completed_spec(cur.3, cur.1, cur.5, translation, preferred);
                    (st.0.update(k, with_translations(cur, u.0, cur.6)), st.1, st.2, if u.1 {
                        Some(now)
                    } else {
                        st.3
                    })
                },
                None => st,
            }
        },
    }
}

fn shown_on_wrist(source: &str, c: &VrOverlayWristConfig) -> (r: bool)
    ensures
        r == source_shown(source@, c.include_speaker, c.include_microphone, c.include_chatbox),
{
    source_enabled(source, c.include_speaker, c.include_microphone, c.include_chatbox)
}

fn limit_of(max_entries: u32) -> (r: usize)
    ensures
        r == entry_limit(max_entries),
{
    if max_entries < 3 {
        3
    } else if max_entries > 10 {
        10
    } else {
        max_entries as usize
    }
}

fn upsert_partial_vec(items: &mut Vec<PresentationItem>, item: PresentationItem)
    ensures
        iviews(final(items)@) == upsert_partial(iviews(old(items)@), iview(item)),
{
    let ghost v = iviews(items@);
    let ghost it = iview(item);
    let mut i: usize = 0;
    while i < items.len()
        invariant
            i <= items@.len(),
            v == iviews(items@),
            items@ == old(items)@,
            first_from_source(v, it.2, 0) == first_from_source(v, it.2, i as int),
            it == iview(item),
        decreases items@.len() - i,
    {
        if str_eq(items[i].source.as_str(), item.source.as_str()) {
            items.set(i, item);
            assert(iviews(items@) =~= v.update(i as int, it));
            return;
        }
        i = i + 1;
    }
    let ghost before = items@;
    items.push(item);
    assert(items@ =~= before.push(items@[before.len() as int]));
    assert(iviews(items@) =~= v.push(it));
}

fn drop_items_vec(items: Vec<PresentationItem>, source: &str, utterance_id: Option<&str>) -> (r: Vec<PresentationItem>)
    ensures
        iviews(r@) == drop_items(
            iviews(items@),
            source@,
            match utterance_id {
                Some(u) => Some(u@),
                None => None,
            },
        ),
{
    let ghost orig = iviews(items@);
    let ghost uid = match utterance_id {
        Some(u) => Some(u@),
        None => None::<Seq<char>>,
    };
    let mut rest = items;
    let mut kept: Vec<PresentationItem> = Vec::new();
    while rest.len() > 0
        invariant
            iviews(rest@) == orig.subrange(orig.len() - rest@.len(), orig.len() as int),
            rest@.len() <= orig.len(),
            iviews(kept@) == drop_items(orig.take(orig.len() - rest@.len()), source@, uid),
            uid == match utterance_id {
                Some(u) => Some(u@),
                None => None::<Seq<char>>,
            },
        decreases rest@.len(),
    {
        let ghost done = orig.len() - rest@.len();
        let ghost before = rest@;
        assert(iviews(before)[0] == orig[done]);
        let x = rest.remove(0);
        proof {
            assert(x == before[0]);
            assert(iview(x) == orig[done]);
            assert(rest@ =~= before.subrange(1, before.len() as int));
            assert forall|j: int| 0 <= j < rest@.len() implies #[trigger] iviews(rest@)[j] == orig[done + 1 + j] by {
                assert(rest@[j] == before[j + 1]);
                assert(iviews(before)[j + 1] == orig[done + 1 + j]);
            }
            assert(iviews(rest@) =~= orig.subrange(orig.len() - rest@.len(), orig.len() as int));
            assert(orig.take(done + 1).drop_last() =~= orig.take(done));
        }
        let drop = str_eq(x.source.as_str(), source) && match utterance_id {
            Some(u) => match &x.utterance_id {
                Some(xu) => str_eq(xu.as_str(), u),
                None => false,
            },
            None => true,
        };
        if !drop {
            let ghost before = kept@;
            kept.push(x);
            assert(kept@ =~= before.push(kept@[before.len() as int]));
            assert(iviews(kept@) =~= iviews(before).push(orig[done]));
        }
    }
    assert(orig.take(orig.len() as int) =~= orig);
    kept
}

fn first_of_subtitle_in(items: &Vec<PresentationItem>, id: i64) -> (r: Option<usize>)
    ensures
        match r {
            Some(k) => first_of_subtitle(iviews(items@), id, 0) == Some(k as int) && k < items@.len(),
            None => first_of_subtitle(iviews(items@), id, 0).is_none(),
        },
{
    let ghost v = iviews(items@);
    let mut i: usize = 0;
    while i < items.len()
        invariant
            i <= items@.len(),
            v == iviews(items@),
            first_of_subtitle(v, id, 0) == first_of_subtitle(v, id, i as int),
        decreases items@.len() - i,
    {
        if items[i].subtitle_id == Some(id) {
            return Some(i);
        }
        i = i + 1;
    }
    None
}

/// Drops the oldest items beyond `limit`.
fn keep_newest(entries: &mut Vec<PresentationItem>, limit: usize)
    requires
        3 <= limit <= 10,
    ensures
        iviews(final(entries)@) == newest(iviews(old(entries)@), limit as int),
        final(entries)@.len() <= limit,
{
    let ghost orig = entries@;
    while entries.len() > limit
        invariant
            entries@ == orig.subrange(orig.len() - entries@.len(), orig.len() as int),
            entries@.len() <= orig.len(),
            orig.len() > limit ==> entries@.len() >= limit,
            orig.len() <= limit ==> entries@.len() == orig.len(),
            orig == old(entries)@,
        decreases entries@.len(),
    {
        entries.remove(0);
        assert(entries@ =~= orig.subrange(orig.len() - entries@.len(), orig.len() as int));
    }
    proof {
        let k = orig.len() - entries@.len();
        assert(iviews(entries@) =~= iviews(orig).subrange(k, orig.len() as int));
        if orig.len() <= limit {
            assert(iviews(orig).subrange(0, orig.len() as int) =~= iviews(orig));
        }
    }
}

/// What the wrist shows: the recent final items and the partial results being recognized.
#[derive(Debug)]
pub struct WristPresentation {
    entries: Vec<PresentationItem>,
    partials: Vec<PresentationItem>,
    terminated: TerminatedUtterances,
    last_activity: Option<u64>,
}

impl WristPresentation {
    pub closed spec fn view_state(&self) -> WristView {
        (iviews(self.entries@), iviews(self.partials@), self.terminated.view_seq(), self.last_activity)
    }

    #[verifier::type_invariant]
    closed spec fn bounded(&self) -> bool {
        self.entries@.len() <= 10
    }

    /// Nothing shown yet.
    pub fn new() -> (r: Self)
        ensures
            r.view_state() == (Seq::<ItemView>::empty(), Seq::<ItemView>::empty(), Seq::<(Seq<char>, Seq<char>)>::empty(), None::<u64>),
            wrist_inv(r.view_state()),
    {
        let r = WristPresentation {
            entries: Vec::new(),
            partials: Vec::new(),
            terminated: TerminatedUtterances::new(),
            last_activity: None,
        };
        assert(iviews(r.entries@) =~= Seq::<ItemView>::empty());
        assert(iviews(r.partials@) =~= Seq::<ItemView>::empty());
        r
    }

    /// The number of final items kept; never more than ten.
    pub fn entry_count(&self) -> (r: usize)
        ensures
            r == self.view_state().0.len(),
            r <= 10,
    {
        proof {
            use_type_invariant(self);
        }
        self.entries.len()
    }

    /// The partial items, in order.
    pub fn partials(&self) -> (r: &Vec<PresentationItem>)
        ensures
            iviews(r@) == self.view_state().1,
    {
        &self.partials
    }

    /// Drops the oldest entries beyond the clamped limit.
    fn trim(&mut self, max_entries: u32)
        ensures
            final(self).view_state() == (
                newest(old(self).view_state().0, entry_limit(max_entries)),
                old(self).view_state().1,
                old(self).view_state().2,
                old(self).view_state().3,
            ),
    {
        let mut entries: Vec<PresentationItem> = Vec::new();
        std::mem::swap(&mut entries, &mut self.entries);
        keep_newest(&mut entries, limit_of(max_entries));
        self.entries = entries;
    }

    /// Keeps only the newest entries under a new limit.
    pub fn set_max_entries(&mut self, max_entries: u32)
        ensures
            final(self).view_state() == (
                newest(old(self).view_state().0, entry_limit(max_entries)),
                old(self).view_state().1,
                old(self).view_state().2,
                old(self).view_state().3,
            ),
    {
        self.trim(max_entries);
    }

    /// Turning partial results off discards the partial items.
    pub fn set_show_partials(&mut self, enabled: bool)
        ensures
            final(self).view_state() == (if enabled {
                old(self).view_state()
            } else {
                (old(self).view_state().0, Seq::<ItemView>::empty(), old(self).view_state().2, old(self).view_state().3)
            }),
    {
        proof {
            use_type_invariant(&*self);
        }
        if !enabled {
            self.partials = Vec::new();
            assert(iviews(self.partials@) =~= Seq::<ItemView>::empty());
        }
    }
}

impl WristPresentation {
    /// Applies one event at time `now`.
    pub fn apply(&mut self, event: PresentationEvent, now: u64, config: &VrOverlayWristConfig)
        ensures
            final(self).view_state() == wrist_step(old(self).view_state(), event, now, *config),
    {
        proof {
            use_type_invariant(&*self);
        }
        match event {
            PresentationEvent::LiveTranslationUpdated { source, snapshot } => {
                if config.show_partials && shown_on_wrist(source.as_str(), config)
                    && !self.terminated.contains(source.as_str(), snapshot.utterance_id.as_str()) {
                    let item = live_item_of(source, snapshot, config.show_translation_partials, now);
                    let mut partials: Vec<PresentationItem> = Vec::new();
                    std::mem::swap(&mut partials, &mut self.partials);
                    upsert_partial_vec(&mut partials, item);
                    self.partials = partials;
                    self.last_activity = Some(now);
                }
            },
            PresentationEvent::RecognitionPartial { utterance_id, source, text, language } => {
                if config.show_partials && shown_on_wrist(source.as_str(), config)
                    && !crate::text::is_blank(text.as_str())
                    && !self.terminated.contains(source.as_str(), utterance_id.as_str()) {
                    let item = item_from_partial(utterance_id, source, text, language, now);
                    let mut partials: Vec<PresentationItem> = Vec::new();
                    std::mem::swap(&mut partials, &mut self.partials);
                    upsert_partial_vec(&mut partials, item);
                    self.partials = partials;
                    self.last_activity = Some(now);
                }
            },
            PresentationEvent::RecognitionCancelled { utterance_id, source } => {
                let mut terminated = TerminatedUtterances::new();
                std::mem::swap(&mut terminated, &mut self.terminated);
                terminated.remember(source.as_str(), utterance_id.as_str());
                self.terminated = terminated;
                let mut partials: Vec<PresentationItem> = Vec::new();
                std::mem::swap(&mut partials, &mut self.partials);
                self.partials = drop_items_vec(partials, source.as_str(), Some(utterance_id.as_str()));
            },
            PresentationEvent::RecognitionReset { source } => {
                let mut terminated = TerminatedUtterances::new();
                std::mem::swap(&mut terminated, &mut self.terminated);
                terminated.reset_source(source.as_str());
                self.terminated = terminated;
                let mut partials: Vec<PresentationItem> = Vec::new();
                std::mem::swap(&mut partials, &mut self.partials);
                self.partials = drop_items_vec(partials, source.as_str(), None);
            },
            PresentationEvent::Final { utterance_id, subtitle } => {
                if let Some(u) = &utterance_id {
                    let mut terminated = TerminatedUtterances::new();
                    std::mem::swap(&mut terminated, &mut self.terminated);
                    terminated.remember(subtitle.source.as_str(), u.as_str());
                    self.terminated = terminated;
                    let mut partials: Vec<PresentationItem> = Vec::new();
                    std::mem::swap(&mut partials, &mut self.partials);
                    self.partials = drop_items_vec(partials, subtitle.source.as_str(), Some(u.as_str()));
                }
                if shown_on_wrist(subtitle.source.as_str(), config) {
                    let item = item_from_subtitle(subtitle, utterance_id, now);
                    let mut entries: Vec<PresentationItem> = Vec::new();
                    std::mem::swap(&mut entries, &mut self.entries);
                    let ghost before = entries@;
                    entries.push(item);
                    assert(entries@ =~= before.push(entries@[before.len() as int]));
                    assert(iviews(entries@) =~= iviews(before).push(iview(entries@[before.len() as int])));
                    keep_newest(&mut entries, limit_of(config.max_entries));
                    self.entries = entries;
                    self.last_activity = Some(now);
                }
            },
            PresentationEvent::TranslationPartial { subtitle_id, text, target_language, preferred } => {
                if config.show_translation_partials {
                    if let Some(k) = first_of_subtitle_in(&self.entries, subtitle_id) {
                        let mut entries: Vec<PresentationItem> = Vec::new();
                        std::mem::swap(&mut entries, &mut self.entries);
                        let ghost before = entries@;
                        let mut item = entries.remove(k);
                        let accepted = update_translation(&mut item, target_language, text, preferred);
                        entries.insert(k, item);
                        assert(entries@ =~= before.update(k as int, entries@[k as int]));
                        assert(iviews(entries@) =~= iviews(before).update(k as int, iview(entries@[k as int])));
                        self.entries = entries;
                        if accepted {
                            self.last_activity = Some(now);
                        }
                    }
                }
            },
            PresentationEvent::TranslationCompleted { subtitle_id, translation, preferred } => {
                if let Some(k) = first_of_subtitle_in(&self.entries, subtitle_id) {
                    let mut entries: Vec<PresentationItem> = Vec::new();
                    std::mem::swap(&mut entries, &mut self.entries);
                    let ghost before = entries@;
                    let mut item = entries.remove(k);
                    let accepted = update_completed_translation(&mut item, translation, preferred);
                    entries.insert(k, item);
                    assert(entries@ =~= before.update(k as int, entries@[k as int]));
                    assert(iviews(entries@) =~= iviews(before).update(k as int, iview(entries@[k as int])));
                    self.entries = entries;
                    if accepted {
                        self.last_activity = Some(now);
                    }
                }
            },
        }
    }
}

/// The messages of the items whose source is shown, in order.
pub open spec fn shown_messages(
    items: Seq<ItemView>,
    c: VrOverlayWristConfig,
    translation_display: Seq<char>,
) -> Seq<(Seq<char>, MessageSide)>
    decreases items.len(),
{
    if items.len() == 0 {
        Seq::empty()
    } else {
        let rest = shown_messages(items.drop_last(), c, translation_display);
        let x = items.last();
        if source_shown(x.2, c.include_speaker, c.include_microphone, c.include_chatbox) {
            rest.push((display_spec(x.4, x.5, c.content_mode@, translation_display, "\n"@), side_of(x.2)))
        } else {
            rest
        }
    }
}

/// Whether the wrist hides after `idle_hide_seconds` without activity.
pub open spec fn idle_hidden(last_activity: Option<u64>, now: u64, idle_hide_seconds: u32) -> bool {
    idle_hide_seconds > 0 && match last_activity {
        Some(last) => (if now >= last {
            now - last
        } else {
            0
        }) >= idle_hide_seconds * 1000,
        None => false,
    }
}

/// The wrist messages shown: the newest `limit` messages of the shown
/// entries and (when partial results are shown) partial items.
pub open spec fn wrist_messages(st: WristView, now: u64, c: VrOverlayWristConfig, translation_display: Seq<char>) -> Option<
    Seq<(Seq<char>, MessageSide)>,
> {
    let all = st.0 + (if c.show_partials {
        st.1
    } else {
        Seq::empty()
    });
    let m = shown_messages(all, c, translation_display);
    let limit = entry_limit(c.max_entries);
    let kept = if m.len() > limit {
        m.subrange(m.len() - limit, m.len() as int)
    } else {
        m
    };
    if idle_hidden(st.3, now, c.idle_hide_seconds) || kept.len() == 0 {
        None
    } else {
        Some(kept)
    }
}

pub open spec fn mviews(ms: Seq<WristMessage>) -> Seq<(Seq<char>, MessageSide)> {
    ms.map_values(|m: WristMessage| (m.text@, m.side))
}

fn add_messages(
    out: &mut Vec<WristMessage>,
    items: &Vec<PresentationItem>,
    c: &VrOverlayWristConfig,
    translation_display: &str,
    done: Ghost<Seq<ItemView>>,
)
    requires
        mviews(old(out)@) == shown_messages(done@, *c, translation_display@),
    ensures
        mviews(final(out)@) == shown_messages(done@ + iviews(items@), *c, translation_display@),
{
    let ghost v = iviews(items@);
    let mut i: usize = 0;
    while i < items.len()
        invariant
            i <= items@.len(),
            v == iviews(items@),
            mviews(out@) == shown_messages(done@ + v.take(i as int), *c, translation_display@),
        decreases items@.len() - i,
    {
        let ghost prefix = done@ + v.take(i as int);
        assert((done@ + v.take(i + 1)).drop_last() =~= prefix);
        assert((done@ + v.take(i + 1)).last() == v[i as int]);
        let item = &items[i];
        if shown_on_wrist(item.source.as_str(), c) {
            let ghost before = out@;
            out.push(wrist_message(item, c.content_mode.as_str(), translation_display));
            assert(out@ =~= before.push(out@[before.len() as int]));
            assert(mviews(out@) =~= mviews(before).push((out@[before.len() as int].text@, out@[before.len() as int].side)));
        }
        i = i + 1;
    }
    assert(v.take(v.len() as int) =~= v);
}

impl WristPresentation {
    /// The wrist messages shown at time `now`, or `None` when nothing is
    /// shown or the wrist is hidden for lack of activity.
    pub fn frame_messages(&self, now: u64, config: &VrOverlayWristConfig, translation_display: &str) -> (r: Option<Vec<WristMessage>>)
        ensures
            match r {
                Some(ms) => wrist_messages(self.view_state(), now, *config, translation_display@) == Some(mviews(ms@)),
                None => wrist_messages(self.view_state(), now, *config, translation_display@).is_none(),
            },
    {
        if config.idle_hide_seconds > 0 {
            if let Some(last) = self.last_activity {
                let elapsed = now.saturating_sub(last);
                if elapsed >= (config.idle_hide_seconds as u64) * 1000 {
                    return None;
                }
            }
        }
        let mut out: Vec<WristMessage> = Vec::new();
        assert(mviews(out@) =~= shown_messages(Seq::<ItemView>::empty(), *config, translation_display@));
        add_messages(&mut out, &self.entries, config, translation_display, Ghost(Seq::<ItemView>::empty()));
        assert(Seq::<ItemView>::empty() + iviews(self.entries@) =~= iviews(self.entries@));
        if config.show_partials {
            add_messages(&mut out, &self.partials, config, translation_display, Ghost(iviews(self.entries@)));
        } else {
            assert(iviews(self.entries@) + Seq::<ItemView>::empty() =~= iviews(self.entries@));
        }
        let limit = limit_of(config.max_entries);
        let ghost all = out@;
        let mut kept: Vec<WristMessage> = Vec::new();
        let start = if out.len() > limit {
            out.len() - limit
        } else {
            0
        };
        let mut i = start;
        while i < out.len()
            invariant
                start <= i <= out@.len(),
                out@ == all,
                mviews(kept@) == mviews(all).subrange(start as int, i as int),
                kept@.len() == i - start,
            decreases out@.len() - i,
        {
            let m = &out[i];
            let ghost before = kept@;
            kept.push(WristMessage { text: m.text.clone(), side: m.side });
            assert(kept@ =~= before.push(kept@[before.len() as int]));
            assert(mviews(kept@)[i - start] == mviews(all)[i as int]);
            assert(mviews(kept@) =~= mviews(all).subrange(start as int, i + 1));
            i = i + 1;
        }
        proof {
            if all.len() <= limit {
                assert(mviews(all).subrange(0, all.len() as int) =~= mviews(all));
            }
        }
        if kept.len() == 0 {
            None
        } else {
            Some(kept)
        }
    }
}

/// An utterance that ended is remembered.
pub proof fn lemma_remember_contains(v: Seq<(Seq<char>, Seq<char>)>, key: (Seq<char>, Seq<char>))
    ensures
        remember_spec(v, key).contains(key),
        v.len() <= MAX_TERMINATED_UTTERANCES ==> remember_spec(v, key).len() <= MAX_TERMINATED_UTTERANCES,
{
    if !v.contains(key) {
        let p = v.push(key);
        assert(p[p.len() - 1] == key);
        if v.len() + 1 > MAX_TERMINATED_UTTERANCES {
            assert(p.drop_first()[p.len() - 2] == key);
        }
    }
}

/// After an utterance is cancelled, a late partial result of it is not shown
/// on the headset.
pub proof fn lemma_cancelled_partial_stays_hidden(
    st: HeadsetView,
    source: String,
    utterance_id: String,
    partial: PresentationEvent,
    now: u64,
    later: u64,
    c: VrOverlayHeadsetConfig,
    display_ms: u64,
)
    requires
        !is_partial_of(st.1, source@, utterance_id@),
        match partial {
            PresentationEvent::RecognitionPartial { utterance_id: u, source: s, .. } => u@ == utterance_id@ && s@ == source@,
            PresentationEvent::LiveTranslationUpdated { source: s, snapshot } => snapshot.utterance_id@ == utterance_id@ && s@ == source@,
            _ => false,
        },
    ensures
        ({
            let cancelled = headset_step(
                st,
                PresentationEvent::RecognitionCancelled { utterance_id, source },
                now,
                c,
                display_ms,
            );
            &&& !is_partial_of(cancelled.1, source@, utterance_id@)
            &&& headset_step(cancelled, partial, later, c, display_ms) == cancelled
        }),
{
    lemma_remember_contains(st.2, (source@, utterance_id@));
}

/// A final result of an utterance replaces its partial result on the headset,
/// and later partial results of it are not shown.
pub proof fn lemma_final_replaces_partial(
    st: HeadsetView,
    utterance_id: String,
    subtitle: Subtitle,
    partial: PresentationEvent,
    now: u64,
    later: u64,
    c: VrOverlayHeadsetConfig,
    display_ms: u64,
)
    requires
        match partial {
            PresentationEvent::RecognitionPartial { utterance_id: u, source: s, .. } => u@ == utterance_id@ && s@ == subtitle.source@,
            _ => false,
        },
    ensures
        ({
            let finished = headset_step(
                st,
                PresentationEvent::Final { utterance_id: Some(utterance_id), subtitle },
                now,
                c,
                display_ms,
            );
            &&& !is_partial_of(finished.1, subtitle.source@, utterance_id@)
            &&& headset_step(finished, partial, later, c, display_ms) == finished
        }),
{
    lemma_remember_contains(st.2, (subtitle.source@, utterance_id@));
}

/// After a source is reset, none of its utterances is remembered as ended, so
/// its utterance ids can be used again.
pub proof fn lemma_reset_forgets_source(v: Seq<(Seq<char>, Seq<char>)>, source: Seq<char>)
    ensures
        forall|i: int| 0 <= i < without_source(v, source).len() ==> #[trigger] without_source(v, source)[i].0 != source,
    decreases v.len(),
{
    if v.len() > 0 {
        lemma_reset_forgets_source(v.drop_last(), source);
        let rest = without_source(v.drop_last(), source);
        let w = without_source(v, source);
        assert forall|i: int| 0 <= i < w.len() implies #[trigger] w[i].0 != source by {
            if i < rest.len() {
                assert(w[i] == rest[i]);
            }
        }
    }
}

/// The preferred-only display shows at most one translation.
pub proof fn lemma_preferred_only_shows_one(ts: Seq<TransView>)
    ensures
        chosen_translations(ts, "preferred_only"@).len() <= 1,
{
}

/// What holds of the wrist at all times: at most ten entries; at most one
/// partial item per source; at most `MAX_TERMINATED_UTTERANCES` ended
/// utterances remembered; and no partial item of an utterance that ended.
pub open spec fn wrist_inv(st: WristView) -> bool {
    &&& st.0.len() <= 10
    &&& forall|i: int, j: int| 0 <= i < j < st.1.len() ==> #[trigger] st.1[i].2 != #[trigger] st.1[j].2
    &&& st.2.len() <= MAX_TERMINATED_UTTERANCES
    &&& forall|i: int| 0 <= i < st.1.len() ==> not_ended(#[trigger] st.1[i], st.2)
}

/// A partial item is not of an utterance that is remembered as ended.
pub open spec fn not_ended(item: ItemView, ended: Seq<(Seq<char>, Seq<char>)>) -> bool {
    match item.0 {
        Some(u) => !ended.contains((item.2, u)),
        None => true,
    }
}

proof fn lemma_first_from_source(items: Seq<ItemView>, source: Seq<char>, k: int)
    requires
        0 <= k,
    ensures
        first_from_source(items, source, k) matches Some(i) ==> k <= i < items.len() && items[i].2 == source,
        first_from_source(items, source, k) is None ==> forall|i: int| k <= i < items.len() ==> items[i].2 != source,
    decreases items.len() - k,
{
    if k < items.len() && items[k].2 != source {
        lemma_first_from_source(items, source, k + 1);
    }
}

proof fn lemma_first_of_subtitle_in(items: Seq<ItemView>, id: i64, k: int)
    requires
        0 <= k,
    ensures
        first_of_subtitle(items, id, k) matches Some(i) ==> k <= i < items.len(),
    decreases items.len() - k,
{
    if k < items.len() && items[k].1 != Some(id) {
        lemma_first_of_subtitle_in(items, id, k + 1);
    }
}

proof fn lemma_drop_items_from(items: Seq<ItemView>, source: Seq<char>, u: Option<Seq<char>>)
    ensures
        drop_items(items, source, u).len() <= items.len(),
        forall|k: int|
            0 <= k < drop_items(items, source, u).len() ==> exists|m: int|
                0 <= m < items.len() && #[trigger] drop_items(items, source, u)[k] == items[m],
        forall|k: int|
            0 <= k < drop_items(items, source, u).len() ==> !(#[trigger] drop_items(items, source, u)[k].2
                == source && match u {
                Some(v) => drop_items(items, source, u)[k].0 == Some(v),
                None => true,
            }),
        (forall|i: int, j: int| 0 <= i < j < items.len() ==> #[trigger] items[i].2 != #[trigger] items[j].2) ==> (
        forall|i: int, j: int|
            0 <= i < j < drop_items(items, source, u).len() ==> #[trigger] drop_items(items, source, u)[i].2
                != #[trigger] drop_items(items, source, u)[j].2),
    decreases items.len(),
{
    if items.len() > 0 {
        let d = items.drop_last();
        lemma_drop_items_from(d, source, u);
        let rest = drop_items(d, source, u);
        let r = drop_items(items, source, u);
        assert forall|k: int| 0 <= k < r.len() implies exists|m: int| 0 <= m < items.len() && #[trigger] r[k] == items[m] by {
            if k < rest.len() {
                assert(r[k] == rest[k]);
                let m = choose|m: int| 0 <= m < d.len() && rest[k] == d[m];
                assert(r[k] == items[m]);
            } else {
                assert(r[k] == items[items.len() - 1]);
            }
        }
        if forall|i: int, j: int| 0 <= i < j < items.len() ==> #[trigger] items[i].2 != #[trigger] items[j].2 {
            assert forall|i: int, j: int| 0 <= i < j < d.len() implies #[trigger] d[i].2 != #[trigger] d[j].2 by {
                assert(d[i] == items[i] && d[j] == items[j]);
            }
            assert forall|i: int, j: int| 0 <= i < j < r.len() implies #[trigger] r[i].2 != #[trigger] r[j].2 by {
                if j < rest.len() {
                    assert(r[i] == rest[i] && r[j] == rest[j]);
                } else {
                    assert(r[i] == rest[i]);
                    let m = choose|m: int| 0 <= m < d.len() && rest[i] == d[m];
                    assert(d[m] == items[m]);
                    assert(r[j] == items[items.len() - 1]);
                }
            }
        }
    }
}

proof fn lemma_remember_bounded(v: Seq<(Seq<char>, Seq<char>)>, key: (Seq<char>, Seq<char>))
    requires
        v.len() <= MAX_TERMINATED_UTTERANCES,
    ensures
        remember_spec(v, key).len() <= MAX_TERMINATED_UTTERANCES,
        forall|x: (Seq<char>, Seq<char>)| #[trigger] remember_spec(v, key).contains(x) ==> x == key || v.contains(x),
{
    assert forall|x: (Seq<char>, Seq<char>)| #[trigger] remember_spec(v, key).contains(x) implies x == key || v.contains(x) by {
        let r = remember_spec(v, key);
        let k = choose|k: int| 0 <= k < r.len() && r[k] == x;
        if !v.contains(key) && v.len() + 1 > MAX_TERMINATED_UTTERANCES {
            assert(r[k] == v.push(key)[k + 1]);
            if k + 1 < v.len() {
                assert(v[k + 1] == x);
            }
        } else if !v.contains(key) {
            if k < v.len() {
                assert(v[k] == x);
            }
        }
    }
}

proof fn lemma_without_source_sub(v: Seq<(Seq<char>, Seq<char>)>, source: Seq<char>)
    ensures
        without_source(v, source).len() <= v.len(),
        forall|x: (Seq<char>, Seq<char>)| #[trigger] without_source(v, source).contains(x) ==> v.contains(x),
    decreases v.len(),
{
    if v.len() > 0 {
        let d = v.drop_last();
        lemma_without_source_sub(d, source);
        assert forall|x: (Seq<char>, Seq<char>)| #[trigger] without_source(v, source).contains(x) implies v.contains(x) by {
            let r = without_source(v, source);
            let k = choose|k: int| 0 <= k < r.len() && r[k] == x;
            let rest = without_source(d, source);
            if k < rest.len() {
                assert(r[k] == rest[k]);
                assert(rest.contains(x));
                let m = choose|m: int| 0 <= m < d.len() && d[m] == x;
                assert(v[m] == x);
            } else {
                assert(v[v.len() - 1] == x);
            }
        }
    }
}

proof fn lemma_upsert_keeps_inv(st: WristView, item: ItemView, shown_at: Option<u64>)
    requires
        wrist_inv(st),
        not_ended(item, st.2),
    ensures
        wrist_inv((st.0, upsert_partial(st.1, item), st.2, shown_at)),
{
    lemma_first_from_source(st.1, item.2, 0);
    let r = upsert_partial(st.1, item);
    assert forall|i: int, j: int| 0 <= i < j < r.len() implies #[trigger] r[i].2 != #[trigger] r[j].2 by {
        if j < st.1.len() {
            assert(r[i].2 == st.1[i].2 || r[i] == item);
        }
    }
}

/// Every event keeps the wrist invariant; and a final result from a shown
/// source becomes the newest entry, with at most the configured number of
/// entries kept.
pub proof fn lemma_wrist_step_keeps_inv(st: WristView, e: PresentationEvent, now: u64, c: VrOverlayWristConfig)
    requires
        wrist_inv(st),
    ensures
        wrist_inv(wrist_step(st, e, now, c)),
        e matches PresentationEvent::Final { utterance_id, subtitle } ==> (source_shown(
            subtitle.source@,
            c.include_speaker,
            c.include_microphone,
            c.include_chatbox,
        ) ==> wrist_step(st, e, now, c).0.len() <= entry_limit(c.max_entries) && wrist_step(st, e, now, c).0.last()
            == subtitle_item(subtitle, opt_text(utterance_id), now)),
{
    let r = wrist_step(st, e, now, c);
    match e {
        PresentationEvent::LiveTranslationUpdated { source, snapshot } => {
            let item = live_item(source@, snapshot, c.show_translation_partials, now);
            if !st.2.contains((source@, snapshot.utterance_id@)) {
                lemma_upsert_keeps_inv(st, item, Some(now));
            }
        },
        PresentationEvent::RecognitionPartial { utterance_id, source, text, language } => {
            if !st.2.contains((source@, utterance_id@)) {
                lemma_upsert_keeps_inv(
                    st,
                    (Some(utterance_id@), None, source@, opt_text(language), text@, Seq::empty(), now),
                    Some(now),
                );
            }
        },
        PresentationEvent::RecognitionCancelled { utterance_id, source } => {
            lemma_drop_items_from(st.1, source@, Some(utterance_id@));
            lemma_remember_bounded(st.2, (source@, utterance_id@));
            assert forall|i: int| 0 <= i < r.1.len() implies not_ended(#[trigger] r.1[i], r.2) by {
                let m = choose|m: int| 0 <= m < st.1.len() && r.1[i] == st.1[m];
                if let Some(u) = r.1[i].0 {
                    if r.2.contains((r.1[i].2, u)) {
                        assert((r.1[i].2, u) == (source@, utterance_id@) || st.2.contains((st.1[m].2, u)));
                    }
                }
            }
        },
        PresentationEvent::RecognitionReset { source } => {
            lemma_drop_items_from(st.1, source@, None);
            lemma_without_source_sub(st.2, source@);
            assert forall|i: int| 0 <= i < r.1.len() implies not_ended(#[trigger] r.1[i], r.2) by {
                let m = choose|m: int| 0 <= m < st.1.len() && r.1[i] == st.1[m];
                if let Some(u) = r.1[i].0 {
                    if r.2.contains((r.1[i].2, u)) {
                        assert(st.2.contains((st.1[m].2, u)));
                    }
                }
            }
        },
        PresentationEvent::Final { utterance_id, subtitle } => {
            let pushed = st.0.push(subtitle_item(subtitle, opt_text(utterance_id), now));
            let lim = entry_limit(c.max_entries);
            if pushed.len() > lim {
                assert(newest(pushed, lim).last() == pushed.last());
                assert(newest(pushed, lim).len() == lim);
            }
            assert(newest(pushed, lim).len() <= 10);
            match utterance_id {
                Some(u0) => {
                    lemma_drop_items_from(st.1, subtitle.source@, Some(u0@));
                    lemma_remember_bounded(st.2, (subtitle.source@, u0@));
                    assert forall|i: int| 0 <= i < r.1.len() implies not_ended(#[trigger] r.1[i], r.2) by {
                        let m = choose|m: int| 0 <= m < st.1.len() && r.1[i] == st.1[m];
                        if let Some(u) = r.1[i].0 {
                            if r.2.contains((r.1[i].2, u)) {
                                assert((r.1[i].2, u) == (subtitle.source@, u0@) || st.2.contains((st.1[m].2, u)));
                            }
                        }
                    }
                },
                None => {},
            }
        },
        PresentationEvent::TranslationPartial { subtitle_id, .. } => {
            lemma_first_of_subtitle_in(st.0, subtitle_id, 0);
        },
        PresentationEvent::TranslationCompleted { subtitle_id, .. } => {
            lemma_first_of_subtitle_in(st.0, subtitle_id, 0);
        },
    }
}

} // verus!
