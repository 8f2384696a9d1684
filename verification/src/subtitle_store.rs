//! Decisions of the subtitle history store: which schema migrations an
//! opened store still needs, how joined subtitle/translation rows fold into
//! subtitles, and how one page of a conversation's history is cut.
use vstd::prelude::*;

use crate::models::{Subtitle, SubtitleTranslation};

verus! {

/// The schema version this store writes.
pub const LATEST_SCHEMA_VERSION: u32 = 4;

/// A store whose schema is newer than this code understands.
#[derive(Clone, Copy, Debug, PartialEq, Eq)]
pub struct SchemaTooNew {
    pub found: u32,
    pub supported: u32,
}

/// The migrations, in order, that bring a store at `version` to the latest
/// schema: every step from `version + 1` up to the latest one.
pub open spec fn migration_steps(version: nat) -> Seq<u32> {
    Seq::new(
        (if version < LATEST_SCHEMA_VERSION { LATEST_SCHEMA_VERSION - version } else { 0 }) as nat,
        |i: int| (version + 1 + i) as u32,
    )
}

/// Which migrations to run on a store whose recorded schema version is
/// `version`: refused when the store is newer than this code.
pub fn pending_migrations(version: u32) -> (r: Result<Vec<u32>, SchemaTooNew>)
    ensures
        version > LATEST_SCHEMA_VERSION <==> r is Err,
        r matches Err(e) ==> e.found == version && e.supported == LATEST_SCHEMA_VERSION,
        r matches Ok(steps) ==> steps@ == migration_steps(version as nat),
{
    if version > LATEST_SCHEMA_VERSION {
        return Err(SchemaTooNew { found: version, supported: LATEST_SCHEMA_VERSION });
    }
    let mut steps: Vec<u32> = Vec::new();
    let mut next: u32 = version + 1;
    while next <= LATEST_SCHEMA_VERSION
        invariant
            version <= LATEST_SCHEMA_VERSION,
            version + 1 <= next <= LATEST_SCHEMA_VERSION + 1,
            steps@.len() == next - version - 1,
            forall|i: int| 0 <= i < steps@.len() ==> steps@[i] == version + 1 + i,
        decreases LATEST_SCHEMA_VERSION + 1 - next,
    {
        steps.push(next);
        next = next + 1;
    }
    assert(steps@ =~= migration_steps(version as nat));
    Ok(steps)
}

/// A subtitle as a fold of joined rows makes it: the subtitle of the row that
/// opened it, and the translations gathered for it.
pub struct SubtitleGroup {
    pub head: Subtitle,
    pub translations: Seq<SubtitleTranslation>,
}

pub open spec fn opt_seq(t: Option<SubtitleTranslation>) -> Seq<SubtitleTranslation> {
    match t {
        Some(x) => seq![x],
        None => Seq::empty(),
    }
}

/// Joined rows, one per subtitle and translation (or one with no translation),
/// folded into subtitles: a row whose subtitle id equals that of the subtitle
/// just before adds its translation to it; any other row opens a subtitle.
pub open spec fn grouped(rows: Seq<(Subtitle, Option<SubtitleTranslation>)>) -> Seq<SubtitleGroup>
    decreases rows.len(),
{
    if rows.len() == 0 {
        Seq::empty()
    } else {
        let prev = grouped(rows.drop_last());
        let (s, t) = rows.last();
        if prev.len() > 0 && prev.last().head.id == s.id {
            prev.update(
                prev.len() - 1,
                SubtitleGroup {
                    head: prev.last().head,
                    translations: prev.last().translations + opt_seq(t),
                },
            )
        } else {
            prev.push(SubtitleGroup { head: s, translations: s.translations@ + opt_seq(t) })
        }
    }
}

/// `out` is the subtitle `g` stands for: the fields of its opening row, with
/// the gathered translations.
pub open spec fn renders(out: Subtitle, g: SubtitleGroup) -> bool {
    &&& out.id == g.head.id
    &&& out.conversation_id == g.head.conversation_id
    &&& out.text@ == g.head.text@
    &&& out.language == g.head.language
    &&& out.source@ == g.head.source@
    &&& out.created_at@ == g.head.created_at@
    &&& out.translations@ == g.translations
}

fn same_id(a: Option<i64>, b: Option<i64>) -> (r: bool)
    ensures
        r == (a == b),
{
    match (a, b) {
        (Some(x), Some(y)) => x == y,
        (None, None) => true,
        _ => false,
    }
}

fn push_opt(v: &mut Vec<SubtitleTranslation>, t: Option<SubtitleTranslation>)
    ensures
        final(v)@ == old(v)@ + opt_seq(t),
{
    match t {
        Some(x) => {
            v.push(x);
        },
        None => {
            assert(old(v)@ + opt_seq(t) =~= old(v)@);
        },
    }
}

/// Folds joined subtitle/translation rows, ordered so that the rows of one
/// subtitle follow each other, into subtitles with their translations.
pub fn group_rows(rows: Vec<(Subtitle, Option<SubtitleTranslation>)>) -> (out: Vec<Subtitle>)
    ensures
        out@.len() == grouped(rows@).len(),
        forall|i: int| 0 <= i < out@.len() ==> renders(#[trigger] out@[i], grouped(rows@)[i]),
{
    let ghost all = rows@;
    let mut done: Vec<Subtitle> = Vec::new();
    let mut open: Option<Subtitle> = None;
    for row in it: rows.into_iter()
        invariant
            it.seq() == all,
            ({
                let g = grouped(all.take(it.index() as int));
                &&& g.len() == done@.len() + (if open is Some { 1int } else { 0 })
                &&& forall|i: int| 0 <= i < done@.len() ==> renders(#[trigger] done@[i], g[i])
                &&& (open matches Some(o) ==> renders(o, g.last()))
                &&& (it.index() > 0 ==> open is Some)
            }),
    {
        let ghost k = it.index() as int;
        proof {
            assert(all.take(k + 1).drop_last() =~= all.take(k));
            assert(all.take(k + 1).last() == all[k]);
        }
        let (s, t) = row;
        match open {
            Some(mut o) => {
                if same_id(o.id, s.id) {
                    push_opt(&mut o.translations, t);
                    open = Some(o);
                } else {
                    done.push(o);
                    let mut n = s;
                    push_opt(&mut n.translations, t);
                    open = Some(n);
                }
            },
            None => {
                let mut n = s;
                push_opt(&mut n.translations, t);
                open = Some(n);
            },
        }
    }
    proof {
        assert(all.take(all.len() as int) =~= all);
    }
    match open {
        Some(o) => {
            done.push(o);
        },
        None => {},
    }
    done
}

/// One page of a conversation's history, newest first.
pub struct ConversationSubtitlePage {
    pub items: Vec<Subtitle>,
    pub has_more: bool,
    pub next_before_id: Option<i64>,
}

/// Cuts a page of at most `limit` subtitles out of `fetched`, which holds up
/// to one more than `limit` so that a further page can be told apart: the
/// page says whether more follow and, if so, the id to continue before.
pub fn page_from(fetched: Vec<Subtitle>, limit: u32) -> (page: ConversationSubtitlePage)
    ensures
        page.has_more == (fetched@.len() > limit),
        page.items@ == (if page.has_more { fetched@.take(limit as int) } else { fetched@ }),
        page.next_before_id == (if page.has_more && limit > 0 {
            fetched@[limit - 1].id
        } else {
            None
        }),
{
    let mut items = fetched;
    let has_more = items.len() > limit as usize;
    if has_more {
        items.truncate(limit as usize);
    }
    let next_before_id = if has_more && items.len() > 0 {
        items[items.len() - 1].id
    } else {
        None
    };
    ConversationSubtitlePage { items, has_more, next_before_id }
}

/// The subtitle as saved: the given one with the id and conversation the store
/// gave it, and no translations yet.
pub fn saved_subtitle(subtitle: Subtitle, id: i64, conversation_id: String) -> (saved: Subtitle)
    ensures
        saved.id == Some(id),
        saved.conversation_id == Some(conversation_id),
        saved.text == subtitle.text,
        saved.language == subtitle.language,
        saved.source == subtitle.source,
        saved.created_at == subtitle.created_at,
        saved.translations@.len() == 0,
{
    let mut saved = subtitle;
    saved.id = Some(id);
    saved.conversation_id = Some(conversation_id);
    saved.translations.clear();
    saved
}

} // verus!
