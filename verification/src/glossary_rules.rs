//! Rules for glossaries: entry lists, subscription URLs and the list of sources.
use vstd::prelude::*;
use vstd::utf8::encode_utf8;

use crate::config::{GlossaryConfig, GlossaryEntry, GlossarySource};
use crate::providers::{is_loopback_host, loopback_host, views};
use crate::rules::{err_of, first_err, lemma_first_err_at, lemma_first_err_none};
use crate::text::{
    char_count, concat, concat3, contains_control, has_control, str_eq, to_lowercase, trim,
    trim_str, unicode_lower,
};
use crate::web_url::{opt_parts, parse_url, url_parse, UrlParts, UrlView};

verus! {

/// The key under which glossary source terms must be unique: the trimmed
/// term, lower-cased unless the entry is case sensitive, and the flag itself.
pub open spec fn entry_key(e: GlossaryEntry) -> (Seq<char>, bool) {
    let source = trim(e.source@);
    (
        if e.case_sensitive {
            source
        } else {
            unicode_lower(source)
        },
        e.case_sensitive,
    )
}

/// The comparison text of each entry's key.
pub open spec fn entry_keys(entries: Seq<GlossaryEntry>) -> Seq<Seq<char>> {
    Seq::new(entries.len(), |j: int| entry_key(entries[j]).0)
}

/// Why the `i`-th entry is not acceptable, given that the ones before it are;
/// `keys[j]` is the comparison text of entry `j`'s key.
pub open spec fn entry_err_keyed(
    entries: Seq<GlossaryEntry>,
    label: Seq<char>,
    i: int,
    keys: Seq<Seq<char>>,
) -> Option<Seq<char>> {
    let e = entries[i];
    let source = trim(e.source@);
    if source.len() == 0 || source.len() > 200 || has_control(source) {
        Some(label + " source must contain 1 to 200 single-line characters"@)
    } else if e.target matches Some(t) && (t@.len() > 200 || has_control(t@)) {
        Some(label + " target must contain at most 200 single-line characters"@)
    } else if exists|j: int|
        0 <= j < i && #[trigger] entries[j].case_sensitive == e.case_sensitive && keys[j]
            == keys[i] {
        Some(label + " contains a duplicate source term: "@ + source)
    } else {
        None
    }
}

/// Why the `i`-th entry is not acceptable, given that the ones before it are.
pub open spec fn entry_err(entries: Seq<GlossaryEntry>, label: Seq<char>, i: int) -> Option<
    Seq<char>,
> {
    entry_err_keyed(entries, label, i, entry_keys(entries))
}

/// The entry checks, one per position.
pub open spec fn entry_checks(entries: Seq<GlossaryEntry>, label: Seq<char>) -> spec_fn(int) -> Option<
    Seq<char>,
> {
    |i: int| entry_err(entries, label, i)
}

/// Why a list of glossary entries is not acceptable.
pub open spec fn entries_err(entries: Seq<GlossaryEntry>, label: Seq<char>) -> Option<Seq<char>> {
    if entries.len() > 500 {
        Some(label + " cannot exceed 500 entries"@)
    } else {
        first_err(entry_checks(entries, label), 0, entries.len() as int)
    }
}

/// Checks the `i`-th entry, given the comparison texts `keys` of the keys of
/// entries `0..=i`.
pub fn check_glossary_entry(entries: &[GlossaryEntry], label: &str, i: usize, keys: &Vec<String>) -> (r: Result<
    (),
    String,
>)
    requires
        i < entries@.len(),
        keys@.len() == i + 1,
    ensures
        err_of(r) == entry_err_keyed(entries@, label@, i as int, views(keys@)),
{
    let ghost ks = views(keys@);
    let e = &entries[i];
    let source = trim_str(e.source.as_str());
    let n = char_count(source.as_str());
    if n == 0 || n > 200 || contains_control(source.as_str()) {
        return Err(concat(label, " source must contain 1 to 200 single-line characters"));
    }
    match &e.target {
        Some(t) => {
            if char_count(t.as_str()) > 200 || contains_control(t.as_str()) {
                return Err(concat(label, " target must contain at most 200 single-line characters"));
            }
        },
        None => {},
    }
    let key = keys[i].as_str();
    let mut j: usize = 0;
    while j < i
        invariant
            j <= i < entries@.len(),
            *e == entries@[i as int],
            source@ == trim(e.source@),
            1 <= source@.len() <= 200,
            !has_control(source@),
            !(e.target matches Some(t) && (t@.len() > 200 || has_control(t@))),
            keys@.len() == i + 1,
            ks == views(keys@),
            key@ == ks[i as int],
            forall|k: int|
                0 <= k < j ==> !(#[trigger] entries@[k].case_sensitive == e.case_sensitive && ks[k]
                    == ks[i as int]),
        decreases i - j,
    {
        if entries[j].case_sensitive == e.case_sensitive && str_eq(keys[j].as_str(), key) {
            assert(entries@[j as int].case_sensitive == e.case_sensitive && ks[j as int] == ks[i as int]);
            return Err(concat3(label, " contains a duplicate source term: ", source.as_str()));
        }
        j = j + 1;
    }
    Ok(())
}

/// The comparison text of an entry's key: its trimmed source term,
/// lower-cased unless the entry is case sensitive.
fn entry_key_text(e: &GlossaryEntry) -> (r: String)
    ensures
        r@ == entry_key(*e).0,
{
    let source = trim_str(e.source.as_str());
    if e.case_sensitive {
        source
    } else {
        to_lowercase(source.as_str())
    }
}

/// Checks the size of a glossary and each of its entries.
pub fn validate_glossary_entries(entries: &[GlossaryEntry], label: &str) -> (r: Result<(), String>)
    ensures
        err_of(r) == entries_err(entries@, label@),
{
    if entries.len() > 500 {
        return Err(concat(label, " cannot exceed 500 entries"));
    }
    let ghost f = entry_checks(entries@, label@);
    let mut keys: Vec<String> = Vec::new();
    let mut i: usize = 0;
    while i < entries.len()
        invariant
            i <= entries@.len() <= 500,
            f == entry_checks(entries@, label@),
            keys@.len() == i,
            views(keys@) == entry_keys(entries@).take(i as int),
            forall|j: int| 0 <= j < i ==> #[trigger] f(j).is_none(),
        decreases entries@.len() - i,
    {
        keys.push(entry_key_text(&entries[i]));
        assert(views(keys@) =~= entry_keys(entries@).take(i + 1));
        let r = check_glossary_entry(entries, label, i, &keys);
        assert(entry_err_keyed(entries@, label@, i as int, views(keys@)) == f(i as int)) by {
            let a = views(keys@);
            let b = entry_keys(entries@);
            let es = entries@;
            assert forall|j: int| 0 <= j <= i implies a[j] == b[j] by {}
            assert((exists|j: int|
                0 <= j < i && #[trigger] es[j].case_sensitive == es[i as int].case_sensitive && a[j]
                    == a[i as int]) == (exists|j: int|
                0 <= j < i && #[trigger] es[j].case_sensitive == es[i as int].case_sensitive && b[j]
                    == b[i as int]));
        }
        match r {
            Err(e) => {
                proof {
                    lemma_first_err_at(f, 0, entries@.len() as int, i as int);
                }
                return Err(e);
            },
            Ok(()) => {},
        }
        i = i + 1;
    }
    proof {
        lemma_first_err_none(f, 0, entries@.len() as int);
    }
    Ok(())
}

/// What the parsed form of a glossary subscription URL makes of it: `None`
/// when acceptable, else why not.
pub open spec fn url_verdict_err(parsed: Option<UrlView>) -> Option<Seq<char>> {
    match parsed {
        None => Some("Glossary source URL is invalid"@),
        Some(u) => if u.1.is_none() || u.2.len() > 0 || u.3.is_some() || u.5.is_some() {
            Some("Glossary source URL cannot contain credentials or a fragment"@)
        } else if u.0 == "https"@ {
            None
        } else if u.0 == "http"@ && loopback_host(u.1.unwrap()) {
            None
        } else {
            Some("Glossary source URL must use HTTPS, except for loopback HTTP addresses"@)
        },
    }
}

/// Why a glossary subscription URL is not acceptable.
pub open spec fn source_url_err(value: Seq<char>) -> Option<Seq<char>> {
    let v = trim(value);
    if v.len() == 0 || encode_utf8(v).len() > 2048 {
        Some("Glossary source URL must contain 1 to 2048 characters"@)
    } else {
        url_verdict_err(url_parse(v))
    }
}

/// Judges a parsed glossary subscription URL (`None` when it did not parse):
/// HTTPS, or HTTP to this machine, with a host, no credentials and no fragment.
pub fn glossary_url_verdict(parsed: &Option<UrlParts>) -> (r: Result<(), String>)
    ensures
        err_of(r) == url_verdict_err(opt_parts(*parsed)),
{
    let u = match parsed {
        None => {
            return Err("Glossary source URL is invalid".to_owned());
        },
        Some(u) => u,
    };
    let host = match &u.host {
        None => {
            return Err("Glossary source URL cannot contain credentials or a fragment".to_owned());
        },
        Some(h) => h,
    };
    if char_count(u.username.as_str()) > 0 || u.password.is_some() || u.fragment.is_some() {
        return Err("Glossary source URL cannot contain credentials or a fragment".to_owned());
    }
    if str_eq(u.scheme.as_str(), "https") {
        return Ok(());
    }
    if str_eq(u.scheme.as_str(), "http") && is_loopback_host(host.as_str()) {
        return Ok(());
    }
    Err("Glossary source URL must use HTTPS, except for loopback HTTP addresses".to_owned())
}

/// Checks a glossary subscription URL: 1 to 2048 bytes once trimmed, then
/// what its parsed form allows.
pub fn validate_glossary_source_url(value: &str) -> (r: Result<(), String>)
    ensures
        err_of(r) == source_url_err(value@),
{
    let v = trim_str(value);
    if char_count(v.as_str()) == 0 || crate::text::utf8_len(v.as_str()) > 2048 {
        return Err("Glossary source URL must contain 1 to 2048 characters".to_owned());
    }
    let parsed = parse_url(v.as_str());
    glossary_url_verdict(&parsed)
}

/// The id a glossary source carries.
pub open spec fn source_id(s: GlossarySource) -> Seq<char> {
    match s {
        GlossarySource::Local { id, .. } => id@,
        GlossarySource::Subscription { id, .. } => id@,
    }
}

/// Why the `i`-th glossary source is not acceptable, given that the ones before it are.
pub open spec fn source_err(sources: Seq<GlossarySource>, i: int) -> Option<Seq<char>> {
    let own = match sources[i] {
        GlossarySource::Local { name, entries, .. } => if trim(name@).len() == 0 || !(1
            <= name@.len() <= 100) {
            Some("Local glossary name must contain 1 to 100 characters"@)
        } else {
            entries_err(entries@, "Local glossary"@)
        },
        GlossarySource::Subscription { url, display_name, .. } => if source_url_err(
            url@,
        ).is_some() {
            source_url_err(url@)
        } else if display_name matches Some(n) && n@.len() > 100 {
            Some("Glossary subscription display_name cannot exceed 100 characters"@)
        } else {
            None
        },
    };
    let id = trim(source_id(sources[i]));
    if own.is_some() {
        own
    } else if id.len() == 0 {
        Some("Glossary source id cannot be empty"@)
    } else if exists|j: int| 0 <= j < i && trim(source_id(#[trigger] sources[j])) == id {
        Some("Glossary source id must be unique: "@ + id)
    } else {
        None
    }
}

/// The source checks, one per position.
pub open spec fn source_checks(sources: Seq<GlossarySource>) -> spec_fn(int) -> Option<Seq<char>> {
    |i: int| source_err(sources, i)
}

/// Why a glossary configuration is not acceptable.
pub open spec fn glossary_err(glossary: GlossaryConfig) -> Option<Seq<char>> {
    first_err(source_checks(glossary.sources@), 0, glossary.sources@.len() as int)
}

fn check_source(sources: &Vec<GlossarySource>, i: usize, ids: &Vec<String>) -> (r: Result<
    String,
    String,
>)
    requires
        i < sources@.len(),
        ids@.len() == i,
        forall|j: int| 0 <= j < i ==> #[trigger] ids@[j]@ == trim(source_id(sources@[j])),
    ensures
        match r {
            Ok(id) => source_err(sources@, i as int).is_none() && id@ == trim(
                source_id(sources@[i as int]),
            ),
            Err(e) => source_err(sources@, i as int) == Some(e@),
        },
{
    let id = match &sources[i] {
        GlossarySource::Local { id, name, entries, .. } => {
            let n = char_count(name.as_str());
            if crate::text::is_blank(name.as_str()) || !(1 <= n && n <= 100) {
                return Err("Local glossary name must contain 1 to 100 characters".to_owned());
            }
            validate_glossary_entries(entries.as_slice(), "Local glossary")?;
            id
        },
        GlossarySource::Subscription { id, url, display_name, .. } => {
            validate_glossary_source_url(url.as_str())?;
            match display_name {
                Some(n) => {
                    if char_count(n.as_str()) > 100 {
                        return Err(
                            "Glossary subscription display_name cannot exceed 100 characters".to_owned(),
                        );
                    }
                },
                None => {},
            }
            id
        },
    };
    let t = trim_str(id.as_str());
    if char_count(t.as_str()) == 0 {
        return Err("Glossary source id cannot be empty".to_owned());
    }
    let mut j: usize = 0;
    while j < i
        invariant
            j <= i < sources@.len(),
            t@ == trim(source_id(sources@[i as int])),
            t@.len() > 0,
            source_err(sources@, i as int) == (if exists|k: int|
                0 <= k < i && trim(source_id(#[trigger] sources@[k])) == t@ {
                Some("Glossary source id must be unique: "@ + t@)
            } else {
                None
            }),
            ids@.len() == i,
            forall|k: int| 0 <= k < i ==> #[trigger] ids@[k]@ == trim(source_id(sources@[k])),
            forall|k: int| 0 <= k < j ==> trim(source_id(#[trigger] sources@[k])) != t@,
        decreases i - j,
    {
        if str_eq(ids[j].as_str(), t.as_str()) {
            assert(trim(source_id(sources@[j as int])) == t@);
            return Err(concat("Glossary source id must be unique: ", t.as_str()));
        }
        j = j + 1;
    }
    Ok(t)
}

/// Checks every glossary source in order.
pub fn validate_glossary(glossary: &GlossaryConfig) -> (r: Result<(), String>)
    ensures
        err_of(r) == glossary_err(*glossary),
{
    let sources = &glossary.sources;
    let ghost f = source_checks(sources@);
    let mut ids: Vec<String> = Vec::new();
    let mut i: usize = 0;
    while i < sources.len()
        invariant
            i <= sources@.len(),
            sources@ == glossary.sources@,
            f == source_checks(sources@),
            ids@.len() == i,
            forall|j: int| 0 <= j < i ==> #[trigger] ids@[j]@ == trim(source_id(sources@[j])),
            forall|j: int| 0 <= j < i ==> #[trigger] f(j).is_none(),
        decreases sources@.len() - i,
    {
        match check_source(sources, i, &ids) {
            Err(e) => {
                proof {
                    lemma_first_err_at(f, 0, sources@.len() as int, i as int);
                }
                return Err(e);
            },
            Ok(id) => {
                ids.push(id);
            },
        }
        i = i + 1;
    }
    proof {
        lemma_first_err_none(f, 0, sources@.len() as int);
    }
    Ok(())
}

} // verus!
